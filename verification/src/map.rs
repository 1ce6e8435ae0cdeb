//! The map of places: photos are grouped by the cells of a grid, one pin for each cell.
use std::collections::HashMap;
use vstd::prelude::*;
use vstd::string::*;
use crate::order;
use crate::order::{refs_sorted_by_keys, Descending};
use crate::text;
use crate::text::{number, owned};

verus! {

/// The most pins that are put on the map.
pub const MAX_PINS: usize = 2000;

/// A cell of the grid, by its row and column.
#[derive(Clone, Copy, Debug, PartialEq, Eq, Structural)]
pub struct GridCell {
    pub row: i64,
    pub col: i64,
}

/// The photos in one cell of the grid, by their places in the list, in the order of the list.
#[derive(Debug, PartialEq, Eq)]
pub struct Cluster {
    pub cell: GridCell,
    pub members: Vec<usize>,
}

impl Clone for Cluster {
    fn clone(&self) -> (r: Self)
        ensures
            r.cell == self.cell,
            r.members@ == self.members@,
    {
        let mut members: Vec<usize> = Vec::new();
        let mut i: usize = 0;
        while i < self.members.len()
            invariant
                i <= self.members.len(),
                members@ == self.members@.take(i as int),
            decreases self.members.len() - i,
        {
            members.push(self.members[i]);
            assert(self.members@.take(i + 1) =~= self.members@.take(i as int).push(
                self.members@[i as int],
            ));
            i = i + 1;
        }
        assert(self.members@.take(i as int) =~= self.members@);
        Cluster { cell: self.cell, members }
    }
}

/// The places below `n` whose photo lies in a cell.
pub open spec fn places_in(cells: Seq<Option<GridCell>>, cell: GridCell, n: int) -> Seq<int>
    decreases n,
{
    if n <= 0 {
        Seq::empty()
    } else if cells[n - 1] == Some(cell) {
        places_in(cells, cell, n - 1).push(n - 1)
    } else {
        places_in(cells, cell, n - 1)
    }
}

/// The places of a cluster.
pub open spec fn places_of(cluster: Cluster) -> Seq<int> {
    order::ints(cluster.members@)
}

/// Each cluster holds exactly the photos of its cell among the first `n`, and at least one; no two
/// are of one cell; every photo that lies in a cell is in one.
pub open spec fn covers(cells: Seq<Option<GridCell>>, clusters: Seq<Cluster>, n: int) -> bool {
    &&& forall|i: int|
        0 <= i < clusters.len() ==> places_of(#[trigger] clusters[i]) == places_in(
            cells,
            clusters[i].cell,
            n,
        ) && clusters[i].members@.len() > 0
    &&& forall|i: int, j: int|
        0 <= i < j < clusters.len() ==> (#[trigger] clusters[i]).cell != (
        #[trigger] clusters[j]).cell
    &&& forall|k: int|
        0 <= k < n && (#[trigger] cells[k]) is Some ==> exists|i: int|
            0 <= i < clusters.len() && (#[trigger] clusters[i]).cell == cells[k]->0
}

/// One number for a cell.
spec fn cell_number(cell: GridCell) -> int {
    (cell.row + 0x8000_0000_0000_0000) * 0x1_0000_0000_0000_0000 + (cell.col
        + 0x8000_0000_0000_0000)
}

proof fn cell_numbers_differ(a: GridCell, b: GridCell)
    requires
        cell_number(a) == cell_number(b),
    ensures
        a == b,
{
}

fn number_of(cell: GridCell) -> (r: u128)
    ensures
        r == cell_number(cell),
{
    let row: u128 = (cell.row as i128 + 0x8000_0000_0000_0000i128) as u128;
    let col: u128 = (cell.col as i128 + 0x8000_0000_0000_0000i128) as u128;
    row * 0x1_0000_0000_0000_0000u128 + col
}

/// `index` finds each cluster by the number of its cell.
spec fn finds(index: Map<u128, usize>, clusters: Seq<Cluster>) -> bool {
    &&& forall|i: int|
        0 <= i < clusters.len() ==> {
            let n = cell_number((#[trigger] clusters[i]).cell) as u128;
            index.contains_key(n) && index[n] == i
        }
    &&& forall|n: u128| #[trigger]
        index.contains_key(n) ==> index[n] < clusters.len() && cell_number(
            clusters[index[n] as int].cell,
        ) == n
}

proof fn absent_cell_has_no_places(cells: Seq<Option<GridCell>>, cell: GridCell, n: int)
    requires
        0 <= n <= cells.len(),
        forall|k: int| 0 <= k < n ==> (#[trigger] cells[k]) != Some(cell),
    ensures
        places_in(cells, cell, n) == Seq::<int>::empty(),
    decreases n,
{
    if n > 0 {
        absent_cell_has_no_places(cells, cell, n - 1);
    }
}

/// Groups the photos by cell, in the order in which the cells first occur. A photo without a cell
/// is left out.
#[verifier::rlimit(60)]
pub fn group_by_cell(cells: &Vec<Option<GridCell>>) -> (r: Vec<Cluster>)
    ensures
        covers(cells@, r@, cells@.len() as int),
{
    broadcast use vstd::std_specs::hash::group_hash_axioms;

    let mut clusters: Vec<Cluster> = Vec::new();
    let mut index: HashMap<u128, usize> = HashMap::new();
    let mut i: usize = 0;
    while i < cells.len()
        invariant
            i <= cells.len(),
            covers(cells@, clusters@, i as int),
            finds(index@, clusters@),
        decreases cells.len() - i,
    {
        let ghost before = clusters@;
        let ghost known = index@;
        match cells[i] {
            None => {
                assert(covers(cells@, clusters@, i + 1));
            },
            Some(cell) => {
                let n: u128 = number_of(cell);
                let found: Option<usize> = match index.get(&n) {
                    Some(k) => Some(*k),
                    None => None,
                };
                match found {
                    Some(k) => {
                        proof {
                            cell_numbers_differ(before[k as int].cell, cell);
                        }
                        clusters[k].members.push(i);
                        proof {
                            assert(places_of(clusters@[k as int]) =~= places_of(
                                before[k as int],
                            ).push(i as int));
                            assert forall|j: int| 0 <= j < clusters@.len() implies places_of(
                                #[trigger] clusters@[j],
                            ) == places_in(cells@, clusters@[j].cell, i + 1)
                                && clusters@[j].members@.len() > 0 by {
                                assert(before[j].cell == clusters@[j].cell);
                                if j != k {
                                    assert(before[j].cell != cell);
                                }
                            }
                            assert forall|j: int| 0 <= j < i + 1 && (
                            #[trigger] cells@[j]) is Some implies exists|c: int|
                                0 <= c < clusters@.len() && (#[trigger] clusters@[c]).cell
                                    == cells@[j]->0 by {
                                if j < i {
                                    let c = choose|c: int|
                                        0 <= c < before.len() && (#[trigger] before[c]).cell
                                            == cells@[j]->0;
                                    assert(clusters@[c].cell == before[c].cell);
                                } else {
                                    assert(clusters@[k as int].cell == cell);
                                }
                            }
                        }
                    },
                    None => {
                        let mut members: Vec<usize> = Vec::new();
                        members.push(i);
                        let at: usize = clusters.len();
                        proof {
                            assert forall|j: int| 0 <= j < i implies (#[trigger] cells@[j]) != Some(
                                cell,
                            ) by {
                                if cells@[j] == Some(cell) {
                                    let c = choose|c: int|
                                        0 <= c < before.len() && (#[trigger] before[c]).cell
                                            == cells@[j]->0;
                                    assert(index@.contains_key(cell_number(before[c].cell) as u128));
                                }
                            }
                            absent_cell_has_no_places(cells@, cell, i as int);
                            assert forall|j: int| 0 <= j < before.len() implies (
                            #[trigger] before[j]).cell != cell by {
                                assert(index@.contains_key(cell_number(before[j].cell) as u128));
                            }
                        }
                        clusters.push(Cluster { cell, members });
                        index.insert(n, at);
                        proof {
                            assert(places_of(clusters@[at as int]) =~= seq![i as int]);
                            assert(places_in(cells@, cell, i + 1) =~= seq![i as int]);
                            assert forall|j: int| 0 <= j < i + 1 && (
                            #[trigger] cells@[j]) is Some implies exists|c: int|
                                0 <= c < clusters@.len() && (#[trigger] clusters@[c]).cell
                                    == cells@[j]->0 by {
                                if j < i {
                                    let c = choose|c: int|
                                        0 <= c < before.len() && (#[trigger] before[c]).cell
                                            == cells@[j]->0;
                                    assert(clusters@[c].cell == before[c].cell);
                                } else {
                                    assert(clusters@[at as int].cell == cell);
                                }
                            }
                            assert forall|j: int| 0 <= j < clusters@.len() implies {
                                let m = cell_number((#[trigger] clusters@[j]).cell) as u128;
                                index@.contains_key(m) && index@[m] == j
                            } by {
                                if j < at {
                                    assert(clusters@[j] == before[j]);
                                    assert(known.contains_key(
                                        cell_number(before[j].cell) as u128,
                                    ));
                                    if cell_number(before[j].cell) == n {
                                        cell_numbers_differ(before[j].cell, cell);
                                    }
                                }
                            }
                            assert forall|m: u128| #[trigger] index@.contains_key(m) implies index@[m]
                                < clusters@.len() && cell_number(clusters@[index@[m] as int].cell)
                                == m by {
                                if m != n {
                                    assert(known.contains_key(m));
                                }
                            }
                        }
                    },
                }
            },
        }
        i = i + 1;
    }
    clusters
}

/// Clusters with more photos first.
pub open spec fn larger_first() -> spec_fn(Cluster, Cluster) -> bool {
    |a: Cluster, b: Cluster| b.members@.len() <= a.members@.len()
}

/// The clusters have distinct cells that hold just their photos, and come with the larger ones
/// first; every cell that holds a photo is among them, unless as many as allowed with at least as
/// many photos each are.
pub open spec fn is_pin_list(cells: Seq<Option<GridCell>>, clusters: Seq<Cluster>, most: nat) -> bool {
    &&& clusters.len() <= most
    &&& forall|i: int|
        0 <= i < clusters.len() ==> places_of(#[trigger] clusters[i]) == places_in(
            cells,
            clusters[i].cell,
            cells.len() as int,
        ) && clusters[i].members@.len() > 0
    &&& forall|i: int, j: int|
        0 <= i < j < clusters.len() ==> (#[trigger] clusters[i]).cell != (
        #[trigger] clusters[j]).cell && clusters[j].members@.len() <= clusters[i].members@.len()
    &&& forall|k: int|
        0 <= k < cells.len() && (#[trigger] cells[k]) is Some ==> (exists|i: int|
            0 <= i < clusters.len() && (#[trigger] clusters[i]).cell == cells[k]->0) || (
        clusters.len() == most && forall|i: int|
            0 <= i < clusters.len() ==> places_in(cells, cells[k]->0, cells.len() as int).len()
                <= (#[trigger] clusters[i]).members@.len())
}

/// The pins of the map: the photos grouped by cell, larger groups first, as many as allowed.
#[verifier::rlimit(60)]
pub fn rebuild_clusters(cells: &Vec<Option<GridCell>>) -> (r: Vec<Cluster>)
    ensures
        is_pin_list(cells@, r@, MAX_PINS as nat),
{
    let groups: Vec<Cluster> = group_by_cell(cells);
    let mut refs: Vec<&Cluster> = Vec::new();
    let mut keys: Vec<Descending<u64>> = Vec::new();
    let mut i: usize = 0;
    while i < groups.len()
        invariant
            i <= groups.len(),
            refs.len() == i,
            keys.len() == i,
            forall|k: int| 0 <= k < i ==> *(#[trigger] refs@[k]) == groups@[k],
            forall|k: int| 0 <= k < i ==> (#[trigger] keys@[k]).key == groups@[k].members@.len(),
        decreases groups.len() - i,
    {
        refs.push(&groups[i]);
        keys.push(Descending { key: groups[i].members.len() as u64 });
        i = i + 1;
    }
    assert(order::behind(refs@) =~= groups@);
    let ghost le = larger_first();
    let sorted: Vec<&Cluster> = refs_sorted_by_keys(&refs, &keys, Ghost(le));
    let ghost all = order::behind(sorted@);
    proof {
        assert(order::is_ranking(le));
        order::sort_keeps_elements(groups@, le);
    }
    let mut out: Vec<Cluster> = Vec::new();
    let mut j: usize = 0;
    while j < sorted.len() && j < MAX_PINS
        invariant
            j <= sorted.len(),
            j <= MAX_PINS,
            out.len() == j,
            all == order::behind(sorted@),
            forall|k: int|
                0 <= k < j ==> (#[trigger] out@[k]).cell == all[k].cell && out@[k].members@
                    == all[k].members@,
        decreases sorted.len() - j,
    {
        assert(all[j as int] == *sorted@[j as int]);
        out.push(sorted[j].clone());
        j = j + 1;
    }
    proof {
        let n = cells@.len() as int;
        assert(all.len() == groups@.len());
        assert forall|k: int| 0 <= k < out@.len() implies places_of(#[trigger] out@[k])
            == places_in(cells@, out@[k].cell, n) && out@[k].members@.len() > 0 by {
            assert(all.contains(all[k]));
            assert(groups@.contains(all[k]));
            let g = groups@.index_of(all[k]);
            assert(groups@[g] == all[k]);
        }
        assert forall|a: int, b: int| 0 <= a < b < out@.len() implies (#[trigger] out@[a]).cell != (
        #[trigger] out@[b]).cell && out@[b].members@.len() <= out@[a].members@.len() by {
            assert(le(all[a], all[b]));
            let p = order::sorted_places_differ(groups@, le, a, b);
            if p.0 < p.1 {
                assert(groups@[p.0].cell != groups@[p.1].cell);
            } else {
                assert(groups@[p.1].cell != groups@[p.0].cell);
            }
        }
        assert forall|k: int| 0 <= k < n && (#[trigger] cells@[k]) is Some implies (exists|c: int|
            0 <= c < out@.len() && (#[trigger] out@[c]).cell == cells@[k]->0) || (out@.len()
            == MAX_PINS && forall|c: int|
            0 <= c < out@.len() ==> places_in(cells@, cells@[k]->0, n).len() <= (
            #[trigger] out@[c]).members@.len()) by {
            let g = choose|g: int|
                0 <= g < groups@.len() && (#[trigger] groups@[g]).cell == cells@[k]->0;
            assert(groups@.contains(groups@[g]));
            assert(all.contains(groups@[g]));
            let s = all.index_of(groups@[g]);
            if s < out@.len() {
                assert(out@[s].cell == cells@[k]->0);
            } else {
                assert(places_of(groups@[g]).len() == groups@[g].members@.len());
                assert forall|c: int| 0 <= c < out@.len() implies places_in(
                    cells@,
                    cells@[k]->0,
                    n,
                ).len() <= (#[trigger] out@[c]).members@.len() by {
                    assert(le(all[c], all[s]));
                }
            }
        }
    }
    out
}

/// What a pin stands for.
#[derive(Clone, Copy, Debug, PartialEq, Eq, Structural)]
pub enum Pin {
    /// One photo, by its place in the list: it opens.
    Photo { place: usize },
    /// Several photos: the map zooms in on them.
    Group { count: usize },
}

/// What the pin of a cluster stands for.
pub fn pin_for(cluster: &Cluster) -> (r: Pin)
    requires
        cluster.members@.len() > 0,
    ensures
        r == if cluster.members@.len() == 1 {
            Pin::Photo { place: cluster.members@[0] }
        } else {
            Pin::Group { count: cluster.members@.len() as usize }
        },
{
    if cluster.members.len() == 1 {
        Pin::Photo { place: cluster.members[0] }
    } else {
        Pin::Group { count: cluster.members.len() }
    }
}

/// The text of a pin for several photos: the number up to 99.
pub fn format_count(count: usize) -> (r: String)
    ensures
        r@ == if count > 99 {
            "99+"@
        } else {
            text::decimal(count as nat)
        },
{
    if count > 99 {
        owned("99+")
    } else {
        number(count as u64)
    }
}

/// The whole zoom level for which the pins were last grouped.
#[derive(Clone, Copy, Debug, PartialEq, Eq, Structural)]
pub struct ZoomBucket {
    pub last: i32,
}

impl ZoomBucket {
    /// The map was zoomed to a level, rounded: says whether the pins have to be grouped anew.
    pub fn zoomed_to(&mut self, level: i32) -> (r: bool)
        ensures
            r == (old(self).last != level),
            final(self).last == level,
    {
        let changed: bool = self.last != level;
        self.last = level;
        changed
    }
}

/// What the map page shows.
#[derive(Clone, Copy, Debug, PartialEq, Eq, Structural)]
pub enum MapPage {
    Empty,
    Places,
}

/// What the map page shows once the places are there.
pub fn map_page(markers: usize) -> (r: MapPage)
    ensures
        r == if markers == 0 {
            MapPage::Empty
        } else {
            MapPage::Places
        },
{
    if markers == 0 {
        MapPage::Empty
    } else {
        MapPage::Places
    }
}

/// A pin stands for the photos of one cell and for no others: a photo is in a cluster exactly where
/// its cell is that of the cluster. No cell has two pins, larger clusters come first, and there are
/// at most 2000; a cell is without a pin only where there are as many, none of them smaller.
pub proof fn pins_stand_for_their_cells(
    cells: &Vec<Option<GridCell>>,
    pins: Vec<Cluster>,
    i: int,
    k: usize,
)
    requires
        call_ensures(rebuild_clusters, (cells,), pins),
        0 <= i < pins@.len(),
        k < cells@.len(),
    ensures
        pins@.len() <= 2000,
        pins@[i].members@.contains(k) <==> cells@[k as int] == Some(pins@[i].cell),
        pins@[i].members@.len() > 0,
        forall|j: int|
            i < j < pins@.len() ==> (#[trigger] pins@[j]).cell != pins@[i].cell
                && pins@[j].members@.len() <= pins@[i].members@.len(),
        cells@[k as int] is Some && pins@.len() < 2000 ==> exists|j: int|
            0 <= j < pins@.len() && (#[trigger] pins@[j]).cell == cells@[k as int]->0,
{
    let n = cells@.len() as int;
    let cluster = pins@[i];
    places_are_of_the_cell(cells@, cluster.cell, n);
    let places = places_of(cluster);
    assert(places == places_in(cells@, cluster.cell, n));
    if cluster.members@.contains(k) {
        let a = cluster.members@.index_of(k);
        assert(places[a] == k as int);
        assert(places.contains(k as int));
    }
    if cells@[k as int] == Some(cluster.cell) {
        assert(places.contains(k as int));
        let a = places.index_of(k as int);
        assert(cluster.members@[a] == k);
    }
}

proof fn places_are_of_the_cell(cells: Seq<Option<GridCell>>, cell: GridCell, n: int)
    requires
        0 <= n <= cells.len(),
    ensures
        forall|p: int| #[trigger]
            places_in(cells, cell, n).contains(p) <==> 0 <= p < n && cells[p] == Some(cell),
    decreases n,
{
    if n > 0 {
        let before = places_in(cells, cell, n - 1);
        let here = places_in(cells, cell, n);
        places_are_of_the_cell(cells, cell, n - 1);
        assert forall|p: int| #[trigger]
            here.contains(p) <==> 0 <= p < n && cells[p] == Some(cell) by {
            if here.contains(p) {
                let a = here.index_of(p);
                if a < before.len() {
                    assert(before[a] == p);
                    assert(before.contains(p));
                }
            }
            if 0 <= p < n && cells[p] == Some(cell) {
                if p < n - 1 {
                    assert(before.contains(p));
                    let a = before.index_of(p);
                    assert(here[a] == p);
                } else {
                    assert(here[before.len() as int] == p);
                }
            }
        }
    }
}

/// A pin with one photo opens it, one with more zooms in on them and tells how many they are.
pub proof fn pin_opens_or_zooms(cluster: &Cluster, pin: Pin, label: String)
    requires
        cluster.members@.len() > 0,
        call_ensures(pin_for, (cluster,), pin),
        pin matches Pin::Group { count } ==> call_ensures(format_count, (count,), label),
    ensures
        pin matches Pin::Photo { place } ==> cluster.members@.len() == 1 && cluster.members@[0]
            == place,
        pin matches Pin::Group { count } ==> count >= 2 && count == cluster.members@.len() && (
        count <= 99 ==> label@ == text::decimal(cluster.members@.len())) && (count >= 100
            ==> label@ == "99+"@),
{
    let n: usize = cluster.members.len();
    assert(n == cluster.members@.len());
}

} // verus!
