//! Layout of the photo grid: day groups, rows of tiles, and finding what lies at a point.
use vstd::prelude::*;
use crate::clock;
use crate::clock::format_day_header;
use crate::text;
use crate::text::front_bytes;

verus! {

/// What a row of the grid holds.
#[derive(Debug, PartialEq, Eq)]
pub enum RowKind {
    Tiles,
    DateHeader { label: String },
}

impl Default for RowKind {
    fn default() -> (r: Self)
        ensures
            r == RowKind::Tiles,
    {
        RowKind::Tiles
    }
}

/// One asset of the grid: its place in the list and its creation time.
#[derive(Debug, PartialEq, Eq)]
pub struct DatedAsset {
    pub index: u32,
    pub created_at: String,
}

/// The day of a time: its first ten bytes, nothing where they are no whole characters.
pub open spec fn day_of(created_at: Seq<char>) -> Seq<char> {
    match text::byte_front(created_at, 10) {
        Some(front) => front,
        None => Seq::empty(),
    }
}

/// The header of the day of a time.
pub open spec fn header_of(created_at: Seq<char>) -> Seq<char> {
    clock::day_header(created_at, clock::iso_date(clock::date_part(created_at)))
}

/// Neighbouring assets of one day: the day, its header, and the assets' places in the list.
pub struct DaySpan {
    pub day: Seq<char>,
    pub header: Seq<char>,
    pub indices: Seq<u32>,
}

/// The runs of neighbouring assets of the same day.
pub open spec fn day_spans(assets: Seq<DatedAsset>) -> Seq<DaySpan>
    decreases assets.len(),
{
    if assets.len() == 0 {
        Seq::empty()
    } else {
        let front = day_spans(assets.drop_last());
        let asset = assets.last();
        let day = day_of(asset.created_at@);
        if front.len() > 0 && front.last().day == day {
            front.update(
                front.len() - 1,
                DaySpan { indices: front.last().indices.push(asset.index), ..front.last() },
            )
        } else {
            front.push(
                DaySpan { day, header: header_of(asset.created_at@), indices: seq![asset.index] },
            )
        }
    }
}

/// Neighbouring assets of one day.
#[derive(Debug, PartialEq, Eq)]
pub struct DayGroup {
    pub day: String,
    pub label: String,
    pub indices: Vec<u32>,
}

/// The groups are the spans.
pub open spec fn groups_are(groups: Seq<DayGroup>, spans: Seq<DaySpan>) -> bool {
    &&& groups.len() == spans.len()
    &&& forall|i: int|
        0 <= i < groups.len() ==> (#[trigger] groups[i]).day@ == spans[i].day && groups[i].label@
            == spans[i].header && groups[i].indices@ == spans[i].indices
}

/// The runs of neighbouring assets of the same day, each with its header.
pub fn group_by_day(assets: &Vec<DatedAsset>) -> (r: Vec<DayGroup>)
    ensures
        groups_are(r@, day_spans(assets@)),
{
    let mut groups: Vec<DayGroup> = Vec::new();
    let mut i: usize = 0;
    assert(assets@.take(0) =~= Seq::<DatedAsset>::empty());
    while i < assets.len()
        invariant
            i <= assets.len(),
            groups_are(groups@, day_spans(assets@.take(i as int))),
        decreases assets.len() - i,
    {
        let asset: &DatedAsset = &assets[i];
        assert(assets@.take(i + 1).drop_last() =~= assets@.take(i as int));
        let day: String = match front_bytes(asset.created_at.as_str(), 10) {
            Some(front) => front,
            None => String::new(),
        };
        assert(day@ =~= day_of(asset.created_at@));
        let ghost before = groups@;
        let ghost spans = day_spans(assets@.take(i as int));
        let n: usize = groups.len();
        if n > 0 && groups[n - 1].day == day {
            let last: Option<DayGroup> = groups.pop();
            if let Some(mut group) = last {
                group.indices.push(asset.index);
                groups.push(group);
            }
            assert(groups_are(groups@, day_spans(assets@.take(i + 1))));
        } else {
            let label: String = format_day_header(asset.created_at.as_str());
            let mut indices: Vec<u32> = Vec::new();
            indices.push(asset.index);
            assert(indices@ =~= seq![asset.index]);
            groups.push(DayGroup { day, label, indices });
        }
        i = i + 1;
    }
    assert(assets@.take(i as int) =~= assets@);
    groups
}

/// A row of the square grid: a day header, or tiles.
#[derive(Debug, PartialEq, Eq)]
pub struct PlannedRow {
    pub kind: RowKind,
    /// The places in the list of the tiles, from left to right; none in a header.
    pub indices: Vec<u32>,
}

/// What a planned row holds: the header of a row without tiles, the tiles of one without header.
pub enum RowPlan {
    Header { label: Seq<char> },
    Tiles { indices: Seq<u32> },
}

/// The planned row is the given plan.
pub open spec fn row_is(row: PlannedRow, plan: RowPlan) -> bool {
    match plan {
        RowPlan::Header { label } => (row.kind matches RowKind::DateHeader { label: l } && l@
            == label) && row.indices@.len() == 0,
        RowPlan::Tiles { indices } => row.kind == RowKind::Tiles && row.indices@ == indices,
    }
}

/// The tiles of a group in rows of `columns`, the last one as long as it comes.
pub open spec fn tile_rows(indices: Seq<u32>, columns: nat) -> Seq<RowPlan>
    decreases indices.len(),
{
    if columns == 0 || indices.len() == 0 {
        Seq::empty()
    } else if indices.len() <= columns {
        seq![RowPlan::Tiles { indices }]
    } else {
        seq![RowPlan::Tiles { indices: indices.take(columns as int) }] + tile_rows(
            indices.skip(columns as int),
            columns,
        )
    }
}

/// The rows of a list of day groups: for each its header, then its tiles.
pub open spec fn planned_rows(spans: Seq<DaySpan>, columns: nat) -> Seq<RowPlan>
    decreases spans.len(),
{
    if spans.len() == 0 {
        Seq::empty()
    } else {
        planned_rows(spans.drop_last(), columns) + seq![
            RowPlan::Header { label: spans.last().header },
        ] + tile_rows(spans.last().indices, columns)
    }
}

/// The rows are the plans, one by one.
pub open spec fn rows_are(rows: Seq<PlannedRow>, plans: Seq<RowPlan>) -> bool {
    &&& rows.len() == plans.len()
    &&& forall|i: int| 0 <= i < rows.len() ==> row_is(#[trigger] rows[i], plans[i])
}

proof fn rows_grow(rows: Seq<PlannedRow>, plans: Seq<RowPlan>, row: PlannedRow, plan: RowPlan)
    requires
        rows_are(rows, plans),
        row_is(row, plan),
    ensures
        rows_are(rows.push(row), plans.push(plan)),
{
    assert forall|i: int| 0 <= i < rows.push(row).len() implies row_is(
        #[trigger] rows.push(row)[i],
        plans.push(plan)[i],
    ) by {
        if i < rows.len() {
            assert(row_is(rows[i], plans[i]));
        }
    }
}

/// Adds the rows of one group's tiles.
fn push_tile_rows(
    rows: &mut Vec<PlannedRow>,
    indices: &Vec<u32>,
    columns: usize,
    Ghost(plans): Ghost<Seq<RowPlan>>,
)
    requires
        columns > 0,
        rows_are(old(rows)@, plans),
    ensures
        rows_are(final(rows)@, plans + tile_rows(indices@, columns as nat)),
{
    let n: usize = indices.len();
    let mut start: usize = 0;
    let ghost mut done = Seq::<RowPlan>::empty();
    proof {
        assert(indices@.skip(0) =~= indices@);
        assert(plans + done =~= plans);
        assert(done + tile_rows(indices@, columns as nat) =~= tile_rows(indices@, columns as nat));
    }
    while start < n
        invariant
            columns > 0,
            n == indices.len(),
            start <= n,
            done + tile_rows(indices@.skip(start as int), columns as nat) == tile_rows(
                indices@,
                columns as nat,
            ),
            rows_are(rows@, plans + done),
        decreases n - start,
    {
        let end: usize = if n - start <= columns {
            n
        } else {
            start + columns
        };
        let mut tiles: Vec<u32> = Vec::new();
        let mut k: usize = start;
        while k < end
            invariant
                start <= k <= end <= n,
                n == indices.len(),
                tiles@ == indices@.subrange(start as int, k as int),
            decreases end - k,
        {
            assert(indices@.subrange(start as int, k + 1) =~= indices@.subrange(
                start as int,
                k as int,
            ).push(indices@[k as int]));
            tiles.push(indices[k]);
            k = k + 1;
        }
        let ghost rest = indices@.skip(start as int);
        let ghost plan = RowPlan::Tiles { indices: tiles@ };
        let row = PlannedRow { kind: RowKind::Tiles, indices: tiles };
        proof {
            if rest.len() <= columns {
                assert(tiles@ =~= rest);
                assert(indices@.skip(end as int) =~= Seq::<u32>::empty());
                assert(done.push(plan) + tile_rows(indices@.skip(end as int), columns as nat)
                    =~= done + tile_rows(rest, columns as nat));
            } else {
                assert(tiles@ =~= rest.take(columns as int));
                assert(rest.skip(columns as int) =~= indices@.skip(end as int));
                assert(done.push(plan) + tile_rows(indices@.skip(end as int), columns as nat)
                    =~= done + tile_rows(rest, columns as nat));
            }
            rows_grow(rows@, plans + done, row, plan);
            assert((plans + done).push(plan) =~= plans + done.push(plan));
            done = done.push(plan);
        }
        rows.push(row);
        start = end;
    }
    proof {
        assert(indices@.skip(start as int) =~= Seq::<u32>::empty());
        assert(done + tile_rows(Seq::<u32>::empty(), columns as nat) =~= done);
    }
}

/// The rows of the square grid: for each day its header, then its tiles in rows of `columns`.
/// There are none without columns.
pub fn plan_grid(assets: &Vec<DatedAsset>, columns: usize) -> (r: Vec<PlannedRow>)
    ensures
        columns == 0 ==> r@.len() == 0,
        columns > 0 ==> rows_are(r@, planned_rows(day_spans(assets@), columns as nat)),
{
    let mut rows: Vec<PlannedRow> = Vec::new();
    if columns == 0 {
        return rows;
    }
    let groups: Vec<DayGroup> = group_by_day(assets);
    let ghost spans = day_spans(assets@);
    let mut i: usize = 0;
    assert(spans.take(0) =~= Seq::<DaySpan>::empty());
    while i < groups.len()
        invariant
            columns > 0,
            i <= groups.len(),
            groups_are(groups@, spans),
            rows_are(rows@, planned_rows(spans.take(i as int), columns as nat)),
        decreases groups.len() - i,
    {
        let group: &DayGroup = &groups[i];
        let ghost plans = planned_rows(spans.take(i as int), columns as nat);
        let ghost plan = RowPlan::Header { label: group.label@ };
        let header = PlannedRow {
            kind: RowKind::DateHeader { label: group.label.clone() },
            indices: Vec::new(),
        };
        proof {
            assert(spans.take(i + 1).drop_last() =~= spans.take(i as int));
            rows_grow(rows@, plans, header, plan);
        }
        rows.push(header);
        push_tile_rows(&mut rows, &group.indices, columns, Ghost(plans.push(plan)));
        proof {
            assert(plans.push(plan) =~= plans + seq![plan]);
        }
        i = i + 1;
    }
    assert(spans.take(i as int) =~= spans);
    rows
}

/// The tiles of a list of rows, from the first to the last.
pub open spec fn all_tiles(plans: Seq<RowPlan>) -> Seq<u32>
    decreases plans.len(),
{
    if plans.len() == 0 {
        Seq::empty()
    } else {
        all_tiles(plans.drop_last()) + match plans.last() {
            RowPlan::Header { label } => Seq::<u32>::empty(),
            RowPlan::Tiles { indices } => indices,
        }
    }
}

/// The places in the list of the assets of a list of day groups.
pub open spec fn all_indices(spans: Seq<DaySpan>) -> Seq<u32>
    decreases spans.len(),
{
    if spans.len() == 0 {
        Seq::empty()
    } else {
        all_indices(spans.drop_last()) + spans.last().indices
    }
}

proof fn tiles_of_both(a: Seq<RowPlan>, b: Seq<RowPlan>)
    ensures
        all_tiles(a + b) == all_tiles(a) + all_tiles(b),
    decreases b.len(),
{
    if b.len() == 0 {
        assert(a + b =~= a);
        assert(all_tiles(a) + all_tiles(b) =~= all_tiles(a));
    } else {
        assert((a + b).drop_last() =~= a + b.drop_last());
        assert((a + b).last() == b.last());
        tiles_of_both(a, b.drop_last());
        assert(all_tiles(a + b) =~= all_tiles(a) + all_tiles(b));
    }
}

proof fn tile_rows_hold_group(indices: Seq<u32>, columns: nat)
    requires
        columns > 0,
    ensures
        all_tiles(tile_rows(indices, columns)) == indices,
        forall|i: int|
            0 <= i < tile_rows(indices, columns).len() ==> (#[trigger] tile_rows(
                indices,
                columns,
            )[i] matches RowPlan::Tiles { indices: t } && 0 < t.len() <= columns),
    decreases indices.len(),
{
    reveal_with_fuel(all_tiles, 2);
    if indices.len() == 0 {
        assert(all_tiles(tile_rows(indices, columns)) =~= indices);
    } else if indices.len() <= columns {
        let rows = tile_rows(indices, columns);
        assert(rows.drop_last() =~= Seq::<RowPlan>::empty());
        assert(all_tiles(rows) =~= indices);
    } else {
        let head = seq![RowPlan::Tiles { indices: indices.take(columns as int) }];
        let tail = tile_rows(indices.skip(columns as int), columns);
        tile_rows_hold_group(indices.skip(columns as int), columns);
        assert(head.drop_last() =~= Seq::<RowPlan>::empty());
        assert(all_tiles(head) =~= indices.take(columns as int));
        tiles_of_both(head, tail);
        assert(indices.take(columns as int) + indices.skip(columns as int) =~= indices);
    }
}

proof fn rows_hold_groups(spans: Seq<DaySpan>, columns: nat)
    requires
        columns > 0,
    ensures
        all_tiles(planned_rows(spans, columns)) == all_indices(spans),
    decreases spans.len(),
{
    if spans.len() > 0 {
        let front = planned_rows(spans.drop_last(), columns);
        let header = seq![RowPlan::Header { label: spans.last().header }];
        let tiles = tile_rows(spans.last().indices, columns);
        rows_hold_groups(spans.drop_last(), columns);
        tile_rows_hold_group(spans.last().indices, columns);
        tiles_of_both(front, header);
        tiles_of_both(front + header, tiles);
        reveal_with_fuel(all_tiles, 2);
        assert(header.drop_last() =~= Seq::<RowPlan>::empty());
        assert(all_tiles(header) =~= Seq::<u32>::empty());
        assert(all_tiles(planned_rows(spans, columns)) =~= all_indices(spans));
    }
}

proof fn spans_hold_assets(assets: Seq<DatedAsset>)
    ensures
        all_indices(day_spans(assets)) == assets.map_values(|a: DatedAsset| a.index),
    decreases assets.len(),
{
    if assets.len() == 0 {
        assert(all_indices(day_spans(assets)) =~= assets.map_values(|a: DatedAsset| a.index));
    } else {
        let front = assets.drop_last();
        spans_hold_assets(front);
        let before = day_spans(front);
        let now = day_spans(assets);
        let all = assets.map_values(|a: DatedAsset| a.index);
        let some = front.map_values(|a: DatedAsset| a.index);
        assert(all =~= some.push(assets.last().index));
        if before.len() > 0 && before.last().day == day_of(assets.last().created_at@) {
            assert(now.drop_last() =~= before.drop_last());
            assert(all_indices(now) =~= all_indices(before).push(assets.last().index));
        } else {
            assert(now.drop_last() =~= before);
            assert(all_indices(now) =~= all_indices(before).push(assets.last().index));
        }
    }
}

/// The rows of the grid hold every asset once, in the order of the list.
pub proof fn grid_holds_every_asset_once(assets: Seq<DatedAsset>, columns: nat)
    requires
        columns > 0,
    ensures
        all_tiles(planned_rows(day_spans(assets), columns)) == assets.map_values(
            |a: DatedAsset| a.index,
        ),
{
    rows_hold_groups(day_spans(assets), columns);
    spans_hold_assets(assets);
}

/// Every row of tiles holds at least one tile and no more than there are columns.
pub proof fn grid_rows_fit_columns(indices: Seq<u32>, columns: nat)
    requires
        columns > 0,
    ensures
        forall|i: int|
            0 <= i < tile_rows(indices, columns).len() ==> (#[trigger] tile_rows(
                indices,
                columns,
            )[i] matches RowPlan::Tiles { indices: t } && 0 < t.len() <= columns),
{
    tile_rows_hold_group(indices, columns);
}

/// Two neighbouring day groups are of different days.
pub proof fn neighbouring_groups_differ(assets: Seq<DatedAsset>)
    ensures
        forall|i: int|
            0 < i < day_spans(assets).len() ==> day_spans(assets)[i - 1].day != (
            #[trigger] day_spans(assets)[i]).day,
    decreases assets.len(),
{
    if assets.len() > 0 {
        neighbouring_groups_differ(assets.drop_last());
        let before = day_spans(assets.drop_last());
        let now = day_spans(assets);
        assert forall|i: int| 0 < i < now.len() implies now[i - 1].day != (
        #[trigger] now[i]).day by {
            if i < before.len() {
                assert(before[i - 1].day != before[i].day);
            }
        }
    }
}

/// The tiles in the first `n` rows.
pub open spec fn tiles_before(rows: Seq<PlannedRow>, n: int) -> int
    decreases n,
{
    if n <= 0 {
        0
    } else {
        tiles_before(rows, n - 1) + rows[n - 1].indices@.len()
    }
}

spec fn planned_before(plans: Seq<RowPlan>, n: int) -> int
    decreases n,
{
    if n <= 0 {
        0
    } else {
        planned_before(plans, n - 1) + (match plans[n - 1] {
            RowPlan::Header { label } => 0int,
            RowPlan::Tiles { indices } => indices.len() as int,
        })
    }
}

spec fn same_day(a: DatedAsset, b: DatedAsset) -> bool {
    day_of(a.created_at@) == day_of(b.created_at@)
}

/// The indices are those of the assets from a place on, and these are of one day.
spec fn is_run(indices: Seq<u32>, assets: Seq<DatedAsset>, from: int) -> bool {
    forall|c: int|
        0 <= c < indices.len() ==> indices[c] == (#[trigger] assets[from + c]).index && same_day(
            assets[from + c],
            assets[from],
        )
}

proof fn part_of_run(
    indices: Seq<u32>,
    assets: Seq<DatedAsset>,
    from: int,
    other: Seq<DatedAsset>,
    a: int,
    b: int,
)
    requires
        is_run(indices, assets, from),
        0 <= a < b <= indices.len(),
        0 <= from,
        from + b <= assets.len(),
        from + b <= other.len(),
        forall|x: int| 0 <= x < from + b ==> #[trigger] other[x] == assets[x],
    ensures
        is_run(indices.subrange(a, b), other, from + a),
        a > 0 ==> same_day(other[from + a - 1], other[from + a]),
{
    let part = indices.subrange(a, b);
    assert(assets[from + a] == other[from + a]);
    assert forall|c: int| 0 <= c < part.len() implies part[c] == (#[trigger] other[from + a
        + c]).index && same_day(other[from + a + c], other[from + a]) by {
        let y = a + c;
        assert(assets[from + y] == other[from + a + c]);
        assert(part[c] == indices[y]);
    }
    if a > 0 {
        let y = a - 1;
        assert(assets[from + y] == other[from + a - 1]);
    }
}

/// Row `i` holds what it has to, given that `assets` are laid out up to the end of the plans.
spec fn row_fits(plans: Seq<RowPlan>, assets: Seq<DatedAsset>, columns: nat, i: int) -> bool {
    let k = planned_before(plans, i);
    match plans[i] {
        RowPlan::Header { label } => {
            &&& 0 <= k < assets.len()
            &&& label == header_of(assets[k].created_at@)
            &&& k > 0 ==> !same_day(assets[k - 1], assets[k])
            &&& i + 1 < plans.len()
            &&& plans[i + 1] is Tiles
        },
        RowPlan::Tiles { indices } => {
            &&& 0 < indices.len() <= columns
            &&& 0 <= k
            &&& k + indices.len() <= assets.len()
            &&& is_run(indices, assets, k)
            &&& i > 0
            &&& plans[i - 1] matches RowPlan::Tiles { indices: above } ==> above.len() == columns
                && k > 0 && same_day(assets[k - 1], assets[k])
        },
    }
}

spec fn lays_out(plans: Seq<RowPlan>, assets: Seq<DatedAsset>, columns: nat) -> bool {
    &&& planned_before(plans, plans.len() as int) == assets.len()
    &&& forall|i: int| 0 <= i < plans.len() ==> #[trigger] row_fits(plans, assets, columns, i)
}

proof fn before_of_front(plans: Seq<RowPlan>, more: Seq<RowPlan>, n: int)
    requires
        0 <= n <= plans.len(),
    ensures
        planned_before(plans + more, n) == planned_before(plans, n),
    decreases n,
{
    if n > 0 {
        before_of_front(plans, more, n - 1);
        assert((plans + more)[n - 1] == plans[n - 1]);
    }
}

/// One row of tiles more, of the day of the row above it. The row above holds `columns` tiles, or is
/// the header of the day.
proof fn lay_out_row(
    plans: Seq<RowPlan>,
    assets: Seq<DatedAsset>,
    columns: nat,
    from: int,
    to: int,
    indices: Seq<u32>,
)
    requires
        0 <= from < to <= assets.len(),
        to - from <= columns,
        plans.len() > 0,
        planned_before(plans, plans.len() as int) == from,
        forall|i: int|
            0 <= i < plans.len() - 1 ==> #[trigger] row_fits(plans, assets.take(from), columns, i),
        plans.last() is Tiles ==> row_fits(
            plans,
            assets.take(from),
            columns,
            plans.len() - 1,
        ),
        match plans.last() {
            RowPlan::Header { label } => label == header_of(assets[from].created_at@) && (from > 0
                ==> !same_day(assets[from - 1], assets[from])),
            RowPlan::Tiles { indices: above } => above.len() == columns && same_day(
                assets[from - 1],
                assets[from],
            ),
        },
        indices.len() == to - from,
        is_run(indices, assets, from),
    ensures
        lays_out(plans.push(RowPlan::Tiles { indices }), assets.take(to), columns),
{
    let row = RowPlan::Tiles { indices };
    let now = plans.push(row);
    let before = assets.take(from);
    let after = assets.take(to);
    let n = plans.len() as int;
    assert(now =~= plans + seq![row]);
    assert(after.take(from) =~= before);
    before_of_front(plans, seq![row], n);
    assert forall|i: int| 0 <= i < now.len() implies #[trigger] row_fits(
        now,
        after,
        columns,
        i,
    ) by {
        before_of_front(plans, seq![row], if i <= n {
            i
        } else {
            n
        });
        if i < n - 1 {
            assert(row_fits(plans, before, columns, i));
            assert(now[i] == plans[i] && now[i + 1] == plans[i + 1]);
            if i > 0 {
                assert(now[i - 1] == plans[i - 1]);
            }
            row_fits_longer(plans, now, before, after, columns, i);
        } else if i == n - 1 {
            assert(now[i] == plans.last());
            assert(now[i + 1] == row);
            if plans.last() is Tiles {
                assert(row_fits(plans, before, columns, i));
                if i > 0 {
                    assert(now[i - 1] == plans[i - 1]);
                }
                row_fits_longer(plans, now, before, after, columns, i);
            } else {
                assert(planned_before(plans, n) == planned_before(plans, n - 1));
                assert(after[from] == assets[from]);
                if from > 0 {
                    assert(after[from - 1] == assets[from - 1]);
                }
            }
        } else {
            assert(now[i - 1] == plans.last());
            assert(planned_before(now, n) == from);
            assert(after[from] == assets[from]);
            if plans.last() is Tiles {
                assert(row_fits(plans, before, columns, n - 1));
                assert(planned_before(plans, n - 1) >= 0);
                assert(after[from - 1] == assets[from - 1]);
            }
            part_of_run(indices, assets, from, after, 0, indices.len() as int);
            assert(indices.subrange(0, indices.len() as int) =~= indices);
        }
    }
    assert(planned_before(now, now.len() as int) == planned_before(now, n) + indices.len());
}

proof fn row_fits_longer(
    plans: Seq<RowPlan>,
    now: Seq<RowPlan>,
    before: Seq<DatedAsset>,
    after: Seq<DatedAsset>,
    columns: nat,
    i: int,
)
    requires
        0 <= i < plans.len(),
        plans.len() <= now.len(),
        row_fits(plans, before, columns, i),
        planned_before(now, i) == planned_before(plans, i),
        now[i] == plans[i],
        i > 0 ==> now[i - 1] == plans[i - 1],
        i + 1 < plans.len() ==> now[i + 1] == plans[i + 1],
        before.len() <= after.len(),
        after.take(before.len() as int) == before,
    ensures
        row_fits(now, after, columns, i),
{
    let k = planned_before(plans, i);
    assert forall|x: int| 0 <= x < before.len() implies after[x] == before[x] by {
        assert(after.take(before.len() as int)[x] == after[x]);
    }
    match plans[i] {
        RowPlan::Header { label } => {},
        RowPlan::Tiles { indices } => {
            part_of_run(indices, before, k, after, 0, indices.len() as int);
            assert(indices.subrange(0, indices.len() as int) =~= indices);
        },
    }
}

/// The rows of tiles of a day, below its header or below a full row of it.
proof fn lay_out_group(
    plans: Seq<RowPlan>,
    assets: Seq<DatedAsset>,
    columns: nat,
    from: int,
    to: int,
    indices: Seq<u32>,
)
    requires
        columns > 0,
        0 <= from < to <= assets.len(),
        plans.len() > 0,
        planned_before(plans, plans.len() as int) == from,
        forall|i: int|
            0 <= i < plans.len() - 1 ==> #[trigger] row_fits(plans, assets.take(from), columns, i),
        plans.last() is Tiles ==> row_fits(
            plans,
            assets.take(from),
            columns,
            plans.len() - 1,
        ),
        match plans.last() {
            RowPlan::Header { label } => label == header_of(assets[from].created_at@) && (from > 0
                ==> !same_day(assets[from - 1], assets[from])),
            RowPlan::Tiles { indices: above } => above.len() == columns && same_day(
                assets[from - 1],
                assets[from],
            ),
        },
        indices.len() == to - from,
        is_run(indices, assets, from),
    ensures
        lays_out(plans + tile_rows(indices, columns), assets.take(to), columns),
    decreases to - from,
{
    if indices.len() <= columns {
        lay_out_row(plans, assets, columns, from, to, indices);
        assert(plans + tile_rows(indices, columns) =~= plans.push(RowPlan::Tiles { indices }));
    } else {
        let head = indices.take(columns as int);
        let rest = indices.skip(columns as int);
        let row = RowPlan::Tiles { indices: head };
        let mid = from + columns;
        let n = indices.len() as int;
        part_of_run(indices, assets, from, assets, 0, columns as int);
        part_of_run(indices, assets, from, assets, columns as int, n);
        assert(indices.subrange(0, columns as int) =~= head);
        assert(indices.subrange(columns as int, n) =~= rest);
        lay_out_row(plans, assets, columns, from, mid, head);
        let now = plans.push(row);
        assert(assets.take(mid).len() == mid);
        assert(row_fits(now, assets.take(mid), columns, now.len() - 1));
        lay_out_group(now, assets, columns, mid, to, rest);
        assert(plans + tile_rows(indices, columns) =~= now + tile_rows(rest, columns));
    }
}

/// The spans are the runs of the assets, from the first to the last.
spec fn runs_over(spans: Seq<DaySpan>, assets: Seq<DatedAsset>) -> bool
    decreases spans.len(),
{
    if spans.len() == 0 {
        assets.len() == 0
    } else {
        let span = spans.last();
        let from = assets.len() - span.indices.len();
        &&& 0 < span.indices.len() <= assets.len()
        &&& runs_over(spans.drop_last(), assets.take(from))
        &&& is_run(span.indices, assets, from)
        &&& day_of(assets[from].created_at@) == span.day
        &&& span.header == header_of(assets[from].created_at@)
        &&& from > 0 ==> day_of(assets[from - 1].created_at@) != span.day
    }
}

proof fn spans_run_over(assets: Seq<DatedAsset>)
    ensures
        runs_over(day_spans(assets), assets),
    decreases assets.len(),
{
    if assets.len() > 0 {
        let front = assets.drop_last();
        let asset = assets.last();
        let before = day_spans(front);
        let now = day_spans(assets);
        let day = day_of(asset.created_at@);
        spans_run_over(front);
        if before.len() > 0 && before.last().day == day {
            let n = before.last().indices.len();
            let from = front.len() - n;
            let span = now.last();
            assert(now.drop_last() =~= before.drop_last());
            assert(assets.take(from) =~= front.take(from));
            assert(span.indices.len() == n + 1);
            assert(assets[from] == front[from]);
            assert forall|c: int| 0 <= c < span.indices.len() implies span.indices[c] == (
            #[trigger] assets[from + c]).index && same_day(assets[from + c], assets[from]) by {
                if c < n {
                    assert(span.indices[c] == before.last().indices[c]);
                    assert(assets[from + c] == front[from + c]);
                }
            }
            assert(is_run(span.indices, assets, from));
            assert(assets[from] == front[from]);
            if from > 0 {
                assert(assets[from - 1] == front[from - 1]);
            }
        } else {
            assert(now.drop_last() =~= before);
            assert(assets.take(assets.len() - 1) =~= front);
            assert(is_run(now.last().indices, assets, assets.len() - 1));
            if before.len() > 0 {
                let n = before.last().indices.len();
                let from = front.len() - n;
                let c = n - 1;
                assert(front[from + c] == assets[assets.len() - 2]);
            }
        }
    }
}

proof fn lay_out_spans(spans: Seq<DaySpan>, assets: Seq<DatedAsset>, columns: nat)
    requires
        columns > 0,
        runs_over(spans, assets),
    ensures
        lays_out(planned_rows(spans, columns), assets, columns),
    decreases spans.len(),
{
    if spans.len() > 0 {
        let span = spans.last();
        let from = assets.len() - span.indices.len();
        let front = planned_rows(spans.drop_last(), columns);
        let header = RowPlan::Header { label: span.header };
        let plans = front.push(header);
        lay_out_spans(spans.drop_last(), assets.take(from), columns);
        assert(plans =~= front + seq![header]);
        before_of_front(front, seq![header], front.len() as int);
        assert(planned_before(plans, plans.len() as int) == from);
        assert forall|i: int| 0 <= i < plans.len() - 1 implies #[trigger] row_fits(
            plans,
            assets.take(from),
            columns,
            i,
        ) by {
            assert(row_fits(front, assets.take(from), columns, i));
            before_of_front(front, seq![header], i);
            assert(assets.take(from).take(from) =~= assets.take(from));
            row_fits_longer(front, plans, assets.take(from), assets.take(from), columns, i);
        }
        lay_out_group(plans, assets, columns, from, assets.len() as int, span.indices);
        assert(assets.take(assets.len() as int) =~= assets);
        assert(planned_rows(spans, columns) =~= plans + tile_rows(span.indices, columns));
    }
}

proof fn same_tiles_before(rows: Seq<PlannedRow>, plans: Seq<RowPlan>, n: int)
    requires
        rows_are(rows, plans),
        0 <= n <= rows.len(),
    ensures
        tiles_before(rows, n) == planned_before(plans, n),
    decreases n,
{
    if n > 0 {
        same_tiles_before(rows, plans, n - 1);
        assert(row_is(rows[n - 1], plans[n - 1]));
    }
}

proof fn ten_bytes_are_something(s: Seq<char>)
    ensures
        text::byte_front(s, 10) matches Some(front) ==> front.len() > 0,
{
}

/// The rows of the grid show every asset once, in the order of the list. A header stands before an
/// asset exactly where its day, the first ten bytes of its time, is another than that of the asset
/// before it, and names that day. A row of tiles is never empty nor longer than there are columns,
/// holds assets of one day only, and is full where another row of the same day follows.
pub proof fn grid_shows_days_in_full_rows(
    assets: &Vec<DatedAsset>,
    columns: usize,
    rows: Vec<PlannedRow>,
    i: int,
)
    requires
        call_ensures(plan_grid, (assets, columns), rows),
        columns > 0,
        0 <= i < rows@.len(),
    ensures
        tiles_before(rows@, rows@.len() as int) == assets@.len(),
        ({
            let k = tiles_before(rows@, i);
            let day = |x: int| text::byte_front(assets@[x].created_at@, 10);
            match rows@[i].kind {
                RowKind::DateHeader { label } => {
                    &&& rows@[i].indices@.len() == 0
                    &&& 0 <= k < assets@.len()
                    &&& label@ == clock::day_header(
                        assets@[k].created_at@,
                        clock::iso_date(clock::date_part(assets@[k].created_at@)),
                    )
                    &&& k > 0 ==> day(k - 1) != day(k)
                    &&& i + 1 < rows@.len() && rows@[i + 1].kind == RowKind::Tiles
                },
                RowKind::Tiles => {
                    let n = rows@[i].indices@.len();
                    &&& 0 < n <= columns
                    &&& 0 <= k && k + n <= assets@.len()
                    &&& forall|c: int|
                        0 <= c < n ==> rows@[i].indices@[c] == (#[trigger] assets@[k + c]).index
                            && day(k + c) == day(k)
                    &&& i > 0
                    &&& rows@[i - 1].kind == RowKind::Tiles ==> rows@[i - 1].indices@.len()
                        == columns && k > 0 && day(k - 1) == day(k)
                },
            }
        }),
{
    let spans = day_spans(assets@);
    let plans = planned_rows(spans, columns as nat);
    spans_run_over(assets@);
    lay_out_spans(spans, assets@, columns as nat);
    same_tiles_before(rows@, plans, rows@.len() as int);
    same_tiles_before(rows@, plans, i);
    assert(row_fits(plans, assets@, columns as nat, i));
    assert(row_is(rows@[i], plans[i]));
    if i > 0 {
        assert(row_is(rows@[i - 1], plans[i - 1]));
    }
    if i + 1 < rows@.len() {
        assert(row_is(rows@[i + 1], plans[i + 1]));
    }
    let k = tiles_before(rows@, i);
    let day = |x: int| text::byte_front(assets@[x].created_at@, 10);
    assert forall|x: int, y: int| 0 <= x < assets@.len() && 0 <= y < assets@.len() implies (
    #[trigger] day(x) == #[trigger] day(y) <==> same_day(assets@[x], assets@[y])) by {
        ten_bytes_are_something(assets@[x].created_at@);
        ten_bytes_are_something(assets@[y].created_at@);
    }
    if rows@[i].kind == RowKind::Tiles {
        let n = rows@[i].indices@.len();
        assert forall|c: int| 0 <= c < n implies rows@[i].indices@[c] == (#[trigger] assets@[k
            + c]).index && day(k + c) == day(k) by {
            assert(same_day(assets@[k + c], assets@[k]));
        }
    }
}

/// The values never fall.
pub open spec fn is_ascending(keys: Seq<i64>) -> bool {
    forall|i: int, j: int| 0 <= i <= j < keys.len() ==> keys[i] <= keys[j]
}

/// The first row whose lower edge is at or below `y`. The edges are given by numbers of the same
/// order; the rows are stacked from top to bottom.
pub fn first_row_at_or_after(bottoms: &Vec<i64>, y: i64) -> (r: usize)
    ensures
        r <= bottoms@.len(),
        is_ascending(bottoms@) ==> (forall|i: int| 0 <= i < r ==> (#[trigger] bottoms@[i]) < y) && (
        forall|i: int| r <= i < bottoms@.len() ==> (#[trigger] bottoms@[i]) >= y),
{
    let mut lo: usize = 0;
    let mut hi: usize = bottoms.len();
    while lo < hi
        invariant
            lo <= hi <= bottoms.len(),
            is_ascending(bottoms@) ==> (forall|i: int|
                0 <= i < lo ==> (#[trigger] bottoms@[i]) < y) && (forall|i: int|
                hi <= i < bottoms@.len() ==> (#[trigger] bottoms@[i]) >= y),
        decreases hi - lo,
    {
        let mid: usize = lo + (hi - lo) / 2;
        if bottoms[mid] < y {
            lo = mid + 1;
        } else {
            hi = mid;
        }
    }
    lo
}

/// The upper and the lower edge of a row, or the left and the right edge of a tile, by numbers of
/// the same order.
#[derive(Clone, Copy, Debug, PartialEq, Eq, Structural)]
pub struct Span {
    pub from: i64,
    pub to: i64,
}

/// The point lies in the span; the far edge is outside.
pub open spec fn lies_in(p: i64, span: Span) -> bool {
    span.from <= p < span.to
}

/// The rows are stacked: each begins at or after the end of those before it.
pub open spec fn is_stacked(rows: Seq<Span>) -> bool {
    &&& forall|i: int| 0 <= i < rows.len() ==> (#[trigger] rows[i]).from <= rows[i].to
    &&& forall|i: int, j: int|
        0 <= i < j < rows.len() ==> (#[trigger] rows[i]).to <= (#[trigger] rows[j]).from
}

/// The row in which `y` lies, found by halving.
pub fn row_at_y(rows: &Vec<Span>, y: i64) -> (r: Option<usize>)
    ensures
        r matches Some(i) ==> i < rows@.len() && lies_in(y, rows@[i as int]),
        is_stacked(rows@) ==> (r is None <==> forall|i: int|
            0 <= i < rows@.len() ==> !lies_in(y, #[trigger] rows@[i])),
{
    let mut lo: usize = 0;
    let mut hi: usize = rows.len();
    while lo < hi
        invariant
            lo <= hi <= rows.len(),
            is_stacked(rows@) ==> forall|i: int|
                0 <= i < rows@.len() && !(lo <= i < hi) ==> !lies_in(y, #[trigger] rows@[i]),
        decreases hi - lo,
    {
        let mid: usize = lo + (hi - lo) / 2;
        let row: Span = rows[mid];
        if y < row.from {
            hi = mid;
        } else if y >= row.to {
            lo = mid + 1;
        } else {
            assert(lies_in(y, rows@[mid as int]));
            return Some(mid);
        }
    }
    None
}

/// The first tile of a row in which `x` lies.
pub fn item_at_x(tiles: &Vec<Span>, x: i64) -> (r: Option<usize>)
    ensures
        r matches Some(i) ==> i < tiles@.len() && lies_in(x, tiles@[i as int]) && forall|k: int|
            0 <= k < i ==> !lies_in(x, #[trigger] tiles@[k]),
        r is None <==> forall|k: int| 0 <= k < tiles@.len() ==> !lies_in(x, #[trigger] tiles@[k]),
{
    let mut i: usize = 0;
    while i < tiles.len()
        invariant
            i <= tiles.len(),
            forall|k: int| 0 <= k < i ==> !lies_in(x, #[trigger] tiles@[k]),
        decreases tiles.len() - i,
    {
        let tile: Span = tiles[i];
        if tile.from <= x && x < tile.to {
            assert(lies_in(x, tiles@[i as int]));
            return Some(i);
        }
        i = i + 1;
    }
    None
}

/// A point lies in at most one of a stack of rows.
pub proof fn stacked_rows_are_disjoint(rows: Seq<Span>, y: i64, i: int, j: int)
    requires
        is_stacked(rows),
        0 <= i < rows.len(),
        0 <= j < rows.len(),
        lies_in(y, rows[i]),
        lies_in(y, rows[j]),
    ensures
        i == j,
{
}

/// The items of a justified row, from `from` up to but without `to`.
#[derive(Clone, Copy, Debug, PartialEq, Eq, Structural)]
pub struct RowRange {
    pub from: u32,
    pub to: u32,
}

/// The ranges follow each other from zero to `end`, and none is empty.
pub open spec fn tile_up_to(rows: Seq<RowRange>, end: int) -> bool
    decreases rows.len(),
{
    if rows.len() == 0 {
        end == 0
    } else {
        rows.last().to == end && rows.last().from < rows.last().to && tile_up_to(
            rows.drop_last(),
            rows.last().from as int,
        )
    }
}

/// Fills justified rows with `n` items, in order: an item that would overflow a row begins the next
/// one.
#[derive(Debug, PartialEq, Eq)]
pub struct RowPacker {
    pub n: u32,
    pub rows: Vec<RowRange>,
    /// The row being filled.
    pub from: u32,
    pub to: u32,
}

impl RowPacker {
    /// The finished rows hold the items before the row being filled.
    pub open spec fn is_sound(self) -> bool {
        &&& self.from <= self.to <= self.n
        &&& tile_up_to(self.rows@, self.from as int)
    }

    /// Every item is in a finished row.
    pub open spec fn is_done(self) -> bool {
        self.from == self.n
    }

    /// No row yet.
    pub fn new(n: u32) -> (r: Self)
        ensures
            r.is_sound(),
            r.n == n,
            r.rows@.len() == 0,
            r.from == 0,
            r.to == 0,
    {
        RowPacker { n, rows: Vec::new(), from: 0, to: 0 }
    }

    /// The item to be measured next; none where the row being filled has all that is left.
    pub fn candidate(&self) -> (r: Option<u32>)
        ensures
            r == if self.to < self.n {
                Some(self.to)
            } else {
                None
            },
    {
        if self.to < self.n {
            Some(self.to)
        } else {
            None
        }
    }

    /// Offers the next item to the row being filled: the first item of a row is always taken, a
    /// further one unless it overflows. Says whether it was taken.
    pub fn offer(&mut self, overflows: bool) -> (r: bool)
        requires
            old(self).is_sound(),
            old(self).to < old(self).n,
        ensures
            final(self).is_sound(),
            r == (old(self).from == old(self).to || !overflows),
            *final(self) == (RowPacker {
                to: if r {
                    (old(self).to + 1) as u32
                } else {
                    old(self).to
                },
                ..*old(self)
            }),
    {
        if self.to > self.from && overflows {
            return false;
        }
        self.to = self.to + 1;
        true
    }

    /// Finishes the row being filled. A row of several items that would be too low gives its last
    /// item to the next row.
    pub fn close(&mut self, too_low: bool) -> (r: RowRange)
        requires
            old(self).is_sound(),
            old(self).from < old(self).to,
        ensures
            final(self).is_sound(),
            final(self).n == old(self).n,
            r.from == old(self).from,
            r.to == if too_low && old(self).to - old(self).from > 1 {
                old(self).to - 1
            } else {
                old(self).to as int
            },
            final(self).rows@ == old(self).rows@.push(r),
            final(self).from == r.to,
            final(self).to == r.to,
            r.from < r.to,
    {
        let end: u32 = if too_low && self.to - self.from > 1 {
            self.to - 1
        } else {
            self.to
        };
        let row: RowRange = RowRange { from: self.from, to: end };
        let ghost before = self.rows@;
        self.rows.push(row);
        assert(self.rows@.drop_last() =~= before);
        self.from = end;
        self.to = end;
        row
    }
}

/// The range of an item among ranges that follow each other.
proof fn range_of(rows: Seq<RowRange>, end: int, item: int) -> (k: int)
    requires
        tile_up_to(rows, end),
        0 <= item < end,
    ensures
        0 <= k < rows.len(),
        rows[k].from <= item < rows[k].to,
    decreases rows.len(),
{
    if rows.last().from <= item {
        rows.len() - 1
    } else {
        range_of(rows.drop_last(), rows.last().from as int, item)
    }
}

proof fn ranges_are_apart(rows: Seq<RowRange>, end: int, j: int, k: int)
    requires
        tile_up_to(rows, end),
        0 <= j < k < rows.len(),
    ensures
        rows[j].to <= rows[k].from,
        rows[k].to <= end,
    decreases rows.len(),
{
    let front = rows.drop_last();
    assert(tile_up_to(front, rows.last().from as int));
    assert(front.len() > 0 && front[j] == rows[j]);
    if k == rows.len() - 1 {
        assert(front.last().to == rows.last().from);
        assert(front.last().from < front.last().to);
        if j < k - 1 {
            ranges_are_apart(front, rows.last().from as int, j, k - 1);
        }
    } else {
        ranges_are_apart(front, rows.last().from as int, j, k);
    }
}

/// Once the packer is done, every item is in exactly one row.
pub proof fn every_item_is_in_one_row(packer: RowPacker, item: int)
    requires
        packer.is_sound(),
        packer.is_done(),
        0 <= item < packer.n,
    ensures
        exists|k: int|
            0 <= k < packer.rows@.len() && (#[trigger] packer.rows@[k]).from <= item
                < packer.rows@[k].to,
        forall|j: int, k: int|
            0 <= j < packer.rows@.len() && 0 <= k < packer.rows@.len() && (
            #[trigger] packer.rows@[j]).from <= item < packer.rows@[j].to && (
            #[trigger] packer.rows@[k]).from <= item < packer.rows@[k].to ==> j == k,
{
    let rows = packer.rows@;
    let end = packer.from as int;
    let k = range_of(rows, end, item);
    assert(rows[k].from <= item < rows[k].to);
    assert forall|j: int, k: int|
        0 <= j < rows.len() && 0 <= k < rows.len() && (#[trigger] rows[j]).from <= item
            < rows[j].to && (#[trigger] rows[k]).from <= item < rows[k].to implies j == k by {
        if j < k {
            ranges_are_apart(rows, end, j, k);
        } else if k < j {
            ranges_are_apart(rows, end, k, j);
        }
    }
}

} // verus!
