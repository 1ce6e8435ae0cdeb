//! Select mode, and what is done with all selected assets.
use vstd::prelude::*;
use vstd::string::*;
use crate::api::LibraryAlbum;
use crate::asset_model::{AssetObject, LibraryAssetModel};
use crate::grid;
use crate::grid::Selection;
use crate::local_source::{is_local_id, LOCAL_ID_PREFIX};
use crate::text;
use crate::text::{concat2, concat3, number};

verus! {

/// The keys that matter to select mode.
#[derive(Clone, Copy, Debug, PartialEq, Eq, Structural)]
pub enum SelectKey {
    Escape,
    Control,
    Other,
}

/// The state of select mode.
#[derive(Debug, PartialEq, Eq)]
pub struct SelectMode {
    pub active: bool,
    /// It was entered by holding Ctrl, and ends with it where nothing was selected.
    pub transient: bool,
    pub selection: Selection,
}

/// What the grid shows of select mode.
#[derive(Debug, PartialEq, Eq)]
pub struct SelectView {
    pub pill_visible: bool,
    pub drawer_visible: bool,
    pub count: String,
}

/// Nothing is selected outside of select mode.
pub open spec fn is_settled(mode: SelectMode) -> bool {
    !mode.active ==> mode.selection.marks@ == grid::cleared(mode.selection.marks@)
}

impl SelectMode {
    /// Not in select mode, with `n` rows.
    pub fn new(n: usize) -> (r: Self)
        ensures
            !r.active,
            !r.transient,
            r.selection.marks@ == Seq::new(n as nat, |i: int| false),
            is_settled(r),
    {
        let r: SelectMode = SelectMode {
            active: false,
            transient: false,
            selection: Selection::new(n),
        };
        assert(r.selection.marks@ =~= grid::cleared(r.selection.marks@));
        r
    }

    /// Enters or leaves select mode; leaving clears the selection.
    pub fn set_active(&mut self, on: bool)
        ensures
            final(self).active == on,
            final(self).transient == old(self).transient,
            final(self).selection.marks@ == if old(self).active && !on {
                grid::cleared(old(self).selection.marks@)
            } else {
                old(self).selection.marks@
            },
            is_settled(*old(self)) ==> is_settled(*final(self)),
    {
        let ghost before = self.selection.marks@;
        if self.active && !on {
            self.selection.unselect_all();
            assert(grid::cleared(before) =~= grid::cleared(grid::cleared(before)));
        }
        self.active = on;
    }

    /// Clears the selection and leaves select mode.
    pub fn clear(&mut self)
        ensures
            !final(self).active,
            final(self).transient == old(self).transient,
            final(self).selection.marks@ == grid::cleared(old(self).selection.marks@),
            is_settled(*final(self)),
    {
        let ghost before = self.selection.marks@;
        self.selection.unselect_all();
        self.active = false;
        assert(grid::cleared(before) =~= grid::cleared(grid::cleared(before)));
    }

    /// A key was pressed: Escape leaves select mode, Ctrl enters it for as long as it is held. Says
    /// whether the key goes no further.
    pub fn key_pressed(&mut self, key: SelectKey) -> (r: bool)
        ensures
            r == (key == SelectKey::Escape && old(self).active),
            r ==> !final(self).active && !final(self).transient && final(self).selection.marks@
                == grid::cleared(old(self).selection.marks@),
            key == SelectKey::Control && !old(self).active ==> final(self).active
                && final(self).transient && final(self).selection == old(self).selection,
            !r && !(key == SelectKey::Control && !old(self).active) ==> *final(self) == *old(self),
            is_settled(*old(self)) ==> is_settled(*final(self)),
    {
        match key {
            SelectKey::Escape => {
                if self.active {
                    self.set_active(false);
                    self.transient = false;
                    return true;
                }
            },
            SelectKey::Control => {
                if !self.active {
                    self.active = true;
                    self.transient = true;
                }
            },
            SelectKey::Other => {},
        }
        false
    }

    /// A key was released: letting go of Ctrl leaves a select mode that it had entered, where
    /// nothing was selected.
    pub fn key_released(&mut self, key: SelectKey)
        ensures
            !(key == SelectKey::Control && old(self).transient) ==> *final(self) == *old(self),
            key == SelectKey::Control && old(self).transient ==> {
                let empty = grid::mark_count(old(self).selection.marks@) == 0;
                &&& !final(self).transient
                &&& final(self).active == (old(self).active && !empty)
                &&& final(self).selection.marks@ == if empty && old(self).active {
                    grid::cleared(old(self).selection.marks@)
                } else {
                    old(self).selection.marks@
                }
            },
            is_settled(*old(self)) ==> is_settled(*final(self)),
    {
        if key != SelectKey::Control || !self.transient {
            return;
        }
        if self.selection.count() == 0 {
            self.set_active(false);
        }
        self.transient = false;
    }

    /// What the grid shows: the pill in select mode, the drawer once something is selected.
    pub fn view_state(&self) -> (r: SelectView)
        ensures
            ({
                let n = grid::mark_count(self.selection.marks@);
                &&& r.pill_visible == self.active
                &&& r.drawer_visible == (self.active && n > 0)
                &&& r.count@ == text::decimal(n)
            }),
    {
        let n: usize = self.selection.count();
        SelectView {
            pill_visible: self.active,
            drawer_visible: self.active && n > 0,
            count: number(n as u64),
        }
    }
}

/// A selected asset.
#[derive(Debug, PartialEq, Eq)]
pub struct SelectedAsset {
    pub id: String,
    pub filename: String,
}

/// The id and the file name of an asset.
pub struct AssetText {
    pub id: Seq<char>,
    pub filename: Seq<char>,
}

impl View for SelectedAsset {
    type V = AssetText;

    open spec fn view(&self) -> AssetText {
        AssetText { id: self.id@, filename: self.filename@ }
    }
}

/// The ids and file names of some assets.
pub open spec fn asset_texts(assets: Seq<SelectedAsset>) -> Seq<AssetText> {
    assets.map_values(|a: SelectedAsset| a@)
}

/// The selected rows among the first `n`.
pub open spec fn selected_rows(items: Seq<AssetObject>, marks: Seq<bool>, n: int) -> Seq<AssetText>
    decreases n,
{
    if n <= 0 {
        Seq::empty()
    } else if marks[n - 1] {
        selected_rows(items, marks, n - 1).push(
            AssetText { id: items[n - 1].id@, filename: items[n - 1].filename@ },
        )
    } else {
        selected_rows(items, marks, n - 1)
    }
}

/// The selected rows of a list; a mark beyond its end selects nothing.
pub open spec fn selected_in(items: Seq<AssetObject>, marks: Seq<bool>) -> Seq<AssetText> {
    selected_rows(
        items,
        marks,
        if items.len() <= marks.len() {
            items.len() as int
        } else {
            marks.len() as int
        },
    )
}

/// The selected assets, in the order of the list.
pub fn collect_selected_assets(model: &LibraryAssetModel, selection: &Selection) -> (r: Vec<
    SelectedAsset,
>)
    ensures
        asset_texts(r@) == selected_in(model.items@, selection.marks@),
{
    let mut out: Vec<SelectedAsset> = Vec::new();
    let mut i: usize = 0;
    assert(asset_texts(out@) =~= Seq::<AssetText>::empty());
    while i < model.items.len() && i < selection.marks.len()
        invariant
            i <= model.items.len(),
            i <= selection.marks.len(),
            asset_texts(out@) == selected_rows(model.items@, selection.marks@, i as int),
        decreases model.items.len() - i,
    {
        if selection.marks[i] {
            let ghost before = out@;
            out.push(
                SelectedAsset {
                    id: model.items[i].id.clone(),
                    filename: model.items[i].filename.clone(),
                },
            );
            assert(asset_texts(out@) =~= asset_texts(before).push(out@.last()@));
        }
        i = i + 1;
    }
    out
}

/// The asset is on the server.
pub open spec fn is_remote(asset: AssetText) -> bool {
    !LOCAL_ID_PREFIX@.is_prefix_of(asset.id)
}

/// The selected assets that are on the server: a file that is only on disk has no id there, and is
/// passed over by everything that is done with the selection.
pub fn selected_remote_assets(model: &LibraryAssetModel, selection: &Selection) -> (r: Vec<
    SelectedAsset,
>)
    ensures
        asset_texts(r@) == selected_in(model.items@, selection.marks@).filter(
            |a: AssetText| is_remote(a),
        ),
{
    let all: Vec<SelectedAsset> = collect_selected_assets(model, selection);
    let ghost texts = asset_texts(all@);
    let ghost keep = |a: AssetText| is_remote(a);
    let mut out: Vec<SelectedAsset> = Vec::new();
    let mut i: usize = 0;
    proof {
        crate::seqs::filter_ends(texts, keep);
        assert(asset_texts(out@) =~= texts.take(0).filter(keep));
    }
    while i < all.len()
        invariant
            i <= all.len(),
            texts == asset_texts(all@),
            keep == |a: AssetText| is_remote(a),
            asset_texts(out@) == texts.take(i as int).filter(keep),
        decreases all.len() - i,
    {
        proof {
            crate::seqs::filter_step(texts, keep, i as int);
            assert(texts[i as int] == all@[i as int]@);
        }
        if !is_local_id(all[i].id.as_str()) {
            let ghost before = out@;
            out.push(
                SelectedAsset { id: all[i].id.clone(), filename: all[i].filename.clone() },
            );
            assert(asset_texts(out@) =~= asset_texts(before).push(all@[i as int]@));
        }
        i = i + 1;
    }
    out
}

/// The question before the selected assets are deleted.
pub fn trash_question(count: usize) -> (r: String)
    ensures
        r@ == "Move "@ + text::decimal(count as nat) + " item(s) to trash?"@,
{
    concat3("Move ", number(count as u64).as_str(), " item(s) to trash?")
}

/// The question to which album the selected assets are to be added.
pub fn album_question(count: usize) -> (r: String)
    ensures
        r@ == "Add "@ + text::decimal(count as nat) + " item(s) to which album?"@,
{
    concat3("Add ", number(count as u64).as_str(), " item(s) to which album?")
}

/// The line on a new album for the selected assets.
pub fn create_album_line(count: usize) -> (r: String)
    ensures
        r@ == "Create an album with the "@ + text::decimal(count as nat) + " selected item(s)."@,
{
    concat3("Create an album with the ", number(count as u64).as_str(), " selected item(s).")
}

/// The line on how many assets an album has.
pub fn album_size_line(album: &LibraryAlbum) -> (r: String)
    ensures
        r@ == text::decimal(album.asset_count as nat) + " assets"@,
{
    concat2(number(album.asset_count as u64).as_str(), " assets")
}

/// Pressing and releasing Ctrl with nothing selected leaves everything as it was.
pub proof fn ctrl_alone_changes_nothing(
    before: SelectMode,
    pressed: SelectMode,
    released: SelectMode,
)
    requires
        is_settled(before),
        !before.active,
        !before.transient,
        pressed.active,
        pressed.transient,
        pressed.selection == before.selection,
        !released.transient,
        released.active == (pressed.active && grid::mark_count(pressed.selection.marks@) != 0),
        released.selection.marks@ == if grid::mark_count(pressed.selection.marks@) == 0 {
            grid::cleared(pressed.selection.marks@)
        } else {
            pressed.selection.marks@
        },
    ensures
        !released.active,
        released.transient == before.transient,
        released.selection.marks@ == before.selection.marks@,
{
    let marks = before.selection.marks@;
    assert forall|i: int| 0 <= i < marks.len() implies !(#[trigger] marks[i]) by {
        assert(grid::cleared(marks)[i] == false);
    }
    crate::seqs::filter_none(marks, |m: bool| m);
}

/// What is done with the selection concerns the selected assets of the server: each selected row whose
/// id is not that of a file on disk, and no other, is among them.
pub proof fn selection_concerns_selected_assets_of_the_server(
    model: &LibraryAssetModel,
    selection: &Selection,
    chosen: Vec<SelectedAsset>,
    id: Seq<char>,
)
    requires
        call_ensures(selected_remote_assets, (model, selection), chosen),
    ensures
        (exists|c: int| 0 <= c < chosen@.len() && (#[trigger] chosen@[c]).id@ == id) <==> exists|i: int|
            0 <= i < model.items@.len() && i < selection.marks@.len() && selection.marks@[i] && (
            #[trigger] model.items@[i]).id@ == id && !LOCAL_ID_PREFIX@.is_prefix_of(id),
{
    let items = model.items@;
    let marks = selection.marks@;
    let n = if items.len() <= marks.len() {
        items.len() as int
    } else {
        marks.len() as int
    };
    let all = selected_rows(items, marks, n);
    let texts = asset_texts(chosen@);
    let keep = |a: AssetText| is_remote(a);
    assert(texts == all.filter(keep));
    assert(texts.len() == chosen@.len());
    crate::seqs::filter_contents(all, keep);
    if exists|c: int| 0 <= c < chosen@.len() && (#[trigger] chosen@[c]).id@ == id {
        let c = choose|c: int| 0 <= c < chosen@.len() && (#[trigger] chosen@[c]).id@ == id;
        let t = texts[c];
        assert(t == chosen@[c]@);
        assert(texts.contains(t));
        assert(all.contains(t) && keep(t));
        let k = all.index_of(t);
        let i = row_of_selected(items, marks, n, k);
        assert(items[i].id@ == id);
    }
    if exists|i: int|
        0 <= i < items.len() && i < marks.len() && marks[i] && (#[trigger] items[i]).id@ == id
            && !LOCAL_ID_PREFIX@.is_prefix_of(id) {
        let i = choose|i: int|
            0 <= i < items.len() && i < marks.len() && marks[i] && (#[trigger] items[i]).id@ == id
                && !LOCAL_ID_PREFIX@.is_prefix_of(id);
        let k = place_of_selected(items, marks, n, i);
        let t = all[k];
        assert(all.contains(t) && keep(t));
        assert(texts.contains(t));
        let c = texts.index_of(t);
        assert(chosen@[c]@ == t);
        assert(chosen@[c].id@ == id);
    }
}

proof fn row_of_selected(items: Seq<AssetObject>, marks: Seq<bool>, n: int, k: int) -> (i: int)
    requires
        0 <= n <= items.len(),
        n <= marks.len(),
        0 <= k < selected_rows(items, marks, n).len(),
    ensures
        0 <= i < n,
        marks[i],
        selected_rows(items, marks, n)[k] == (AssetText {
            id: items[i].id@,
            filename: items[i].filename@,
        }),
    decreases n,
{
    if k < selected_rows(items, marks, n - 1).len() {
        row_of_selected(items, marks, n - 1, k)
    } else {
        n - 1
    }
}

proof fn place_of_selected(items: Seq<AssetObject>, marks: Seq<bool>, n: int, i: int) -> (k: int)
    requires
        0 <= i < n <= items.len(),
        n <= marks.len(),
        marks[i],
    ensures
        0 <= k < selected_rows(items, marks, n).len(),
        selected_rows(items, marks, n)[k] == (AssetText {
            id: items[i].id@,
            filename: items[i].filename@,
        }),
    decreases n,
{
    if i < n - 1 {
        place_of_selected(items, marks, n - 1, i)
    } else {
        selected_rows(items, marks, n - 1).len() as int
    }
}

/// Escape leaves select mode with nothing selected. Holding Ctrl enters it, and letting go of it
/// leaves it again exactly where nothing was selected meanwhile. Outside select mode neither pill nor
/// drawer is shown; the drawer comes with the first selected tile.
pub proof fn keys_enter_and_leave_select_mode(
    escaped: &mut SelectMode,
    held: &mut SelectMode,
    released: &mut SelectMode,
    mode: &SelectMode,
    stops: bool,
    goes_on: bool,
    view: SelectView,
)
    requires
        call_ensures(SelectMode::key_pressed, (escaped, SelectKey::Escape), stops),
        !old(held).active,
        call_ensures(SelectMode::key_pressed, (held, SelectKey::Control), goes_on),
        old(released).active == final(held).active,
        old(released).transient == final(held).transient,
        call_ensures(SelectMode::key_released, (released, SelectKey::Control), ()),
        call_ensures(SelectMode::view_state, (mode,), view),
    ensures
        !final(escaped).active,
        stops <==> old(escaped).active,
        stops ==> forall|i: int|
            0 <= i < final(escaped).selection.marks@.len()
                ==> !(#[trigger] final(escaped).selection.marks@[i]),
        final(held).active && final(held).transient && !goes_on,
        final(held).selection.marks@ == old(held).selection.marks@,
        !final(released).transient,
        final(released).active <==> exists|i: int|
            0 <= i < old(released).selection.marks@.len() && #[trigger] old(
                released,
            ).selection.marks@[i],
        final(released).active ==> final(released).selection.marks@ == old(
            released,
        ).selection.marks@,
        view.pill_visible == mode.active,
        view.drawer_visible ==> view.pill_visible,
        view.drawer_visible <==> mode.active && exists|i: int|
            0 <= i < mode.selection.marks@.len() && #[trigger] mode.selection.marks@[i],
{
    count_of_marks(old(released).selection.marks@);
    count_of_marks(mode.selection.marks@);
}

proof fn count_of_marks(marks: Seq<bool>)
    ensures
        grid::mark_count(marks) > 0 <==> exists|i: int| 0 <= i < marks.len() && #[trigger] marks[i],
{
    let keep = |m: bool| m;
    crate::seqs::filter_contents(marks, keep);
    let kept = marks.filter(keep);
    if grid::mark_count(marks) > 0 {
        assert(kept.contains(kept[0]));
        assert(marks.contains(kept[0]) && keep(kept[0]));
        let i = marks.index_of(kept[0]);
        assert(marks[i]);
    }
    if exists|i: int| 0 <= i < marks.len() && #[trigger] marks[i] {
        let i = choose|i: int| 0 <= i < marks.len() && #[trigger] marks[i];
        assert(marks.contains(true) && keep(true));
        assert(kept.contains(true));
        assert(kept.index_of(true) < kept.len());
    }
}

} // verus!
