//! The photo grid: selection, clicks, range selection, thumbnail loads, and when it is redrawn.
use vstd::prelude::*;
use vstd::string::*;
use crate::asset_model::{AssetObject, LibraryAssetModel};
use crate::layout;
use crate::layout::{item_at_x, row_at_y, DatedAsset, Span};
use crate::path;
use crate::path::extension;
use crate::quality;
use crate::quality::{local_row, GridLayout, GridQuality, ThumbnailSize};
use crate::seqs;
use crate::text;
use crate::text::{byte_size, concat2, concat3, contains_text, front_bytes, lower, number, owned,
    same_text};

verus! {

/// Which rows of the list are selected, position by position.
#[derive(Debug, PartialEq, Eq)]
pub struct Selection {
    pub marks: Vec<bool>,
}

/// The marks with the positions from `lo` to `hi`, both included, set.
pub open spec fn with_range(marks: Seq<bool>, lo: int, hi: int) -> Seq<bool> {
    Seq::new(marks.len(), |i: int| marks[i] || lo <= i <= hi)
}

/// The marks with one position flipped.
pub open spec fn with_toggled(marks: Seq<bool>, pos: int) -> Seq<bool> {
    Seq::new(marks.len(), |i: int| marks[i] != (i == pos))
}

/// As many marks, none of them set.
pub open spec fn cleared(marks: Seq<bool>) -> Seq<bool> {
    Seq::new(marks.len(), |i: int| false)
}

/// How many positions are selected.
pub open spec fn mark_count(marks: Seq<bool>) -> nat {
    marks.filter(|m: bool| m).len()
}

impl Selection {
    /// Nothing selected among `n` rows.
    pub fn new(n: usize) -> (r: Self)
        ensures
            r.marks@ == Seq::new(n as nat, |i: int| false),
    {
        let mut marks: Vec<bool> = Vec::new();
        let mut i: usize = 0;
        while i < n
            invariant
                i <= n,
                marks.len() == i,
                forall|k: int| 0 <= k < i ==> !(#[trigger] marks@[k]),
            decreases n - i,
        {
            marks.push(false);
            i = i + 1;
        }
        assert(marks@ =~= Seq::new(n as nat, |i: int| false));
        Selection { marks }
    }

    /// Whether the row at a position is selected; no row is beyond the end.
    pub fn is_selected(&self, pos: u32) -> (r: bool)
        ensures
            r == (pos < self.marks@.len() && self.marks@[pos as int]),
    {
        let at: usize = pos as usize;
        at < self.marks.len() && self.marks[at]
    }

    /// How many rows are selected.
    pub fn count(&self) -> (r: usize)
        ensures
            r == mark_count(self.marks@),
    {
        let ghost yes = |m: bool| m;
        let mut n: usize = 0;
        let mut i: usize = 0;
        proof {
            seqs::filter_ends(self.marks@, yes);
        }
        while i < self.marks.len()
            invariant
                i <= self.marks.len(),
                yes == |m: bool| m,
                n == self.marks@.take(i as int).filter(yes).len(),
                n <= i,
            decreases self.marks.len() - i,
        {
            proof {
                seqs::filter_step(self.marks@, yes, i as int);
            }
            if self.marks[i] {
                n = n + 1;
            }
            i = i + 1;
        }
        n
    }

    /// Selects nothing.
    pub fn unselect_all(&mut self)
        ensures
            final(self).marks@ == cleared(old(self).marks@),
    {
        let fresh: Selection = Selection::new(self.marks.len());
        assert(fresh.marks@ =~= cleared(self.marks@));
        *self = fresh;
    }

    /// Selects the positions from `lo` to `hi`, both included; the others stay as they are.
    pub fn select_range(&mut self, lo: u32, hi: u32)
        ensures
            final(self).marks@ == with_range(old(self).marks@, lo as int, hi as int),
    {
        let ghost before = self.marks@;
        let mut i: usize = 0;
        while i < self.marks.len()
            invariant
                i <= self.marks.len(),
                self.marks@.len() == before.len(),
                forall|k: int|
                    0 <= k < i ==> (#[trigger] self.marks@[k]) == (before[k] || lo <= k <= hi),
                forall|k: int| i <= k < before.len() ==> (#[trigger] self.marks@[k]) == before[k],
            decreases self.marks.len() - i,
        {
            if lo as usize <= i && i <= hi as usize {
                self.marks.set(i, true);
            }
            i = i + 1;
        }
        assert(self.marks@ =~= with_range(before, lo as int, hi as int));
    }

    /// Flips the row at a position; nothing happens beyond the end.
    pub fn toggle_selection(&mut self, pos: u32)
        ensures
            final(self).marks@ == with_toggled(old(self).marks@, pos as int),
    {
        let ghost before = self.marks@;
        let at: usize = pos as usize;
        if at < self.marks.len() {
            let now: bool = self.marks[at];
            self.marks.set(at, !now);
        }
        assert(self.marks@ =~= with_toggled(before, pos as int));
    }

    /// The selected positions, in order.
    pub fn positions(&self) -> (r: Vec<u32>)
        requires
            self.marks@.len() <= u32::MAX,
        ensures
            r@.map_values(|p: u32| p as int) == selected_positions(
                self.marks@,
                self.marks@.len() as int,
            ),
    {
        let mut out: Vec<u32> = Vec::new();
        let mut i: usize = 0;
        assert(out@.map_values(|p: u32| p as int) =~= Seq::<int>::empty());
        while i < self.marks.len()
            invariant
                self.marks@.len() <= u32::MAX,
                i <= self.marks.len(),
                out@.map_values(|p: u32| p as int) == selected_positions(self.marks@, i as int),
            decreases self.marks.len() - i,
        {
            let ghost before = out@;
            if self.marks[i] {
                out.push(i as u32);
                assert(out@.map_values(|p: u32| p as int) =~= before.map_values(
                    |p: u32| p as int,
                ).push(i as int));
            }
            i = i + 1;
        }
        out
    }
}

/// The selected positions below `n`, in order.
pub open spec fn selected_positions(marks: Seq<bool>, n: int) -> Seq<int>
    decreases n,
{
    if n <= 0 {
        Seq::empty()
    } else if marks[n - 1] {
        selected_positions(marks, n - 1).push(n - 1)
    } else {
        selected_positions(marks, n - 1)
    }
}

/// Toggling a position twice leaves the selection as it was.
pub proof fn toggling_twice_changes_nothing(marks: Seq<bool>, pos: int)
    ensures
        with_toggled(with_toggled(marks, pos), pos) == marks,
{
    assert(with_toggled(with_toggled(marks, pos), pos) =~= marks);
}

/// Selecting a range again changes nothing.
pub proof fn selecting_twice_changes_nothing(marks: Seq<bool>, lo: int, hi: int)
    ensures
        with_range(with_range(marks, lo, hi), lo, hi) == with_range(marks, lo, hi),
{
    assert(with_range(with_range(marks, lo, hi), lo, hi) =~= with_range(marks, lo, hi));
}

/// What has to be done after a change.
#[derive(Clone, Copy, Debug, PartialEq, Eq, Structural)]
pub enum Refresh {
    Nothing,
    Redraw,
    Relayout,
}

/// What a click leads to.
#[derive(Clone, Copy, Debug, PartialEq, Eq, Structural)]
pub enum ClickOutcome {
    /// The click met no tile, or ended a drag.
    Ignored,
    /// The selection changed.
    Selected,
    /// The asset at the position opens.
    Activate { position: u32 },
}

/// The state of the photo grid.
#[derive(Debug, PartialEq, Eq)]
pub struct MasonryCanvas {
    pub selection: Selection,
    pub narrow: bool,
    pub select_mode: bool,
    pub quality: GridQuality,
    pub layout_mode: GridLayout,
    pub grid_columns: u32,
    /// The assets whose thumbnail is being loaded.
    pub pending: Vec<String>,
    /// The assets whose thumbnail could not be loaded.
    pub failed: Vec<String>,
    /// Where a range selection with Shift starts.
    pub last_selected: Option<u32>,
    /// Where a range selection by long press starts.
    pub range_anchor: Option<u32>,
    pub range_drag_active: bool,
    pub permission_warned: bool,
    /// Files are being dragged out of the grid.
    pub drag_active: bool,
    /// The controller that drags files out exists.
    pub drag_source_installed: bool,
    /// It is attached.
    pub drag_source_active: bool,
}

/// A thumbnail to load.
#[derive(Debug, PartialEq, Eq)]
pub struct LoadRequest {
    pub asset_id: String,
    pub bucket: ThumbnailSize,
    pub local_path: String,
    pub is_local: bool,
}

/// What follows the end of a load.
#[derive(Clone, Copy, Debug, PartialEq, Eq, Structural)]
pub struct LoadFinish {
    pub refresh: Refresh,
    /// The user has to be told that the API key lacks a permission.
    pub warn_permission: bool,
}

fn lists(ids: &Vec<String>, id: &str) -> (r: bool)
    ensures
        r == text::views(ids@).contains(id@),
{
    let wanted: String = owned(id);
    let mut i: usize = 0;
    while i < ids.len()
        invariant
            i <= ids.len(),
            wanted@ == id@,
            forall|k: int| 0 <= k < i ==> (#[trigger] ids@[k])@ != id@,
        decreases ids.len() - i,
    {
        if ids[i] == wanted {
            assert(text::views(ids@)[i as int] == id@);
            return true;
        }
        i = i + 1;
    }
    proof {
        if text::views(ids@).contains(id@) {
            let k = text::views(ids@).index_of(id@);
            assert(ids@[k]@ == id@);
        }
    }
    false
}

/// The list without an id.
fn without(ids: &Vec<String>, id: &str) -> (r: Vec<String>)
    ensures
        r@ == ids@.filter(|s: String| s@ != id@),
{
    let gone: String = owned(id);
    let ghost keep = |s: String| s@ != id@;
    let mut out: Vec<String> = Vec::new();
    let mut i: usize = 0;
    proof {
        seqs::filter_ends(ids@, keep);
    }
    while i < ids.len()
        invariant
            i <= ids.len(),
            gone@ == id@,
            keep == |s: String| s@ != id@,
            out@ == ids@.take(i as int).filter(keep),
        decreases ids.len() - i,
    {
        proof {
            seqs::filter_step(ids@, keep, i as int);
        }
        if ids[i] != gone {
            out.push(ids[i].clone());
        }
        i = i + 1;
    }
    out
}

/// The lesser of two positions.
pub open spec fn least(a: u32, b: u32) -> u32 {
    if a <= b {
        a
    } else {
        b
    }
}

/// The greater of two positions.
pub open spec fn greatest(a: u32, b: u32) -> u32 {
    if a <= b {
        b
    } else {
        a
    }
}

impl MasonryCanvas {
    /// A grid of `n` rows: wide, nothing selected, square tiles in three columns.
    pub fn new(n: usize) -> (r: Self)
        ensures
            r.selection.marks@ == Seq::new(n as nat, |i: int| false),
            !r.narrow,
            !r.select_mode,
            r.quality == GridQuality::Thumbnail,
            r.layout_mode == GridLayout::SquareGrid,
            r.grid_columns == 3,
            r.pending@.len() == 0,
            r.failed@.len() == 0,
            r.last_selected is None,
            r.range_anchor is None,
            !r.range_drag_active,
            !r.permission_warned,
            !r.drag_active,
            !r.drag_source_installed,
            !r.drag_source_active,
    {
        MasonryCanvas {
            selection: Selection::new(n),
            narrow: false,
            select_mode: false,
            quality: GridQuality::default(),
            layout_mode: GridLayout::SquareGrid,
            grid_columns: 3,
            pending: Vec::new(),
            failed: Vec::new(),
            last_selected: None,
            range_anchor: None,
            range_drag_active: false,
            permission_warned: false,
            drag_active: false,
            drag_source_installed: false,
            drag_source_active: false,
        }
    }

    /// Sets whether the window is narrow. In a narrow window nothing is dragged out, so that drags
    /// scroll.
    pub fn set_narrow(&mut self, narrow: bool) -> (r: Refresh)
        ensures
            r == if old(self).narrow != narrow {
                Refresh::Relayout
            } else {
                Refresh::Nothing
            },
            *final(self) == (MasonryCanvas {
                narrow,
                drag_source_active: if old(self).drag_source_installed {
                    !narrow
                } else {
                    old(self).drag_source_active
                },
                ..*old(self)
            }),
    {
        let changed: bool = self.narrow != narrow;
        self.narrow = narrow;
        let _attached: Option<bool> = self.set_drag_export_enabled(!narrow);
        if changed {
            Refresh::Relayout
        } else {
            Refresh::Nothing
        }
    }

    /// Attaches or detaches the controller that drags files out: says which, where something
    /// changes. Without a controller nothing changes.
    pub fn set_drag_export_enabled(&mut self, on: bool) -> (r: Option<bool>)
        ensures
            r == if old(self).drag_source_active != on && old(self).drag_source_installed {
                Some(on)
            } else {
                None
            },
            *final(self) == (MasonryCanvas {
                drag_source_active: if old(self).drag_source_installed {
                    on
                } else {
                    old(self).drag_source_active
                },
                ..*old(self)
            }),
    {
        if self.drag_source_active == on || !self.drag_source_installed {
            return None;
        }
        self.drag_source_active = on;
        Some(on)
    }

    /// Takes note that the controller that drags files out exists, and attaches it in a wide
    /// window.
    pub fn install_drag_source(&mut self)
        ensures
            *final(self) == (MasonryCanvas {
                drag_source_installed: true,
                drag_source_active: !old(self).narrow,
                ..*old(self)
            }),
    {
        self.drag_source_installed = true;
        self.drag_source_active = true;
        let narrow: bool = self.narrow;
        let _attached: Option<bool> = self.set_drag_export_enabled(!narrow);
    }

    /// Sets whether clicks select.
    pub fn set_select_mode(&mut self, on: bool)
        ensures
            *final(self) == (MasonryCanvas { select_mode: on, ..*old(self) }),
    {
        self.select_mode = on;
    }

    /// Sets the image quality.
    pub fn set_quality(&mut self, quality: GridQuality) -> (r: Refresh)
        ensures
            r == if old(self).quality != quality {
                Refresh::Redraw
            } else {
                Refresh::Nothing
            },
            *final(self) == (MasonryCanvas { quality, ..*old(self) }),
    {
        let changed: bool = self.quality != quality;
        self.quality = quality;
        if changed {
            Refresh::Redraw
        } else {
            Refresh::Nothing
        }
    }

    /// Sets the layout.
    pub fn set_layout_mode(&mut self, mode: GridLayout) -> (r: Refresh)
        ensures
            r == if old(self).layout_mode != mode {
                Refresh::Relayout
            } else {
                Refresh::Nothing
            },
            *final(self) == (MasonryCanvas { layout_mode: mode, ..*old(self) }),
    {
        let changed: bool = self.layout_mode != mode;
        self.layout_mode = mode;
        if changed {
            Refresh::Relayout
        } else {
            Refresh::Nothing
        }
    }

    /// Sets the number of columns, at least one.
    pub fn set_grid_columns(&mut self, cols: u32) -> (r: Refresh)
        ensures
            ({
                let wanted = greatest(1, cols);
                &&& r == if old(self).grid_columns != wanted {
                    Refresh::Relayout
                } else {
                    Refresh::Nothing
                }
                &&& *final(self) == (MasonryCanvas { grid_columns: wanted, ..*old(self) })
            }),
    {
        let wanted: u32 = if cols < 1 {
            1
        } else {
            cols
        };
        let changed: bool = self.grid_columns != wanted;
        self.grid_columns = wanted;
        if changed {
            Refresh::Relayout
        } else {
            Refresh::Nothing
        }
    }

    /// A click with the primary button on the tile at `hit`, if it met one. With Shift it selects
    /// the range from the anchor, instead of the selection or, with Ctrl, in addition to it; with
    /// Ctrl, or in select mode, it toggles the tile; otherwise the asset opens.
    pub fn handle_primary_click(&mut self, hit: Option<u32>, ctrl: bool, shift: bool) -> (r:
        ClickOutcome)
        ensures
            hit is None || old(self).drag_active ==> r == ClickOutcome::Ignored && *final(self)
                == *old(self),
            hit matches Some(pos) && !old(self).drag_active && shift ==> {
                let pos = hit->0;
                let anchor = match old(self).last_selected {
                    Some(a) => a,
                    None => pos,
                };
                let start = if ctrl {
                    old(self).selection.marks@
                } else {
                    cleared(old(self).selection.marks@)
                };
                &&& r == ClickOutcome::Selected
                &&& final(self).selection.marks@ == with_range(
                    start,
                    least(anchor, pos) as int,
                    greatest(anchor, pos) as int,
                )
                &&& *final(self) == (MasonryCanvas {
                    selection: final(self).selection,
                    select_mode: true,
                    ..*old(self)
                })
            },
            hit matches Some(pos) && !old(self).drag_active && !shift && (ctrl || old(
                self,
            ).select_mode) ==> {
                &&& r == ClickOutcome::Selected
                &&& final(self).selection.marks@ == with_toggled(
                    old(self).selection.marks@,
                    hit->0 as int,
                )
                &&& *final(self) == (MasonryCanvas {
                    selection: final(self).selection,
                    select_mode: true,
                    last_selected: hit,
                    ..*old(self)
                })
            },
            hit matches Some(pos) && !old(self).drag_active && !shift && !ctrl && !old(
                self,
            ).select_mode ==> r == (ClickOutcome::Activate { position: hit->0 }) && *final(self)
                == *old(self),
    {
        if self.drag_active {
            return ClickOutcome::Ignored;
        }
        match hit {
            None => ClickOutcome::Ignored,
            Some(pos) => {
                if shift {
                    let anchor: u32 = match self.last_selected {
                        Some(a) => a,
                        None => pos,
                    };
                    if !ctrl {
                        self.selection.unselect_all();
                    }
                    if anchor <= pos {
                        self.selection.select_range(anchor, pos);
                    } else {
                        self.selection.select_range(pos, anchor);
                    }
                    self.select_mode = true;
                    ClickOutcome::Selected
                } else if ctrl || self.select_mode {
                    self.selection.toggle_selection(pos);
                    self.select_mode = true;
                    self.last_selected = Some(pos);
                    ClickOutcome::Selected
                } else {
                    ClickOutcome::Activate { position: pos }
                }
            },
        }
    }

    /// A long press on the tile at `hit`: enters select mode, selects the tile and anchors a range
    /// there.
    pub fn begin_range_select(&mut self, hit: Option<u32>)
        ensures
            match hit {
                None => *final(self) == *old(self),
                Some(pos) => {
                    &&& final(self).selection.marks@ == with_range(
                        old(self).selection.marks@,
                        pos as int,
                        pos as int,
                    )
                    &&& *final(self) == (MasonryCanvas {
                        selection: final(self).selection,
                        select_mode: true,
                        last_selected: hit,
                        range_anchor: hit,
                        range_drag_active: true,
                        ..*old(self)
                    })
                },
            },
    {
        if let Some(pos) = hit {
            self.select_mode = true;
            self.selection.select_range(pos, pos);
            self.last_selected = Some(pos);
            self.range_anchor = Some(pos);
            self.range_drag_active = true;
        }
    }

    /// The finger moved to the tile at `hit`: the selection is the range from the anchor to it, no
    /// more. Nothing happens unless a long press has begun a range.
    pub fn update_range_select(&mut self, hit: Option<u32>)
        ensures
            old(self).range_drag_active && old(self).range_anchor is Some && hit is Some ==> {
                let anchor = old(self).range_anchor->0;
                let pos = hit->0;
                &&& final(self).selection.marks@ == with_range(
                    cleared(old(self).selection.marks@),
                    least(anchor, pos) as int,
                    greatest(anchor, pos) as int,
                )
                &&& *final(self) == (MasonryCanvas {
                    selection: final(self).selection,
                    last_selected: hit,
                    ..*old(self)
                })
            },
            !(old(self).range_drag_active && old(self).range_anchor is Some && hit is Some)
                ==> *final(self) == *old(self),
    {
        if !self.range_drag_active {
            return;
        }
        if let Some(anchor) = self.range_anchor {
            if let Some(pos) = hit {
                self.selection.unselect_all();
                if anchor <= pos {
                    self.selection.select_range(anchor, pos);
                } else {
                    self.selection.select_range(pos, anchor);
                }
                self.last_selected = Some(pos);
            }
        }
    }

    /// The finger was lifted: the range ends, the selection stays.
    pub fn end_range_select(&mut self)
        ensures
            *final(self) == (MasonryCanvas {
                range_drag_active: false,
                range_anchor: None,
                ..*old(self)
            }),
    {
        self.range_drag_active = false;
        self.range_anchor = None;
    }

    /// The load to start for a tile, if one is needed. `cached` says whether the image is in the
    /// cache already, in the size of [`lookup_bucket`].
    pub fn queue_load_if_needed(
        &mut self,
        asset_id: &str,
        local_path: &str,
        bucket: ThumbnailSize,
        cached: bool,
    ) -> (r: Option<LoadRequest>)
        ensures
            ({
                let blocked = cached || text::views(old(self).failed@).contains(asset_id@)
                    || text::views(old(self).pending@).contains(asset_id@);
                &&& r is None <==> blocked
                &&& blocked ==> *final(self) == *old(self)
                &&& !blocked ==> text::views(final(self).pending@) == text::views(
                    old(self).pending@,
                ).push(asset_id@) && *final(self) == (MasonryCanvas {
                    pending: final(self).pending,
                    ..*old(self)
                })
            }),
            r matches Some(request) ==> request.asset_id@ == asset_id@ && request.bucket == bucket
                && request.local_path@ == local_path@ && request.is_local == quality::is_local_row(
                asset_id@,
                local_path@,
            ),
    {
        if cached || lists(&self.failed, asset_id) || lists(&self.pending, asset_id) {
            return None;
        }
        let ghost before = self.pending@;
        self.pending.push(owned(asset_id));
        assert(text::views(self.pending@) =~= text::views(before).push(asset_id@));
        Some(
            LoadRequest {
                asset_id: owned(asset_id),
                bucket,
                local_path: owned(local_path),
                is_local: local_row(asset_id, local_path),
            },
        )
    }

    /// A load has ended: with the pixel size of the image, or with an error. The size is entered
    /// where it was unknown. A failed asset is not tried again, unless the load was cancelled; the
    /// first lack of a permission is reported to the user.
    pub fn finish_load(
        &mut self,
        model: &mut LibraryAssetModel,
        asset_id: &str,
        result: Result<(u32, u32), String>,
    ) -> (r: LoadFinish)
        ensures
            final(self).pending@ == old(self).pending@.filter(|s: String| s@ != asset_id@),
            ({
                let failed = result matches Err(e) && e@ != "cancelled"@;
                let refused = failed && lacks_permission(result->Err_0@);
                &&& text::views(final(self).failed@) == if failed && !text::views(
                    old(self).failed@,
                ).contains(asset_id@) {
                    text::views(old(self).failed@).push(asset_id@)
                } else {
                    text::views(old(self).failed@)
                }
                &&& r.warn_permission == (refused && !old(self).permission_warned)
                &&& final(self).permission_warned == (old(self).permission_warned || refused)
            }),
            *final(self) == (MasonryCanvas {
                pending: final(self).pending,
                failed: final(self).failed,
                permission_warned: final(self).permission_warned,
                ..*old(self)
            }),
            match result {
                Ok((w, h)) => {
                    let changed = needs_size(old(model).items@, asset_id@);
                    &&& final(model).items@ == with_size(old(model).items@, asset_id@, w, h)
                    &&& r.refresh == if changed {
                        Refresh::Relayout
                    } else {
                        Refresh::Redraw
                    }
                },
                Err(e) => *final(model) == *old(model) && r.refresh == Refresh::Redraw,
            },
    {
        let mut warn: bool = false;
        let mut resized: bool = false;
        match result {
            Ok(size) => {
                resized = propagate_dimensions(model, asset_id, size.0, size.1);
            },
            Err(e) => {
                if !same_text(e.as_str(), "cancelled") {
                    if !lists(&self.failed, asset_id) {
                        let ghost before = self.failed@;
                        self.failed.push(owned(asset_id));
                        assert(text::views(self.failed@) =~= text::views(before).push(asset_id@));
                    }
                    if (contains_text(e.as_str(), "HTTP 401") || contains_text(
                        e.as_str(),
                        "HTTP 403",
                    )) {
                        warn = !self.permission_warned;
                        self.permission_warned = true;
                    }
                }
            },
        }
        self.pending = without(&self.pending, asset_id);
        LoadFinish {
            refresh: if resized {
                Refresh::Relayout
            } else {
                Refresh::Redraw
            },
            warn_permission: warn,
        }
    }

    /// The list behind the grid changed: failed assets that are no longer in it are forgotten. A
    /// list that was only emptied leaves the picture as it is.
    pub fn handle_model_changed(&mut self, model: &LibraryAssetModel, removed: u32, added: u32) -> (r:
        Refresh)
        ensures
            final(self).failed@ == old(self).failed@.filter(
                |s: String| has_id(model.items@, s@),
            ),
            *final(self) == (MasonryCanvas { failed: final(self).failed, ..*old(self) }),
            r == if added == 0 && removed > 0 && model.items@.len() == 0 {
                Refresh::Nothing
            } else {
                Refresh::Relayout
            },
    {
        let ghost keep = |s: String| has_id(model.items@, s@);
        let ghost all = self.failed@;
        let mut kept: Vec<String> = Vec::new();
        let mut i: usize = 0;
        proof {
            seqs::filter_ends(all, keep);
        }
        while i < self.failed.len()
            invariant
                i <= self.failed.len(),
                self.failed@ == all,
                keep == |s: String| has_id(model.items@, s@),
                kept@ == all.take(i as int).filter(keep),
            decreases self.failed.len() - i,
        {
            proof {
                seqs::filter_step(all, keep, i as int);
            }
            if position_of(model, self.failed[i].as_str()).is_some() {
                kept.push(self.failed[i].clone());
            }
            i = i + 1;
        }
        self.failed = kept;
        if added == 0 && removed > 0 && model.items.len() == 0 {
            Refresh::Nothing
        } else {
            Refresh::Relayout
        }
    }

    /// How many files a drag carries: the selected ones in select mode, else the one under the
    /// pointer.
    pub fn selected_count(&self) -> (r: usize)
        ensures
            r == if self.select_mode {
                mark_count(self.selection.marks@)
            } else {
                1
            },
    {
        if self.select_mode {
            self.selection.count()
        } else {
            1
        }
    }
}

/// The error says that the API key lacks a permission.
pub open spec fn lacks_permission(err: Seq<char>) -> bool {
    text::occurs_in(err, "HTTP 401"@) || text::occurs_in(err, "HTTP 403"@)
}

/// The size in which the cache is asked for a tile: thumbnails for files that are only on disk.
pub fn lookup_bucket(asset_id: &str, local_path: &str, bucket: ThumbnailSize) -> (r: ThumbnailSize)
    ensures
        r == if quality::is_local_row(asset_id@, local_path@) {
            ThumbnailSize::Thumbnail
        } else {
            bucket
        },
{
    if local_row(asset_id, local_path) {
        ThumbnailSize::Thumbnail
    } else {
        bucket
    }
}

/// A row with the given id is in the list.
pub open spec fn has_id(items: Seq<AssetObject>, id: Seq<char>) -> bool {
    seqs::has(items, |o: AssetObject| o.id@ == id)
}

/// The first position of an id in the list; the length where it is not there.
pub open spec fn first_position(items: Seq<AssetObject>, id: Seq<char>) -> int
    decreases items.len(),
{
    if items.len() == 0 {
        0
    } else if items[0].id@ == id {
        0
    } else {
        1 + first_position(items.drop_first(), id)
    }
}

proof fn first_position_step(items: Seq<AssetObject>, id: Seq<char>, i: int)
    requires
        0 <= i <= items.len(),
        forall|k: int| 0 <= k < i ==> (#[trigger] items[k]).id@ != id,
    ensures
        first_position(items, id) == i + first_position(items.skip(i), id),
    decreases i,
{
    if i == 0 {
        assert(items.skip(0) =~= items);
    } else {
        let rest = items.drop_first();
        assert forall|k: int| 0 <= k < i - 1 implies (#[trigger] rest[k]).id@ != id by {
            assert(rest[k] == items[k + 1]);
        }
        first_position_step(rest, id, i - 1);
        assert(rest.skip(i - 1) =~= items.skip(i));
    }
}

/// The first position of an id in the list.
pub fn position_of(model: &LibraryAssetModel, asset_id: &str) -> (r: Option<usize>)
    ensures
        r is Some <==> has_id(model.items@, asset_id@),
        r matches Some(i) ==> i == first_position(model.items@, asset_id@) && i
            < model.items@.len() && model.items@[i as int].id@ == asset_id@,
        r is None ==> first_position(model.items@, asset_id@) == model.items@.len(),
{
    let wanted: String = owned(asset_id);
    let ghost pass = |o: AssetObject| o.id@ == asset_id@;
    let mut i: usize = 0;
    while i < model.items.len()
        invariant
            i <= model.items.len(),
            wanted@ == asset_id@,
            pass == |o: AssetObject| o.id@ == asset_id@,
            forall|k: int| 0 <= k < i ==> (#[trigger] model.items@[k]).id@ != asset_id@,
        decreases model.items.len() - i,
    {
        if model.items[i].id == wanted {
            proof {
                first_position_step(model.items@, asset_id@, i as int);
                assert(model.items@.skip(i as int)[0] == model.items@[i as int]);
                assert(pass(model.items@[i as int]));
            }
            return Some(i);
        }
        i = i + 1;
    }
    proof {
        first_position_step(model.items@, asset_id@, i as int);
        assert(model.items@.skip(i as int) =~= Seq::<AssetObject>::empty());
    }
    None
}

/// The asset's row lacks a width or a height.
pub open spec fn needs_size(items: Seq<AssetObject>, id: Seq<char>) -> bool {
    let i = first_position(items, id);
    i < items.len() && (items[i].width == 0 || items[i].height == 0)
}

/// The rows with the pixel size of an asset entered where it was unknown.
pub open spec fn with_size(items: Seq<AssetObject>, id: Seq<char>, w: u32, h: u32) -> Seq<
    AssetObject,
> {
    if needs_size(items, id) {
        let i = first_position(items, id);
        items.update(i, AssetObject { width: w, height: h, ..items[i] })
    } else {
        items
    }
}

/// Enters the pixel size of an asset where it was unknown; says whether it was.
pub fn propagate_dimensions(model: &mut LibraryAssetModel, asset_id: &str, w: u32, h: u32) -> (r:
    bool)
    ensures
        r == needs_size(old(model).items@, asset_id@),
        final(model).items@ == with_size(old(model).items@, asset_id@, w, h),
{
    match position_of(model, asset_id) {
        None => false,
        Some(i) => {
            if model.items[i].width == 0 || model.items[i].height == 0 {
                let mut object: AssetObject = model.items[i].clone();
                object.width = w;
                object.height = h;
                model.items.set(i, object);
                true
            } else {
                false
            }
        },
    }
}

/// The pixel sizes of the rows.
pub fn collect_dims(model: &LibraryAssetModel) -> (r: Vec<(u32, u32)>)
    ensures
        r@ == model.items@.map_values(|o: AssetObject| (o.width, o.height)),
{
    let mut out: Vec<(u32, u32)> = Vec::new();
    let mut i: usize = 0;
    while i < model.items.len()
        invariant
            i <= model.items.len(),
            out.len() == i,
            forall|k: int|
                0 <= k < i ==> (#[trigger] out@[k]) == (
                    model.items@[k].width,
                    model.items@[k].height,
                ),
        decreases model.items.len() - i,
    {
        out.push((model.items[i].width, model.items[i].height));
        i = i + 1;
    }
    assert(out@ =~= model.items@.map_values(|o: AssetObject| (o.width, o.height)));
    out
}

/// The rows with their positions and creation times.
pub fn collect_asset_dates(model: &LibraryAssetModel) -> (r: Vec<DatedAsset>)
    requires
        model.items@.len() <= u32::MAX,
    ensures
        r@.len() == model.items@.len(),
        forall|i: int|
            0 <= i < r@.len() ==> (#[trigger] r@[i]).index == i && r@[i].created_at@
                == model.items@[i].created_at@,
{
    let mut out: Vec<DatedAsset> = Vec::new();
    let mut i: usize = 0;
    while i < model.items.len()
        invariant
            model.items@.len() <= u32::MAX,
            i <= model.items.len(),
            out.len() == i,
            forall|k: int|
                0 <= k < i ==> (#[trigger] out@[k]).index == k && out@[k].created_at@
                    == model.items@[k].created_at@,
        decreases model.items.len() - i,
    {
        out.push(DatedAsset { index: i as u32, created_at: model.items[i].created_at.clone() });
        i = i + 1;
    }
    out
}

/// How many tiles were painted, and how many of them from the cache.
#[derive(Clone, Copy, Debug, PartialEq, Eq, Structural)]
pub struct SnapshotStats {
    pub hits: usize,
    pub misses: usize,
    pub painted: usize,
}

impl SnapshotStats {
    /// Counts one tile.
    pub fn record(&mut self, hit: bool)
        requires
            old(self).hits + old(self).misses == old(self).painted,
            old(self).painted < usize::MAX,
        ensures
            final(self).painted == old(self).painted + 1,
            final(self).hits == old(self).hits + (if hit {
                1int
            } else {
                0
            }),
            final(self).hits + final(self).misses == final(self).painted,
    {
        if hit {
            self.hits = self.hits + 1;
        } else {
            self.misses = self.misses + 1;
        }
        self.painted = self.painted + 1;
    }
}

/// The icon of a sync badge: on the server alone, on both sides, on disk alone.
pub open spec fn sync_icon(sync_state: u32) -> Seq<char> {
    if sync_state == 0 {
        "mimick-cloud-symbolic"@
    } else if sync_state == 2 {
        "mimick-cloud-done-symbolic"@
    } else {
        "mimick-cloud-off-symbolic"@
    }
}

/// The icon of a sync badge.
pub fn cloud_icon(sync_state: u32) -> (r: &'static str)
    ensures
        r@ == sync_icon(sync_state),
{
    if sync_state == 0 {
        "mimick-cloud-symbolic"
    } else if sync_state == 2 {
        "mimick-cloud-done-symbolic"
    } else {
        "mimick-cloud-off-symbolic"
    }
}

/// Whether an asset type is the given one, without regard to ASCII case.
pub fn is_asset_type(asset_type: &str, wanted: &str) -> (r: bool)
    ensures
        r == (text::lowered(asset_type@) == text::lowered(wanted@)),
{
    same_text(lower(asset_type).as_str(), lower(wanted).as_str())
}

/// What is painted over the image of a tile.
#[derive(Clone, Copy, Debug, PartialEq, Eq)]
pub struct TilePaint {
    pub tinted: bool,
    /// The checkbox, and whether it is checked.
    pub checkbox: Option<bool>,
    pub video_badge: bool,
    /// The icon of the sync badge.
    pub cloud_badge: Option<&'static str>,
}

/// What is painted over the image of a tile: in select mode the checkbox, else the sync badge.
pub fn tile_paint(canvas: &MasonryCanvas, asset: &AssetObject, position: u32) -> (r: TilePaint)
    ensures
        ({
            let selected = position < canvas.selection.marks@.len()
                && canvas.selection.marks@[position as int];
            &&& r.tinted == selected
            &&& r.checkbox == if canvas.select_mode {
                Some(selected)
            } else {
                None
            }
            &&& r.video_badge == (text::lowered(asset.asset_type@) == text::lowered("VIDEO"@))
            &&& r.cloud_badge is None <==> canvas.select_mode
            &&& r.cloud_badge matches Some(icon) ==> icon@ == sync_icon(asset.sync_state)
        }),
{
    let selected: bool = canvas.selection.is_selected(position);
    TilePaint {
        tinted: selected,
        checkbox: if canvas.select_mode {
            Some(selected)
        } else {
            None
        },
        video_badge: is_asset_type(asset.asset_type.as_str(), "VIDEO"),
        cloud_badge: if canvas.select_mode {
            None
        } else {
            Some(cloud_icon(asset.sync_state))
        },
    }
}

/// A tile of a laid-out row: its edges and its place in the list.
#[derive(Clone, Copy, Debug, PartialEq, Eq, Structural)]
pub struct TileSpan {
    pub span: Span,
    pub asset_index: u32,
}

/// A laid-out row: its edges and its tiles.
#[derive(Debug, PartialEq, Eq)]
pub struct RowSpans {
    pub span: Span,
    pub tiles: Vec<TileSpan>,
}

/// The edges of the rows.
pub open spec fn row_edges(rows: Seq<RowSpans>) -> Seq<Span> {
    rows.map_values(|r: RowSpans| r.span)
}

/// The asset under a point. Where tiles of the row overlap, the first of them counts.
pub fn hit_test(rows: &Vec<RowSpans>, x: i64, y: i64) -> (r: Option<u32>)
    ensures
        r matches Some(index) ==> exists|i: int, k: int|
            0 <= i < rows@.len() && 0 <= k < rows@[i].tiles@.len() && layout::lies_in(
                y,
                rows@[i].span,
            ) && layout::lies_in(x, #[trigger] rows@[i].tiles@[k].span)
                && rows@[i].tiles@[k].asset_index == index && forall|j: int|
                0 <= j < k ==> !layout::lies_in(x, (#[trigger] rows@[i].tiles@[j]).span),
        layout::is_stacked(row_edges(rows@)) && r is None ==> forall|i: int, k: int|
            0 <= i < rows@.len() && 0 <= k < rows@[i].tiles@.len() ==> !(layout::lies_in(
                y,
                rows@[i].span,
            ) && layout::lies_in(x, #[trigger] rows@[i].tiles@[k].span)),
{
    let mut edges: Vec<Span> = Vec::new();
    let mut i: usize = 0;
    while i < rows.len()
        invariant
            i <= rows.len(),
            edges.len() == i,
            forall|k: int| 0 <= k < i ==> (#[trigger] edges@[k]) == rows@[k].span,
        decreases rows.len() - i,
    {
        edges.push(rows[i].span);
        i = i + 1;
    }
    assert(edges@ =~= row_edges(rows@));
    match row_at_y(&edges, y) {
        None => {
            proof {
                if layout::is_stacked(row_edges(rows@)) {
                    assert forall|i: int| 0 <= i < rows@.len() implies !layout::lies_in(
                        y,
                        (#[trigger] rows@[i]).span,
                    ) by {
                        assert(edges@[i] == rows@[i].span);
                    }
                }
            }
            None
        },
        Some(at) => {
            let row: &RowSpans = &rows[at];
            let mut tiles: Vec<Span> = Vec::new();
            let mut j: usize = 0;
            while j < row.tiles.len()
                invariant
                    j <= row.tiles.len(),
                    tiles.len() == j,
                    forall|k: int| 0 <= k < j ==> (#[trigger] tiles@[k]) == row.tiles@[k].span,
                decreases row.tiles.len() - j,
            {
                tiles.push(row.tiles[j].span);
                j = j + 1;
            }
            match item_at_x(&tiles, x) {
                Some(k) => {
                    assert(layout::lies_in(x, rows@[at as int].tiles@[k as int].span));
                    assert forall|j: int| 0 <= j < k implies !layout::lies_in(
                        x,
                        (#[trigger] rows@[at as int].tiles@[j]).span,
                    ) by {
                        assert(tiles@[j] == row.tiles@[j].span);
                    }
                    Some(row.tiles[k].asset_index)
                },
                None => {
                    proof {
                        if layout::is_stacked(row_edges(rows@)) {
                            assert forall|i: int, k: int|
                                0 <= i < rows@.len() && 0 <= k
                                    < rows@[i].tiles@.len() implies !(layout::lies_in(
                                y,
                                rows@[i].span,
                            ) && layout::lies_in(x, #[trigger] rows@[i].tiles@[k].span)) by {
                                if layout::lies_in(y, rows@[i].span) {
                                    assert(edges@[i] == rows@[i].span);
                                    layout::stacked_rows_are_disjoint(
                                        edges@,
                                        y,
                                        i,
                                        at as int,
                                    );
                                    assert(tiles@[k] == rows@[i].tiles@[k].span);
                                }
                            }
                        }
                    }
                    None
                },
            }
        },
    }
}

/// The first place of the least distance; none in an empty list.
pub fn nearest(distances: &Vec<u64>) -> (r: Option<usize>)
    ensures
        r is None <==> distances@.len() == 0,
        r matches Some(i) ==> i < distances@.len() && (forall|k: int|
            0 <= k < distances@.len() ==> distances@[i as int] <= (#[trigger] distances@[k])) && (
        forall|k: int| 0 <= k < i ==> distances@[i as int] < (#[trigger] distances@[k])),
{
    if distances.len() == 0 {
        return None;
    }
    let mut best: usize = 0;
    let mut i: usize = 1;
    while i < distances.len()
        invariant
            1 <= i <= distances.len(),
            best < i,
            forall|k: int| 0 <= k < i ==> distances@[best as int] <= (#[trigger] distances@[k]),
            forall|k: int| 0 <= k < best ==> distances@[best as int] < (#[trigger] distances@[k]),
        decreases distances.len() - i,
    {
        if distances[i] < distances[best] {
            best = i;
        }
        i = i + 1;
    }
    Some(best)
}

/// The extension of a file name; "bin" where it has none.
pub open spec fn cache_extension(filename: Seq<char>) -> Seq<char> {
    match path::extension_of(filename) {
        Some(ext) => if ext.len() > 0 {
            ext
        } else {
            "bin"@
        },
        None => "bin"@,
    }
}

/// The name under which the original of an asset is cached: its id with the file's extension, which
/// the decoder goes by.
pub fn preview_cache_name(asset_id: &str, filename: &str) -> (r: String)
    ensures
        r@ == asset_id@ + "."@ + cache_extension(filename@),
{
    let ext: String = match extension(filename) {
        Some(e) => {
            if e.as_str().is_empty() {
                owned("bin")
            } else {
                e
            }
        },
        None => owned("bin"),
    };
    concat3(asset_id, ".", ext.as_str())
}

/// The path at which the original of an asset is cached.
pub fn original_preview_cache_path(cache_dir: &str, asset_id: &str, filename: &str) -> (r: String)
    ensures
        r@ == path::joined_path(cache_dir@, asset_id@ + "."@ + cache_extension(filename@)),
{
    path::join_path(cache_dir, preview_cache_name(asset_id, filename).as_str())
}

/// How many bytes of an id stand in front of an exported file's name.
pub open spec fn id_prefix_len(id: Seq<char>) -> nat {
    if text::byte_len(id) <= 8 {
        text::byte_len(id)
    } else {
        8
    }
}

/// The name of an exported file: the first eight bytes of the asset's id, then the file name.
pub fn export_name(asset_id: &str, filename: &str) -> (r: String)
    requires
        text::byte_len(asset_id@) <= usize::MAX,
        text::byte_front(asset_id@, id_prefix_len(asset_id@)) is Some,
    ensures
        r@ == text::byte_front(asset_id@, id_prefix_len(asset_id@))->0 + "_"@ + filename@,
{
    let size: usize = byte_size(asset_id);
    let n: usize = if size <= 8 {
        size
    } else {
        8
    };
    match front_bytes(asset_id, n) {
        Some(front) => concat3(front.as_str(), "_", filename),
        None => String::new(),
    }
}

/// Where the file of a dragged asset comes from.
#[derive(Clone, Copy, Debug, PartialEq, Eq, Structural)]
pub enum DragSource {
    /// The local copy.
    LocalFile,
    /// The exported file, which is there or can be linked from the preview cache or downloaded.
    Export,
    /// Nothing can be dragged.
    Nothing,
}

/// Where the file of a dragged asset comes from. An export needs an id on the server and a file
/// name.
pub fn drag_source(local_path: &str, local_exists: bool, remote_id: &str, filename: &str) -> (r:
    DragSource)
    ensures
        r == if local_path@.len() > 0 && local_exists {
            DragSource::LocalFile
        } else if remote_id@.len() == 0 || filename@.len() == 0 {
            DragSource::Nothing
        } else {
            DragSource::Export
        },
{
    if !local_path.is_empty() && local_exists {
        DragSource::LocalFile
    } else if remote_id.is_empty() || filename.is_empty() {
        DragSource::Nothing
    } else {
        DragSource::Export
    }
}

/// The positions among the first `n` that are selected and whose file can be had.
pub open spec fn dragged_positions(marks: Seq<bool>, available: Seq<bool>, n: int) -> Seq<int>
    decreases n,
{
    if n <= 0 {
        Seq::empty()
    } else if marks[n - 1] && available[n - 1] {
        dragged_positions(marks, available, n - 1).push(n - 1)
    } else {
        dragged_positions(marks, available, n - 1)
    }
}

/// The positions whose files a drag carries: in select mode the selected ones whose file can be
/// had; where there are none, the one under the pointer. `available` says of each position whether
/// its file can be had.
pub fn collect_drag_files(canvas: &MasonryCanvas, available: &Vec<bool>, hit: Option<u32>) -> (r:
    Vec<u32>)
    requires
        available@.len() == canvas.selection.marks@.len(),
        available@.len() <= u32::MAX,
    ensures
        ({
            let chosen = if canvas.select_mode {
                dragged_positions(
                    canvas.selection.marks@,
                    available@,
                    available@.len() as int,
                )
            } else {
                Seq::empty()
            };
            r@.map_values(|p: u32| p as int) == if chosen.len() > 0 {
                chosen
            } else if hit is Some && hit->0 < available@.len() && available@[hit->0 as int] {
                seq![hit->0 as int]
            } else {
                Seq::empty()
            }
        }),
{
    let mut out: Vec<u32> = Vec::new();
    assert(out@.map_values(|p: u32| p as int) =~= Seq::<int>::empty());
    if canvas.select_mode {
        let mut i: usize = 0;
        while i < available.len()
            invariant
                i <= available.len(),
                available@.len() == canvas.selection.marks@.len(),
                available@.len() <= u32::MAX,
                out@.map_values(|p: u32| p as int) == dragged_positions(
                    canvas.selection.marks@,
                    available@,
                    i as int,
                ),
            decreases available.len() - i,
        {
            if canvas.selection.marks[i] && available[i] {
                let ghost before = out@;
                out.push(i as u32);
                assert(out@.map_values(|p: u32| p as int) =~= before.map_values(
                    |p: u32| p as int,
                ).push(i as int));
            }
            i = i + 1;
        }
    }
    let ghost chosen = out@.map_values(|p: u32| p as int);
    assert(chosen.len() == out@.len());
    if out.len() == 0 {
        assert(chosen =~= Seq::<int>::empty());
        if let Some(pos) = hit {
            if (pos as usize) < available.len() && available[pos as usize] {
                out.push(pos);
                assert(out@.map_values(|p: u32| p as int) =~= seq![pos as int]);
            }
        }
    }
    out
}

/// The label of a drag of several files.
pub fn drag_badge_label(count: usize) -> (r: String)
    ensures
        r@ == text::decimal(count as nat) + " files"@,
{
    concat2(number(count as u64).as_str(), " files")
}

/// A click on tile `pos`: without modifiers, outside select mode, it opens the asset and selects
/// nothing. With Ctrl, or in select mode, it flips that tile and no other, and anchors a range there.
/// With Shift it selects the tiles from the anchor to `pos`, and of the others those that were
/// selected where Ctrl is held too, else none. While files are dragged it does nothing.
pub proof fn click_selects_as_held(
    canvas: &mut MasonryCanvas,
    pos: u32,
    ctrl: bool,
    shift: bool,
    outcome: ClickOutcome,
    i: int,
)
    requires
        call_ensures(MasonryCanvas::handle_primary_click, (canvas, Some(pos), ctrl, shift), outcome),
        0 <= i < old(canvas).selection.marks@.len(),
    ensures
        final(canvas).selection.marks@.len() == old(canvas).selection.marks@.len(),
        ({
            let was = old(canvas).selection.marks@[i];
            let is = final(canvas).selection.marks@[i];
            let anchor = if old(canvas).last_selected is Some {
                old(canvas).last_selected->0
            } else {
                pos
            };
            if old(canvas).drag_active {
                outcome == ClickOutcome::Ignored && is == was
            } else if shift {
                &&& outcome == ClickOutcome::Selected
                &&& is <==> anchor <= i <= pos || pos <= i <= anchor || (ctrl && was)
                &&& final(canvas).last_selected == old(canvas).last_selected
                &&& final(canvas).select_mode
            } else if ctrl || old(canvas).select_mode {
                &&& outcome == ClickOutcome::Selected
                &&& is <==> if i == pos {
                    !was
                } else {
                    was
                }
                &&& final(canvas).last_selected == Some(pos)
                &&& final(canvas).select_mode
            } else {
                &&& outcome == (ClickOutcome::Activate { position: pos })
                &&& is == was
                &&& !final(canvas).select_mode
            }
        }),
{
}

/// A click with Ctrl and then one with Shift select the tiles between the two, both included, and
/// nothing else.
pub proof fn clicks_select_the_range_between(
    first: &mut MasonryCanvas,
    second: &mut MasonryCanvas,
    from: u32,
    to: u32,
    a: ClickOutcome,
    b: ClickOutcome,
    i: int,
)
    requires
        !old(first).drag_active,
        call_ensures(MasonryCanvas::handle_primary_click, (first, Some(from), true, false), a),
        *old(second) == *final(first),
        call_ensures(MasonryCanvas::handle_primary_click, (second, Some(to), false, true), b),
        0 <= i < old(first).selection.marks@.len(),
    ensures
        final(second).selection.marks@[i] <==> from <= i <= to || to <= i <= from,
{
}

/// A long press on one tile and a drag over others select the tiles from the first to the last one
/// touched, both included, whatever was touched in between; once the finger is lifted nothing more
/// is selected.
pub proof fn long_press_selects_the_range(
    pressed: &mut MasonryCanvas,
    moved: &mut MasonryCanvas,
    further: &mut MasonryCanvas,
    lifted: &mut MasonryCanvas,
    after: &mut MasonryCanvas,
    from: u32,
    via: u32,
    to: u32,
    other: u32,
    i: int,
)
    requires
        call_ensures(MasonryCanvas::begin_range_select, (pressed, Some(from)), ()),
        *old(moved) == *final(pressed),
        call_ensures(MasonryCanvas::update_range_select, (moved, Some(via)), ()),
        *old(further) == *final(moved),
        call_ensures(MasonryCanvas::update_range_select, (further, Some(to)), ()),
        *old(lifted) == *final(further),
        call_ensures(MasonryCanvas::end_range_select, (lifted,), ()),
        *old(after) == *final(lifted),
        call_ensures(MasonryCanvas::update_range_select, (after, Some(other)), ()),
        0 <= i < old(pressed).selection.marks@.len(),
    ensures
        final(pressed).selection.marks@[i] <==> old(pressed).selection.marks@[i] || i == from,
        final(pressed).select_mode,
        final(further).selection.marks@[i] <==> from <= i <= to || to <= i <= from,
        final(lifted).selection.marks@ == final(further).selection.marks@,
        final(after).selection.marks@ == final(further).selection.marks@,
{
}

/// The selected positions are listed in order, each once, and are as many as are counted.
pub proof fn positions_are_the_selected_ones(
    selection: &Selection,
    positions: Vec<u32>,
    count: usize,
    chosen: bool,
    p: u32,
)
    requires
        call_ensures(Selection::positions, (selection,), positions),
        call_ensures(Selection::count, (selection,), count),
        call_ensures(Selection::is_selected, (selection, p), chosen),
    ensures
        positions@.len() == count,
        positions@.contains(p) <==> chosen,
        chosen <==> p < selection.marks@.len() && selection.marks@[p as int],
        forall|a: int, b: int|
            0 <= a < b < positions@.len() ==> (#[trigger] positions@[a]) < (
            #[trigger] positions@[b]),
{
    let n = selection.marks@.len() as int;
    let found = selected_positions(selection.marks@, n);
    let ints = positions@.map_values(|p: u32| p as int);
    selected_positions_are_marked(selection.marks@, n);
    assert(ints.len() == positions@.len());
    assert(selection.marks@.take(n) =~= selection.marks@);
    if positions@.contains(p) {
        let a = positions@.index_of(p);
        assert(ints[a] == p);
        assert(found.contains(p as int));
    }
    if chosen {
        assert(found.contains(p as int));
        let a = found.index_of(p as int);
        assert(ints[a] == p as int);
        assert(positions@[a] == p);
    }
    assert forall|a: int, b: int| 0 <= a < b < positions@.len() implies (#[trigger] positions@[a])
        < (#[trigger] positions@[b]) by {
        assert(ints[a] < ints[b]);
    }
}

proof fn selected_positions_are_marked(marks: Seq<bool>, n: int)
    requires
        0 <= n <= marks.len(),
    ensures
        forall|p: int| #[trigger]
            selected_positions(marks, n).contains(p) <==> 0 <= p < n && marks[p],
        forall|a: int, b: int|
            0 <= a < b < selected_positions(marks, n).len() ==> selected_positions(marks, n)[a]
                < selected_positions(marks, n)[b],
        selected_positions(marks, n).len() == mark_count(marks.take(n)),
    decreases n,
{
    reveal(Seq::filter);
    if n > 0 {
        let before = selected_positions(marks, n - 1);
        let here = selected_positions(marks, n);
        selected_positions_are_marked(marks, n - 1);
        assert(marks.take(n).drop_last() =~= marks.take(n - 1));
        assert forall|p: int| #[trigger] here.contains(p) <==> 0 <= p < n && marks[p] by {
            if here.contains(p) {
                let a = here.index_of(p);
                if a < before.len() {
                    assert(before[a] == p);
                    assert(before.contains(p));
                }
            }
            if 0 <= p < n && marks[p] {
                if p < n - 1 {
                    assert(before.contains(p));
                    let a = before.index_of(p);
                    assert(here[a] == p);
                } else {
                    assert(here[before.len() as int] == p);
                }
            }
        }
        assert forall|a: int, b: int| 0 <= a < b < here.len() implies here[a] < here[b] by {
            if b == before.len() {
                assert(before.contains(before[a]));
            }
        }
    }
}

/// A thumbnail is loaded once at a time: a tile that is being loaded, or that failed, starts no load;
/// one that was loaded or whose load was cancelled may start another.
pub proof fn tile_is_loaded_once_at_a_time(
    asked: &mut MasonryCanvas,
    again: &mut MasonryCanvas,
    ended: &mut MasonryCanvas,
    retried: &mut MasonryCanvas,
    model: &mut LibraryAssetModel,
    id: &str,
    local_path: &str,
    size: ThumbnailSize,
    result: Result<(u32, u32), String>,
    first: Option<LoadRequest>,
    second: Option<LoadRequest>,
    finish: LoadFinish,
    third: Option<LoadRequest>,
)
    requires
        call_ensures(
            MasonryCanvas::queue_load_if_needed,
            (asked, id, local_path, size, false),
            first,
        ),
        first is Some,
        *old(again) == *final(asked),
        call_ensures(
            MasonryCanvas::queue_load_if_needed,
            (again, id, local_path, size, false),
            second,
        ),
        *old(ended) == *final(again),
        call_ensures(MasonryCanvas::finish_load, (ended, model, id, result), finish),
        *old(retried) == *final(ended),
        call_ensures(
            MasonryCanvas::queue_load_if_needed,
            (retried, id, local_path, size, false),
            third,
        ),
    ensures
        first->0.asset_id@ == id@,
        first->0.bucket == size,
        second is None,
        third is Some <==> result is Ok || result->Err_0@ == "cancelled"@,
{
    let before = text::views(old(asked).pending@);
    let during = text::views(final(asked).pending@);
    assert(during[before.len() as int] == id@);
    assert(during.contains(id@));
    let keep = |s: String| s@ != id@;
    let left = final(ended).pending@;
    seqs::filter_contents(old(ended).pending@, keep);
    assert(!text::views(left).contains(id@)) by {
        if text::views(left).contains(id@) {
            let k = text::views(left).index_of(id@);
            assert(left.contains(left[k]));
            assert(keep(left[k]));
        }
    }
    let failed = text::views(old(ended).failed@);
    if result is Err && result->Err_0@ != "cancelled"@ && !failed.contains(id@) {
        let now = text::views(final(ended).failed@);
        assert(now[failed.len() as int] == id@);
    }
}

/// A drag carries files that can be had: in select mode those of the selected tiles, in order; where
/// there are none, or outside select mode, that of the tile under the pointer.
pub proof fn drag_carries_what_can_be_had(
    canvas: &MasonryCanvas,
    available: &Vec<bool>,
    hit: Option<u32>,
    r: Vec<u32>,
    p: u32,
)
    requires
        available@.len() == canvas.selection.marks@.len(),
        call_ensures(collect_drag_files, (canvas, available, hit), r),
    ensures
        r@.contains(p) ==> p < available@.len() && available@[p as int],
        ({
            if canvas.select_mode && exists|x: int|
                0 <= x < available@.len() && (#[trigger] canvas.selection.marks@[x])
                    && available@[x] {
                r@.contains(p) <==> p < available@.len() && canvas.selection.marks@[p as int]
                    && available@[p as int]
            } else {
                r@.contains(p) <==> hit == Some(p) && p < available@.len() && available@[p as int]
            }
        }),
{
    let n = available@.len() as int;
    let marks = canvas.selection.marks@;
    let found = dragged_positions(marks, available@, n);
    let ints = r@.map_values(|p: u32| p as int);
    dragged_positions_are_marked(marks, available@, n);
    if exists|x: int| 0 <= x < n && (#[trigger] marks[x]) && available@[x] {
        let x = choose|x: int| 0 <= x < n && (#[trigger] marks[x]) && available@[x];
        assert(found.contains(x));
    }
    if found.len() > 0 {
        assert(found.contains(found[0]));
        assert(marks[found[0]] && available@[found[0]]);
    }
    assert(r@.contains(p) <==> ints.contains(p as int)) by {
        if r@.contains(p) {
            let a = r@.index_of(p);
            assert(ints[a] == p as int);
        }
        if ints.contains(p as int) {
            let a = ints.index_of(p as int);
            assert(r@[a] == p);
        }
    }
    if hit is Some {
        let one = seq![hit->0 as int];
        assert(one.contains(p as int) <==> hit->0 == p) by {
            assert(one[0] == hit->0 as int);
        }
    }
}

proof fn dragged_positions_are_marked(marks: Seq<bool>, available: Seq<bool>, n: int)
    requires
        0 <= n <= marks.len(),
        marks.len() == available.len(),
    ensures
        forall|p: int| #[trigger]
            dragged_positions(marks, available, n).contains(p) <==> 0 <= p < n && marks[p]
                && available[p],
    decreases n,
{
    if n > 0 {
        let before = dragged_positions(marks, available, n - 1);
        let here = dragged_positions(marks, available, n);
        dragged_positions_are_marked(marks, available, n - 1);
        assert forall|p: int| #[trigger]
            here.contains(p) <==> 0 <= p < n && marks[p] && available[p] by {
            if here.contains(p) {
                let a = here.index_of(p);
                if a < before.len() {
                    assert(before[a] == p);
                    assert(before.contains(p));
                }
            }
            if 0 <= p < n && marks[p] && available[p] {
                if p < n - 1 {
                    assert(before.contains(p));
                    let a = before.index_of(p);
                    assert(here[a] == p);
                } else {
                    assert(here[before.len() as int] == p);
                }
            }
        }
    }
}

/// The pixel size of a loaded image is entered in the first row of the asset where it was unknown;
/// every other row, and everything else in it, stays as it is.
pub proof fn size_is_entered_where_unknown(
    model: &mut LibraryAssetModel,
    id: &str,
    w: u32,
    h: u32,
    changed: bool,
    i: int,
)
    requires
        call_ensures(propagate_dimensions, (model, id, w, h), changed),
        0 <= i < old(model).items@.len(),
    ensures
        final(model).items@.len() == old(model).items@.len(),
        ({
            let was = old(model).items@[i];
            let is = final(model).items@[i];
            let first = was.id@ == id@ && forall|k: int|
                0 <= k < i ==> (#[trigger] old(model).items@[k]).id@ != id@;
            &&& first && (was.width == 0 || was.height == 0) ==> is.width == w && is.height == h
                && changed
            &&& first && was.width > 0 && was.height > 0 ==> is == was && !changed
            &&& !first ==> is == was
            &&& is.id@ == was.id@ && is.local_path@ == was.local_path@
        }),
{
    let items = old(model).items@;
    first_position_is_first(items, id@);
}

proof fn first_position_is_first(items: Seq<AssetObject>, id: Seq<char>)
    ensures
        ({
            let at = first_position(items, id);
            &&& 0 <= at <= items.len()
            &&& at < items.len() ==> items[at].id@ == id
            &&& forall|k: int| 0 <= k < at ==> (#[trigger] items[k]).id@ != id
        }),
    decreases items.len(),
{
    if items.len() > 0 && items[0].id@ != id {
        let rest = items.drop_first();
        first_position_is_first(rest, id);
        let at = first_position(rest, id);
        assert forall|k: int| 0 <= k < at + 1 implies (#[trigger] items[k]).id@ != id by {
            if k > 0 {
                assert(rest[k - 1] == items[k]);
            }
        }
        if at < rest.len() {
            assert(rest[at] == items[at + 1]);
        }
    }
}

} // verus!
