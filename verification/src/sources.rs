//! Sources of the photo grid: what each one asks the server and the disk for, how the controls
//! choose between them, and how the window follows.
use vstd::prelude::*;
use vstd::string::*;
use crate::api::LibraryAsset;
use crate::local_source::{filter_by_filename, LocalAsset};
use crate::merge;
use crate::merge::local_rows;
use crate::path;
use crate::sync_index::SyncIndex;
use crate::text;
use crate::text::{contains_text, owned, trim};

verus! {

/// The conditions of a metadata search.
#[derive(Debug, PartialEq, Eq)]
pub struct MetadataSearchFilters {
    pub original_file_name: Option<String>,
    pub description: Option<String>,
    pub ocr: Option<String>,
    pub asset_type: Option<String>,
    pub taken_after: Option<String>,
    pub taken_before: Option<String>,
    pub make: Option<String>,
    pub model: Option<String>,
    pub lens_model: Option<String>,
    pub country: Option<String>,
    pub state: Option<String>,
    pub city: Option<String>,
    pub is_favorite: Option<bool>,
    pub is_archived: Option<bool>,
    pub is_motion: Option<bool>,
    pub is_not_in_album: Option<bool>,
    pub is_trashed: Option<bool>,
    pub with_exif: Option<bool>,
    pub with_deleted: Option<bool>,
    pub person_ids: Option<Vec<String>>,
    pub tag_ids: Option<Vec<String>>,
    pub order: Option<String>,
}

/// A search without conditions.
pub open spec fn no_filters() -> MetadataSearchFilters {
    MetadataSearchFilters {
        original_file_name: None,
        description: None,
        ocr: None,
        asset_type: None,
        taken_after: None,
        taken_before: None,
        make: None,
        model: None,
        lens_model: None,
        country: None,
        state: None,
        city: None,
        is_favorite: None,
        is_archived: None,
        is_motion: None,
        is_not_in_album: None,
        is_trashed: None,
        with_exif: None,
        with_deleted: None,
        person_ids: None,
        tag_ids: None,
        order: None,
    }
}

impl Default for MetadataSearchFilters {
    fn default() -> (r: Self)
        ensures
            r == no_filters(),
    {
        MetadataSearchFilters {
            original_file_name: None,
            description: None,
            ocr: None,
            asset_type: None,
            taken_after: None,
            taken_before: None,
            make: None,
            model: None,
            lens_model: None,
            country: None,
            state: None,
            city: None,
            is_favorite: None,
            is_archived: None,
            is_motion: None,
            is_not_in_album: None,
            is_trashed: None,
            with_exif: None,
            with_deleted: None,
            person_ids: None,
            tag_ids: None,
            order: None,
        }
    }
}

/// What the photo grid shows.
#[derive(Debug, PartialEq, Eq)]
pub enum LibrarySource {
    AllAssets,
    Timeline,
    Explore,
    Galleries,
    Album { id: String, name: String },
    AlbumLocal { id: String, name: String },
    AlbumUnified { id: String, name: String },
    SmartSearch { query: String },
    OcrSearch { query: String },
    MetadataSearch { query: String },
    AdvancedSearch { filters: Box<MetadataSearchFilters> },
    LocalAll,
    LocalSearch { query: String },
    Unified,
    UnifiedSearch { query: String },
}

/// A request to the server for a page of assets.
#[derive(Debug, PartialEq, Eq)]
pub enum RemoteQuery {
    /// Search by file name and metadata; an empty query finds everything.
    Metadata { query: String, order: Option<String> },
    AlbumAssets { album_id: String, order: Option<String> },
    /// Search by content; the server ranks the results itself.
    Smart { query: String },
    /// Search by text inside images.
    Ocr { query: String, order: Option<String> },
    Filtered { filters: Box<MetadataSearchFilters> },
}

/// How a page of a source comes about.
#[derive(Debug, PartialEq, Eq)]
pub enum PagePlan {
    /// The source is no grid: show the explore landing page.
    ExploreLanding,
    /// The server's page as it is.
    Remote { query: RemoteQuery },
    /// The local files, or those whose name matches.
    LocalFiles { search: Option<String> },
    /// The files of the folder linked to an album.
    LinkedFiles { album_name: String },
    /// Nothing: local files make up one page.
    NoMore,
    /// The server's page with the local files it does not cover.
    Unified { query: RemoteQuery, search: Option<String> },
    /// The server's page with the unbacked files of the galleries.
    Galleries { query: RemoteQuery },
    /// The album's page with the files of its linked folder.
    AlbumUnified { query: RemoteQuery, album_name: String },
}

/// The query is a metadata search for the given text.
pub open spec fn is_metadata(query: RemoteQuery, wanted: Seq<char>, order: Option<String>) -> bool {
    query matches RemoteQuery::Metadata { query: q, order: o } && q@ == wanted && o == order
}

/// The plan is the one for a page of a source, with the given server order.
pub open spec fn is_plan_for(
    plan: PagePlan,
    source: LibrarySource,
    page: u32,
    order: Option<String>,
) -> bool {
    match source {
        LibrarySource::Explore => plan == PagePlan::ExploreLanding,
        LibrarySource::AllAssets | LibrarySource::Timeline => plan matches PagePlan::Remote {
            query,
        } && is_metadata(query, ""@, order),
        LibrarySource::Album { id, name } => plan == (PagePlan::Remote {
            query: RemoteQuery::AlbumAssets { album_id: id, order },
        }),
        LibrarySource::SmartSearch { query } => plan == (PagePlan::Remote {
            query: RemoteQuery::Smart { query },
        }),
        LibrarySource::OcrSearch { query } => plan == (PagePlan::Remote {
            query: RemoteQuery::Ocr { query, order },
        }),
        LibrarySource::MetadataSearch { query } => plan == (PagePlan::Remote {
            query: RemoteQuery::Metadata { query, order },
        }),
        LibrarySource::AdvancedSearch { filters } => plan == (PagePlan::Remote {
            query: RemoteQuery::Filtered {
                filters: Box::new(MetadataSearchFilters { order, ..*filters }),
            },
        }),
        LibrarySource::LocalAll => if page > 1 {
            plan == PagePlan::NoMore
        } else {
            plan == (PagePlan::LocalFiles { search: None })
        },
        LibrarySource::LocalSearch { query } => if page > 1 {
            plan == PagePlan::NoMore
        } else {
            plan == (PagePlan::LocalFiles { search: Some(query) })
        },
        LibrarySource::AlbumLocal { id, name } => if page > 1 {
            plan == PagePlan::NoMore
        } else {
            plan == (PagePlan::LinkedFiles { album_name: name })
        },
        LibrarySource::Unified => plan matches PagePlan::Unified { query, search } && search is None
            && is_metadata(query, ""@, order),
        LibrarySource::UnifiedSearch { query } => plan matches PagePlan::Unified {
            query: q,
            search,
        } && search == Some(query) && is_metadata(q, query@, order),
        LibrarySource::Galleries => plan matches PagePlan::Galleries { query } && is_metadata(
            query,
            ""@,
            order,
        ),
        LibrarySource::AlbumUnified { id, name } => plan == (PagePlan::AlbumUnified {
            query: RemoteQuery::AlbumAssets { album_id: id, order },
            album_name: name,
        }),
    }
}

/// How to load a page of a source.
pub fn plan_source_page(source: LibrarySource, page: u32, order: Option<String>) -> (r: PagePlan)
    ensures
        is_plan_for(r, source, page, order),
{
    match source {
        LibrarySource::Explore => PagePlan::ExploreLanding,
        LibrarySource::AllAssets | LibrarySource::Timeline => {
            PagePlan::Remote { query: RemoteQuery::Metadata { query: owned(""), order } }
        },
        LibrarySource::Album { id, name: _ } => {
            PagePlan::Remote { query: RemoteQuery::AlbumAssets { album_id: id, order } }
        },
        LibrarySource::SmartSearch { query } => {
            PagePlan::Remote { query: RemoteQuery::Smart { query } }
        },
        LibrarySource::OcrSearch { query } => {
            PagePlan::Remote { query: RemoteQuery::Ocr { query, order } }
        },
        LibrarySource::MetadataSearch { query } => {
            PagePlan::Remote { query: RemoteQuery::Metadata { query, order } }
        },
        LibrarySource::AdvancedSearch { filters } => {
            let mut all: MetadataSearchFilters = *filters;
            all.order = order;
            PagePlan::Remote { query: RemoteQuery::Filtered { filters: Box::new(all) } }
        },
        LibrarySource::LocalAll => {
            if page > 1 {
                PagePlan::NoMore
            } else {
                PagePlan::LocalFiles { search: None }
            }
        },
        LibrarySource::LocalSearch { query } => {
            if page > 1 {
                PagePlan::NoMore
            } else {
                PagePlan::LocalFiles { search: Some(query) }
            }
        },
        LibrarySource::AlbumLocal { id: _, name } => {
            if page > 1 {
                PagePlan::NoMore
            } else {
                PagePlan::LinkedFiles { album_name: name }
            }
        },
        LibrarySource::Unified => {
            PagePlan::Unified {
                query: RemoteQuery::Metadata { query: owned(""), order },
                search: None,
            }
        },
        LibrarySource::UnifiedSearch { query } => {
            PagePlan::Unified {
                query: RemoteQuery::Metadata { query: query.clone(), order },
                search: Some(query),
            }
        },
        LibrarySource::Galleries => {
            PagePlan::Galleries { query: RemoteQuery::Metadata { query: owned(""), order } }
        },
        LibrarySource::AlbumUnified { id, name } => {
            PagePlan::AlbumUnified {
                query: RemoteQuery::AlbumAssets { album_id: id, order },
                album_name: name,
            }
        },
    }
}

/// The single page of a local source: the rows of the files whose name matches, nothing after it.
pub fn local_page(locals: Vec<LocalAsset>, search: Option<&str>) -> (r: (Vec<LibraryAsset>, bool))
    ensures
        merge::are_rows_of(
            r.0@,
            merge::searched(
                locals@,
                match search {
                    Some(q) => Some(q@),
                    None => None,
                },
            ),
        ),
        !r.1,
{
    let wanted: Vec<LocalAsset> = match search {
        Some(q) => filter_by_filename(locals, q),
        None => locals,
    };
    (local_rows(&wanted), false)
}

/// What becomes of the grid when a page has arrived.
#[derive(Clone, Copy, Debug, PartialEq, Eq, Structural)]
pub enum GridUpdate {
    /// The page belongs to a source that was left meanwhile.
    Dropped,
    /// The page was added at the end.
    Extend,
    /// The page is the new content.
    Reset,
}

/// What becomes of the grid when a page has arrived; `applied` is false for an outdated page.
pub fn grid_update(append: bool, applied: bool) -> (r: GridUpdate)
    ensures
        r == if !applied {
            GridUpdate::Dropped
        } else if append {
            GridUpdate::Extend
        } else {
            GridUpdate::Reset
        },
{
    if !applied {
        GridUpdate::Dropped
    } else if append {
        GridUpdate::Extend
    } else {
        GridUpdate::Reset
    }
}

/// The message for a page that could not be loaded.
pub fn load_error_message(err: &str) -> (r: String)
    ensures
        r@ == "Could not load library assets: "@ + err@,
{
    text::concat2("Could not load library assets: ", err)
}

/// The album a source belongs to: id and name.
pub open spec fn album_of(source: LibrarySource) -> Option<(String, String)> {
    match source {
        LibrarySource::Album { id, name } => Some((id, name)),
        LibrarySource::AlbumLocal { id, name } => Some((id, name)),
        LibrarySource::AlbumUnified { id, name } => Some((id, name)),
        _ => None,
    }
}

/// The album whose assets a source shows.
pub fn current_album(source: &LibrarySource) -> (r: Option<(String, String)>)
    ensures
        r == album_of(*source),
{
    match source {
        LibrarySource::Album { id, name } => Some((id.clone(), name.clone())),
        LibrarySource::AlbumLocal { id, name } => Some((id.clone(), name.clone())),
        LibrarySource::AlbumUnified { id, name } => Some((id.clone(), name.clone())),
        _ => None,
    }
}

/// The entry of the source dropdown for local files.
pub const MODE_LOCAL: u32 = 1;

/// The entry of the source dropdown for the unified view.
pub const MODE_UNIFIED: u32 = 2;

/// The source that an entry of the source dropdown selects, within the album if there is one.
pub open spec fn source_for(
    mode: u32,
    album: Option<(String, String)>,
    timeline_active: bool,
) -> LibrarySource {
    match album {
        Some((id, name)) => if mode == MODE_LOCAL {
            LibrarySource::AlbumLocal { id, name }
        } else if mode == MODE_UNIFIED {
            LibrarySource::AlbumUnified { id, name }
        } else {
            LibrarySource::Album { id, name }
        },
        None => if mode == MODE_LOCAL {
            LibrarySource::LocalAll
        } else if mode == MODE_UNIFIED {
            LibrarySource::Unified
        } else if timeline_active {
            LibrarySource::Timeline
        } else {
            LibrarySource::AllAssets
        },
    }
}

/// The source after a choice in the source dropdown.
pub fn source_for_mode(mode: u32, current: &LibrarySource, timeline_active: bool) -> (r:
    LibrarySource)
    ensures
        r == source_for(mode, album_of(*current), timeline_active),
{
    match current_album(current) {
        Some((id, name)) => {
            if mode == MODE_LOCAL {
                LibrarySource::AlbumLocal { id, name }
            } else if mode == MODE_UNIFIED {
                LibrarySource::AlbumUnified { id, name }
            } else {
                LibrarySource::Album { id, name }
            }
        },
        None => {
            if mode == MODE_LOCAL {
                LibrarySource::LocalAll
            } else if mode == MODE_UNIFIED {
                LibrarySource::Unified
            } else if timeline_active {
                LibrarySource::Timeline
            } else {
                LibrarySource::AllAssets
            }
        },
    }
}

/// What a tap on the timeline toggle leads to.
#[derive(Debug, PartialEq, Eq)]
pub enum TimelineSwitch {
    /// Nothing changes.
    Stay,
    /// The toggle goes back to off: the source has no timeline.
    Refuse,
    /// The grid goes to another source.
    Go { source: LibrarySource },
}

/// What a tap on the timeline toggle leads to. Only the list of all assets and the timeline itself
/// can be switched.
pub fn timeline_switch(sensitive: bool, active: bool, current: &LibrarySource) -> (r:
    TimelineSwitch)
    ensures
        !sensitive ==> r == TimelineSwitch::Stay,
        sensitive ==> match *current {
            LibrarySource::AllAssets => r == if active {
                (TimelineSwitch::Go { source: LibrarySource::Timeline })
            } else {
                TimelineSwitch::Stay
            },
            LibrarySource::Timeline => r == if active {
                TimelineSwitch::Stay
            } else {
                (TimelineSwitch::Go { source: LibrarySource::AllAssets })
            },
            _ => r == TimelineSwitch::Refuse,
        },
{
    if !sensitive {
        return TimelineSwitch::Stay;
    }
    match current {
        LibrarySource::AllAssets => {
            if active {
                TimelineSwitch::Go { source: LibrarySource::Timeline }
            } else {
                TimelineSwitch::Stay
            }
        },
        LibrarySource::Timeline => {
            if active {
                TimelineSwitch::Stay
            } else {
                TimelineSwitch::Go { source: LibrarySource::AllAssets }
            }
        },
        _ => TimelineSwitch::Refuse,
    }
}

/// The source is the search for a text in the given dropdown modes.
pub open spec fn is_search_for(
    source: LibrarySource,
    source_mode: u32,
    search_mode: u32,
    wanted: Seq<char>,
) -> bool {
    if source_mode == MODE_LOCAL {
        source matches LibrarySource::LocalSearch { query } && query@ == wanted
    } else if source_mode == MODE_UNIFIED {
        source matches LibrarySource::UnifiedSearch { query } && query@ == wanted
    } else if search_mode == 1 {
        source matches LibrarySource::SmartSearch { query } && query@ == wanted
    } else if search_mode == 2 {
        source matches LibrarySource::OcrSearch { query } && query@ == wanted
    } else {
        source matches LibrarySource::MetadataSearch { query } && query@ == wanted
    }
}

/// The source of a search typed into the search field; a blank text searches for nothing.
pub fn search_source(typed: &str, source_mode: u32, search_mode: u32) -> (r: Option<LibrarySource>)
    ensures
        r is None <==> text::trimmed(typed@).len() == 0,
        r matches Some(source) ==> is_search_for(
            source,
            source_mode,
            search_mode,
            text::trimmed(typed@),
        ),
{
    let query: String = trim(typed);
    if query.as_str().is_empty() {
        return None;
    }
    Some(
        if source_mode == MODE_LOCAL {
            LibrarySource::LocalSearch { query }
        } else if source_mode == MODE_UNIFIED {
            LibrarySource::UnifiedSearch { query }
        } else if search_mode == 1 {
            LibrarySource::SmartSearch { query }
        } else if search_mode == 2 {
            LibrarySource::OcrSearch { query }
        } else {
            LibrarySource::MetadataSearch { query }
        },
    )
}

/// The placeholder of the search field for an entry of the search-mode dropdown.
pub fn search_placeholder(search_mode: u32) -> (r: &'static str)
    ensures
        r@ == if search_mode == 1 {
            "Describe what you're looking for\u{2026}"@
        } else if search_mode == 2 {
            "Find words shown inside images"@
        } else {
            "Search filenames"@
        },
{
    if search_mode == 1 {
        "Describe what you're looking for\u{2026}"
    } else if search_mode == 2 {
        "Find words shown inside images"
    } else {
        "Search filenames"
    }
}

/// The order of the photo grid.
#[derive(Clone, Copy, Debug, PartialEq, Eq, Structural)]
pub enum LibrarySortMode {
    NewestFirst,
    OldestFirst,
    Filename,
    FileType,
}

/// The order for an entry of the sort dropdown.
pub fn sort_mode_for(selected: u32) -> (r: LibrarySortMode)
    ensures
        r == if selected == 1 {
            LibrarySortMode::Filename
        } else if selected == 2 {
            LibrarySortMode::FileType
        } else {
            LibrarySortMode::NewestFirst
        },
{
    if selected == 1 {
        LibrarySortMode::Filename
    } else if selected == 2 {
        LibrarySortMode::FileType
    } else {
        LibrarySortMode::NewestFirst
    }
}

/// The source shows local files only.
pub open spec fn is_local_source(source: LibrarySource) -> bool {
    source is LocalAll || source is LocalSearch || source is AlbumLocal
}

/// The source shows local and remote assets together.
pub open spec fn is_unified_source(source: LibrarySource) -> bool {
    source is Unified || source is UnifiedSearch || source is AlbumUnified
}

/// How the header controls stand for a source.
#[derive(Clone, Copy, Debug, PartialEq, Eq, Structural)]
pub struct HeaderState {
    pub timeline_allowed: bool,
    /// The timeline toggle and its banner are on, and the sort goes back to newest first.
    pub timeline_active: bool,
    /// The search mode and the filters button are shown.
    pub remote_search_visible: bool,
    /// The search mode goes back to its first entry.
    pub reset_search_mode: bool,
    /// The source dropdown is shown.
    pub source_visible: bool,
    /// The entry the source dropdown shows.
    pub source_entry: u32,
    /// Uploads go to the album.
    pub uploads_to_album: bool,
}

/// How the header controls stand for a source, in a narrow window or a wide one.
pub fn header_state(source: &LibrarySource, narrow: bool) -> (r: HeaderState)
    ensures
        r.timeline_allowed == (*source is AllAssets || *source is Galleries || *source is Timeline),
        r.timeline_active == (*source is Timeline),
        r.remote_search_visible == (!is_local_source(*source) && !is_unified_source(*source)
            && !narrow),
        r.reset_search_mode == (is_local_source(*source) || is_unified_source(*source)),
        r.source_visible == (album_of(*source) is Some),
        r.uploads_to_album == (album_of(*source) is Some),
        r.source_entry == if is_local_source(*source) {
            MODE_LOCAL
        } else if is_unified_source(*source) {
            MODE_UNIFIED
        } else {
            0
        },
{
    let timeline_active: bool = matches!(source, LibrarySource::Timeline);
    let timeline_allowed: bool = timeline_active || matches!(source, LibrarySource::AllAssets)
        || matches!(source, LibrarySource::Galleries);
    let local: bool = match source {
        LibrarySource::LocalAll => true,
        LibrarySource::LocalSearch { query: _ } => true,
        LibrarySource::AlbumLocal { id: _, name: _ } => true,
        _ => false,
    };
    let unified: bool = match source {
        LibrarySource::Unified => true,
        LibrarySource::UnifiedSearch { query: _ } => true,
        LibrarySource::AlbumUnified { id: _, name: _ } => true,
        _ => false,
    };
    let in_album: bool = match source {
        LibrarySource::Album { id: _, name: _ } => true,
        LibrarySource::AlbumLocal { id: _, name: _ } => true,
        LibrarySource::AlbumUnified { id: _, name: _ } => true,
        _ => false,
    };
    HeaderState {
        timeline_allowed,
        timeline_active,
        remote_search_visible: !local && !unified && !narrow,
        reset_search_mode: local || unified,
        source_visible: in_album,
        source_entry: if local {
            MODE_LOCAL
        } else if unified {
            MODE_UNIFIED
        } else {
            0
        },
        uploads_to_album: in_album,
    }
}

/// The source dropdown shows the entry that leads to the source it stands for.
pub proof fn source_entry_leads_back(source: LibrarySource, timeline_active: bool)
    requires
        album_of(source) is Some || source is LocalAll || source is Unified || (source is Timeline
            && timeline_active) || (source is AllAssets && !timeline_active),
    ensures
        source_for(
            if is_local_source(source) {
                MODE_LOCAL
            } else if is_unified_source(source) {
                MODE_UNIFIED
            } else {
                0
            },
            album_of(source),
            timeline_active,
        ) == source,
{
}

/// Switching the source dropdown never leaves the album.
pub proof fn mode_keeps_album(mode: u32, source: LibrarySource, timeline_active: bool)
    ensures
        album_of(source_for(mode, album_of(source), timeline_active)) == album_of(source),
{
}

/// How far the content of the grid has come.
#[derive(Debug, PartialEq, Eq)]
pub enum LibraryLoadState {
    Idle,
    Loading,
    Loaded,
    Empty,
    Error { message: String },
}

/// What stands in place of the grid.
#[derive(Debug, PartialEq, Eq)]
pub enum ContentState {
    Loading,
    Content,
    Empty,
    Error { message: String },
}

/// What stands in place of the grid for a load state.
pub fn content_state(state: LibraryLoadState) -> (r: ContentState)
    ensures
        r == match state {
            LibraryLoadState::Idle => ContentState::Loading,
            LibraryLoadState::Loading => ContentState::Loading,
            LibraryLoadState::Loaded => ContentState::Content,
            LibraryLoadState::Empty => ContentState::Empty,
            LibraryLoadState::Error { message } => ContentState::Error { message },
        },
{
    match state {
        LibraryLoadState::Idle => ContentState::Loading,
        LibraryLoadState::Loading => ContentState::Loading,
        LibraryLoadState::Loaded => ContentState::Content,
        LibraryLoadState::Empty => ContentState::Empty,
        LibraryLoadState::Error { message } => ContentState::Error { message },
    }
}

/// A quick chip of the search page.
#[derive(Clone, Copy, Debug, PartialEq, Eq, Structural)]
pub enum MediaChip {
    Videos,
    Favorites,
    NotInAlbum,
    Screenshots,
}

/// An action card of the library page.
#[derive(Clone, Copy, Debug, PartialEq, Eq, Structural)]
pub enum LibraryAction {
    Favorites,
    Archived,
    Trash,
}

/// A page to open: its title and its source.
#[derive(Debug, PartialEq, Eq)]
pub struct DrillTarget {
    pub title: String,
    pub source: LibrarySource,
}

/// The page of a quick chip.
pub fn media_chip_target(chip: MediaChip) -> (r: DrillTarget)
    ensures
        r.title@ == match chip {
            MediaChip::Videos => "Videos"@,
            MediaChip::Favorites => "Favorites"@,
            MediaChip::NotInAlbum => "Not in an album"@,
            MediaChip::Screenshots => "Screenshots"@,
        },
        match chip {
            MediaChip::Videos => r.source matches LibrarySource::AdvancedSearch { filters }
                && filters.asset_type matches Some(t) && t@ == "VIDEO"@ && *filters == (
            MetadataSearchFilters { asset_type: filters.asset_type, ..no_filters() }),
            MediaChip::Favorites => r.source == (LibrarySource::AdvancedSearch {
                filters: Box::new(
                    MetadataSearchFilters { is_favorite: Some(true), ..no_filters() },
                ),
            }),
            MediaChip::NotInAlbum => r.source == (LibrarySource::AdvancedSearch {
                filters: Box::new(
                    MetadataSearchFilters { is_not_in_album: Some(true), ..no_filters() },
                ),
            }),
            MediaChip::Screenshots => r.source matches LibrarySource::SmartSearch { query }
                && query@ == "screenshot"@,
        },
{
    let mut filters: MetadataSearchFilters = MetadataSearchFilters::default();
    match chip {
        MediaChip::Videos => {
            filters.asset_type = Some(owned("VIDEO"));
            DrillTarget {
                title: owned("Videos"),
                source: LibrarySource::AdvancedSearch { filters: Box::new(filters) },
            }
        },
        MediaChip::Favorites => {
            filters.is_favorite = Some(true);
            DrillTarget {
                title: owned("Favorites"),
                source: LibrarySource::AdvancedSearch { filters: Box::new(filters) },
            }
        },
        MediaChip::NotInAlbum => {
            filters.is_not_in_album = Some(true);
            DrillTarget {
                title: owned("Not in an album"),
                source: LibrarySource::AdvancedSearch { filters: Box::new(filters) },
            }
        },
        MediaChip::Screenshots => DrillTarget {
            title: owned("Screenshots"),
            source: LibrarySource::SmartSearch { query: owned("screenshot") },
        },
    }
}

/// The page of an action card.
pub fn library_action_target(action: LibraryAction) -> (r: DrillTarget)
    ensures
        r.title@ == match action {
            LibraryAction::Favorites => "Favorites"@,
            LibraryAction::Archived => "Archived"@,
            LibraryAction::Trash => "Trash"@,
        },
        r.source == (LibrarySource::AdvancedSearch {
            filters: Box::new(
                match action {
                    LibraryAction::Favorites => MetadataSearchFilters {
                        is_favorite: Some(true),
                        ..no_filters()
                    },
                    LibraryAction::Archived => MetadataSearchFilters {
                        is_archived: Some(true),
                        ..no_filters()
                    },
                    LibraryAction::Trash => MetadataSearchFilters {
                        is_trashed: Some(true),
                        with_deleted: Some(true),
                        ..no_filters()
                    },
                },
            ),
        }),
{
    let mut filters: MetadataSearchFilters = MetadataSearchFilters::default();
    let title: &'static str = match action {
        LibraryAction::Favorites => {
            filters.is_favorite = Some(true);
            "Favorites"
        },
        LibraryAction::Archived => {
            filters.is_archived = Some(true);
            "Archived"
        },
        LibraryAction::Trash => {
            filters.is_trashed = Some(true);
            filters.with_deleted = Some(true);
            "Trash"
        },
    };
    DrillTarget {
        title: owned(title),
        source: LibrarySource::AdvancedSearch { filters: Box::new(filters) },
    }
}

/// The source of a person's photos.
pub fn person_source(person_id: String) -> (r: LibrarySource)
    ensures
        r matches LibrarySource::AdvancedSearch { filters } && filters.person_ids matches Some(ids)
            && ids@ == seq![person_id] && *filters == (MetadataSearchFilters {
            person_ids: filters.person_ids,
            ..no_filters()
        }),
{
    let mut filters: MetadataSearchFilters = MetadataSearchFilters::default();
    let mut ids: Vec<String> = Vec::new();
    ids.push(person_id);
    filters.person_ids = Some(ids);
    LibrarySource::AdvancedSearch { filters: Box::new(filters) }
}

/// The source of a place's photos.
pub fn place_source(city: String) -> (r: LibrarySource)
    ensures
        r == (LibrarySource::AdvancedSearch {
            filters: Box::new(MetadataSearchFilters { city: Some(city), ..no_filters() }),
        }),
{
    let mut filters: MetadataSearchFilters = MetadataSearchFilters::default();
    filters.city = Some(city);
    LibrarySource::AdvancedSearch { filters: Box::new(filters) }
}

/// What a tap on an explore item leads to.
#[derive(Debug, PartialEq, Eq)]
pub enum ExploreTap {
    /// A recent item opens in the viewer.
    OpenAsset { asset_id: String },
    /// Anything else opens a search for it.
    Search { query: String },
}

/// What a tap on an explore item leads to.
pub fn explore_tap(kind: &str, value: String, asset_id: String) -> (r: ExploreTap)
    ensures
        r == if kind@ == "recent"@ {
            (ExploreTap::OpenAsset { asset_id })
        } else {
            (ExploreTap::Search { query: value })
        },
{
    if text::same_text(kind, "recent") {
        ExploreTap::OpenAsset { asset_id }
    } else {
        ExploreTap::Search { query: value }
    }
}

/// Whether an error says that the API key lacks a permission.
pub fn is_permission_error(err: &str) -> (r: bool)
    ensures
        r == (text::occurs_in(err@, "HTTP 401"@) || text::occurs_in(err@, "HTTP 403"@)),
{
    contains_text(err, "HTTP 401") || contains_text(err, "HTTP 403")
}

/// The pages of the window.
#[derive(Clone, Copy, Debug, PartialEq, Eq, Structural)]
pub enum Tab {
    Photos,
    Search,
    Albums,
    Library,
}

/// Which header buttons a page shows.
#[derive(Clone, Copy, Debug, PartialEq, Eq, Structural)]
pub struct HeaderActions {
    pub upload: bool,
    pub backup: bool,
    pub new_album: bool,
}

/// Which header buttons a page shows: upload and backup with the photos, "New album" with the
/// albums.
pub fn sync_header_actions(tab: Tab) -> (r: HeaderActions)
    ensures
        r.upload == (tab == Tab::Photos),
        r.backup == (tab == Tab::Photos),
        r.new_album == (tab == Tab::Albums),
{
    let photos: bool = matches!(tab, Tab::Photos);
    let albums: bool = matches!(tab, Tab::Albums);
    HeaderActions { upload: photos, backup: photos, new_album: albums }
}

/// What has to be fetched when a page comes to the front.
#[derive(Clone, Copy, Debug, PartialEq, Eq, Structural)]
pub enum TabAction {
    Nothing,
    ShowAlbums,
    FetchAlbums,
    LoadExplore,
    LoadSearch,
}

/// What happens when a page comes to the front; the albums are fetched on the first visit only.
pub fn tab_action(tab: Tab, albums_populated: bool) -> (r: TabAction)
    ensures
        r == match tab {
            Tab::Photos => TabAction::Nothing,
            Tab::Search => TabAction::LoadSearch,
            Tab::Library => TabAction::LoadExplore,
            Tab::Albums => if albums_populated {
                TabAction::ShowAlbums
            } else {
                TabAction::FetchAlbums
            },
        },
{
    match tab {
        Tab::Photos => TabAction::Nothing,
        Tab::Search => TabAction::LoadSearch,
        Tab::Library => TabAction::LoadExplore,
        Tab::Albums => {
            if albums_populated {
                TabAction::ShowAlbums
            } else {
                TabAction::FetchAlbums
            }
        },
    }
}

/// The name a profile shows: the user's name, else the mail address; none where both are empty.
pub fn profile_name(name: &str, email: &str) -> (r: Option<String>)
    ensures
        path::opt_view(r) == if name@.len() > 0 {
            Some(name@)
        } else if email@.len() > 0 {
            Some(email@)
        } else {
            None
        },
{
    if !name.is_empty() {
        Some(owned(name))
    } else if !email.is_empty() {
        Some(owned(email))
    } else {
        None
    }
}

/// The name of a new album: what was typed, trimmed; none where that is nothing.
pub fn new_album_name(typed: &str) -> (r: Option<String>)
    ensures
        path::opt_view(r) == if text::trimmed(typed@).len() > 0 {
            Some(text::trimmed(typed@))
        } else {
            None
        },
{
    let name: String = trim(typed);
    if name.as_str().is_empty() {
        None
    } else {
        Some(name)
    }
}

/// Where dropped files go.
#[derive(Debug, PartialEq, Eq)]
pub enum DropTarget {
    /// None of the files is a supported medium.
    Unsupported,
    Album { id: String, name: String },
    Library,
}

/// Where dropped files go: into the album that is shown, else into the library.
pub fn drop_target(supported_files: usize, source: &LibrarySource) -> (r: DropTarget)
    ensures
        r == if supported_files == 0 {
            DropTarget::Unsupported
        } else {
            match album_of(*source) {
                Some((id, name)) => DropTarget::Album { id, name },
                None => DropTarget::Library,
            }
        },
{
    if supported_files == 0 {
        return DropTarget::Unsupported;
    }
    match current_album(source) {
        Some((id, name)) => DropTarget::Album { id, name },
        None => DropTarget::Library,
    }
}

/// Where a query of the search tab leads: a search by content under the query's own title; nowhere
/// where it is blank.
pub fn smart_search_target(typed: &str) -> (r: Option<DrillTarget>)
    ensures
        r is Some <==> text::trimmed(typed@).len() > 0,
        r matches Some(t) ==> t.title@ == text::trimmed(typed@) && (
        t.source matches LibrarySource::SmartSearch { query } && query@ == text::trimmed(typed@)),
{
    let query: String = trim(typed);
    if query.as_str().is_empty() {
        return None;
    }
    Some(DrillTarget { title: query.clone(), source: LibrarySource::SmartSearch { query } })
}

/// The request that a plan makes to the server.
pub open spec fn asked_of(plan: PagePlan) -> Option<RemoteQuery> {
    match plan {
        PagePlan::Remote { query } => Some(query),
        PagePlan::Unified { query, search } => Some(query),
        PagePlan::Galleries { query } => Some(query),
        PagePlan::AlbumUnified { query, album_name } => Some(query),
        _ => None,
    }
}

/// A page asks the server for what its source names, and for nothing where the source is on disk
/// only: a search for its own text, an album for its own id, the rest for everything. Every request
/// but the search by content carries the order, and an advanced search its own conditions.
pub proof fn page_asks_for_its_source(
    source: LibrarySource,
    page: u32,
    order: Option<String>,
    plan: PagePlan,
)
    requires
        call_ensures(plan_source_page, (source, page, order), plan),
    ensures
        asked_of(plan) is None <==> source is Explore || source is LocalAll || source is LocalSearch
            || source is AlbumLocal,
        asked_of(plan) matches Some(RemoteQuery::Metadata { query, order: o }) ==> o == order
            && query@ == match source {
            LibrarySource::MetadataSearch { query: q } => q@,
            LibrarySource::UnifiedSearch { query: q } => q@,
            _ => Seq::<char>::empty(),
        },
        asked_of(plan) matches Some(RemoteQuery::AlbumAssets { album_id, order: o }) ==> o == order
            && album_of(source) is Some && album_id@ == (album_of(source)->0).0@,
        asked_of(plan) is Some && album_of(source) is Some ==> asked_of(plan)->0 is AlbumAssets,
        (source matches LibrarySource::SmartSearch { query: q } ==> asked_of(plan) matches Some(
            RemoteQuery::Smart { query },
        ) && query@ == q@),
        asked_of(plan) is Some && asked_of(plan)->0 is Smart ==> source is SmartSearch,
        (source matches LibrarySource::OcrSearch { query: q } ==> asked_of(plan) matches Some(
            RemoteQuery::Ocr { query, order: o },
        ) && query@ == q@ && o == order),
        asked_of(plan) is Some && asked_of(plan)->0 is Ocr ==> source is OcrSearch,
        (source matches LibrarySource::AdvancedSearch { filters: f } ==> asked_of(plan) matches Some(
            RemoteQuery::Filtered { filters },
        ) && filters.order == order && *f == (MetadataSearchFilters { order: f.order, ..*filters })),
        asked_of(plan) is Some && asked_of(plan)->0 is Filtered ==> source is AdvancedSearch,
{
    reveal_strlit("");
    assert(""@ =~= Seq::<char>::empty());
}

/// Which files on disk a page looks at: those of the watched folders for the local and the unified
/// sources, with the text of the search as the name filter, those of the linked folder for an album,
/// those of the galleries for the galleries. What is on disk only has one page.
pub proof fn page_looks_at_the_files_of_its_source(
    source: LibrarySource,
    page: u32,
    order: Option<String>,
    plan: PagePlan,
)
    requires
        call_ensures(plan_source_page, (source, page, order), plan),
    ensures
        plan is ExploreLanding <==> source is Explore,
        plan is NoMore <==> page >= 2 && (source is LocalAll || source is LocalSearch
            || source is AlbumLocal),
        plan matches PagePlan::LocalFiles { search } ==> match search {
            Some(s) => source matches LibrarySource::LocalSearch { query } && s@ == query@,
            None => source is LocalAll,
        },
        plan matches PagePlan::Unified { query: q, search } ==> match search {
            Some(s) => source matches LibrarySource::UnifiedSearch { query } && s@ == query@,
            None => source is Unified,
        },
        plan matches PagePlan::LinkedFiles { album_name } ==> source is AlbumLocal && album_name@
            == (album_of(source)->0).1@,
        plan matches PagePlan::AlbumUnified { query, album_name } ==> source is AlbumUnified
            && album_name@ == (album_of(source)->0).1@,
        plan is Galleries <==> source is Galleries,
        plan is Remote ==> !(source is Unified || source is UnifiedSearch || source is AlbumUnified),
{
}

/// A search over the files on disk lists exactly the files whose name contains the searched text,
/// trimmed and without regard to case: each row stands for such a file, and each such file has a
/// row. `given` is the filter of the plan.
pub proof fn local_search_lists_matching_files(
    query: String,
    page: u32,
    order: Option<String>,
    plan: PagePlan,
    locals: Vec<LocalAsset>,
    given: Option<&str>,
    r: (Vec<LibraryAsset>, bool),
)
    requires
        page <= 1,
        call_ensures(plan_source_page, (LibrarySource::LocalSearch { query }, page, order), plan),
        plan matches PagePlan::LocalFiles { search } ==> (given is Some <==> search is Some) && (
        search matches Some(s) ==> given->0@ == s@),
        call_ensures(local_page, (locals, given), r),
    ensures
        plan is LocalFiles,
        !r.1,
        forall|i: int|
            0 <= i < r.0@.len() ==> merge::stands_for_one(
                #[trigger] r.0@[i],
                locals@,
                Some(query@),
            ),
        forall|f: int|
            0 <= f < locals@.len() && merge::is_searched_for(#[trigger] locals@[f], Some(query@))
                ==> merge::has_row_of(r.0@, r.0@.len() as int, locals@[f]),
{
    let wanted = merge::searched(locals@, Some(query@));
    merge::searched_files(locals@, Some(query@));
    assert(merge::are_rows_of(r.0@, wanted));
    assert forall|i: int| 0 <= i < r.0@.len() implies merge::stands_for_one(
        #[trigger] r.0@[i],
        locals@,
        Some(query@),
    ) by {
        assert(merge::is_row_of(r.0@[i], wanted[i]));
        assert(wanted.contains(wanted[i]));
        let f = locals@.index_of(wanted[i]);
        assert(locals@[f] == wanted[i]);
    }
    assert forall|f: int|
        0 <= f < locals@.len() && merge::is_searched_for(
            #[trigger] locals@[f],
            Some(query@),
        ) implies merge::has_row_of(r.0@, r.0@.len() as int, locals@[f]) by {
        assert(locals@.contains(locals@[f]));
        assert(wanted.contains(locals@[f]));
        let i = wanted.index_of(locals@[f]);
        assert(merge::is_row_of(r.0@[i], wanted[i]));
    }
}

/// The first page of a search over the server and the disk shows, before the server's results, the
/// files whose name contains the searched text and that are no copies of the results, and no others.
/// `given` is the filter of the plan.
pub proof fn unified_search_lists_matching_files(
    query: String,
    page: u32,
    order: Option<String>,
    plan: PagePlan,
    assets: Vec<LibraryAsset>,
    more: bool,
    locals: Vec<LocalAsset>,
    index: &SyncIndex,
    given: Option<&str>,
    r: merge::PageResult,
)
    requires
        page <= 1,
        call_ensures(plan_source_page, (LibrarySource::UnifiedSearch { query }, page, order), plan),
        plan matches PagePlan::Unified { query: q, search } ==> (given is Some <==> search is Some)
            && (search matches Some(s) ==> given->0@ == s@),
        call_ensures(
            merge::merge_unified_page,
            (Ok((assets, more)), page, locals, index, given),
            r,
        ),
    ensures
        plan matches PagePlan::Unified { query: q, search } && (
        q matches RemoteQuery::Metadata { query: asked, order: o } && asked@ == query@),
        r is Ok,
        r->Ok_0.1 == more,
        merge::unified_rows_are_right(r->Ok_0.0@, assets@, locals@, *index, Some(query@)),
{
    merge::unified_page_shows_photos_once(assets, more, page, locals, index, given, r);
}

/// What is typed into the search field, trimmed, is what the server is asked for, or what the files
/// are filtered by, whatever the modes.
pub proof fn typed_text_is_searched_for(
    typed: &str,
    source_mode: u32,
    search_mode: u32,
    source: Option<LibrarySource>,
    page: u32,
    order: Option<String>,
    plan: PagePlan,
)
    requires
        page <= 1,
        call_ensures(search_source, (typed, source_mode, search_mode), source),
        source is Some,
        call_ensures(plan_source_page, (source->0, page, order), plan),
    ensures
        text::trimmed(typed@).len() > 0,
        source_mode == 1 ==> (plan matches PagePlan::LocalFiles { search } && path::opt_view(search)
            == Some(text::trimmed(typed@))),
        source_mode == 2 ==> (plan matches PagePlan::Unified { query, search } && path::opt_view(
            search,
        ) == Some(text::trimmed(typed@)) && (query matches RemoteQuery::Metadata { query: q, order: o }
            && q@ == text::trimmed(typed@))),
        source_mode != 1 && source_mode != 2 ==> (plan matches PagePlan::Remote { query } && (
        match query {
            RemoteQuery::Smart { query: q } => search_mode == 1 && q@ == text::trimmed(typed@),
            RemoteQuery::Ocr { query: q, order: o } => search_mode == 2 && q@ == text::trimmed(
                typed@,
            ),
            RemoteQuery::Metadata { query: q, order: o } => search_mode != 1 && search_mode != 2
                && q@ == text::trimmed(typed@),
            _ => false,
        })),
{
}

/// The source dropdown, left at the entry that the header shows, leads back to the source.
pub proof fn shown_entry_leads_back(
    source: &LibrarySource,
    narrow: bool,
    header: HeaderState,
    r: LibrarySource,
)
    requires
        *source is Album || *source is AlbumLocal || *source is AlbumUnified || *source is LocalAll
            || *source is Unified || *source is Timeline || *source is AllAssets,
        call_ensures(header_state, (source, narrow), header),
        call_ensures(source_for_mode, (header.source_entry, source, header.timeline_active), r),
    ensures
        r == *source,
{
}

/// Dropped files go into an album exactly where the header says that uploads do, and into the one
/// that is shown.
pub proof fn drops_follow_the_header(
    files: usize,
    source: &LibrarySource,
    narrow: bool,
    header: HeaderState,
    album: Option<(String, String)>,
    r: DropTarget,
)
    requires
        files > 0,
        call_ensures(header_state, (source, narrow), header),
        call_ensures(current_album, (source,), album),
        call_ensures(drop_target, (files, source), r),
    ensures
        header.uploads_to_album <==> r is Album,
        header.uploads_to_album <==> *source is Album || *source is AlbumLocal
            || *source is AlbumUnified,
        r is Album ==> album == Some((r->id, r->name)),
        r is Album || r is Library,
{
}

/// Switching the timeline on and off again leads back to the list of all assets.
pub proof fn timeline_switch_twice(on: TimelineSwitch, off: TimelineSwitch)
    requires
        call_ensures(timeline_switch, (true, true, &LibrarySource::AllAssets), on),
        on is Go,
        call_ensures(timeline_switch, (true, false, &on->source), off),
    ensures
        on->source is Timeline,
        off is Go && off->source is AllAssets,
{
}

} // verus!
