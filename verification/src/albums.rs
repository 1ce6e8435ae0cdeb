//! The albums page: search, ownership chips, sort modes, and what the page shows.
use vstd::prelude::*;
use vstd::string::*;
use crate::api;
use crate::api::LibraryAlbum;
use crate::order;
use crate::order::{refs_sorted_by_keys, Descending};
use crate::seqs;
use crate::text;
use crate::text::{contains_text, lower, number, owned, same_text};

verus! {

/// How many albums the "recent" bucket holds at most.
pub const RECENT_LIMIT: usize = 8;

/// Sort modes of the albums page.
#[derive(Clone, Copy, Debug, PartialEq, Eq, Structural)]
pub enum AlbumsSort {
    /// Newest created first.
    Newest,
    /// Oldest created first.
    Oldest,
    /// Alphabetical, without regard to ASCII case.
    Name,
    /// Largest asset count first.
    MostAssets,
}

impl Default for AlbumsSort {
    fn default() -> (r: Self)
        ensures
            r == AlbumsSort::Newest,
    {
        AlbumsSort::Newest
    }
}

/// The label of a sort mode.
pub open spec fn sort_label(sort: AlbumsSort) -> Seq<char> {
    match sort {
        AlbumsSort::Newest => "Most recent"@,
        AlbumsSort::Oldest => "Oldest"@,
        AlbumsSort::Name => "Name A–Z"@,
        AlbumsSort::MostAssets => "Most items"@,
    }
}

/// The sort mode that follows when the sort button is tapped.
pub open spec fn sort_after(sort: AlbumsSort) -> AlbumsSort {
    match sort {
        AlbumsSort::Newest => AlbumsSort::Oldest,
        AlbumsSort::Oldest => AlbumsSort::Name,
        AlbumsSort::Name => AlbumsSort::MostAssets,
        AlbumsSort::MostAssets => AlbumsSort::Newest,
    }
}

impl AlbumsSort {
    /// Human label shown on the sort button.
    pub fn label(self) -> (r: &'static str)
        ensures
            r@ == sort_label(self),
    {
        match self {
            AlbumsSort::Newest => "Most recent",
            AlbumsSort::Oldest => "Oldest",
            AlbumsSort::Name => "Name A–Z",
            AlbumsSort::MostAssets => "Most items",
        }
    }

    /// The next mode when the sort button is tapped.
    pub fn next(self) -> (r: AlbumsSort)
        ensures
            r == sort_after(self),
    {
        match self {
            AlbumsSort::Newest => AlbumsSort::Oldest,
            AlbumsSort::Oldest => AlbumsSort::Name,
            AlbumsSort::Name => AlbumsSort::MostAssets,
            AlbumsSort::MostAssets => AlbumsSort::Newest,
        }
    }
}

/// Which ownership bucket the filter chips show.
#[derive(Clone, Copy, Debug, PartialEq, Eq, Structural)]
pub enum ChipFilter {
    /// Owned and shared together.
    All,
    /// Only albums shared with the current user.
    Shared,
    /// Only albums the current user owns.
    Owned,
}

impl Default for ChipFilter {
    fn default() -> (r: Self)
        ensures
            r == ChipFilter::All,
    {
        ChipFilter::All
    }
}

/// List rows or a two-column cover grid.
#[derive(Clone, Copy, Debug, PartialEq, Eq, Structural)]
pub enum ViewMode {
    List,
    Grid,
}

impl Default for ViewMode {
    fn default() -> (r: Self)
        ensures
            r == ViewMode::List,
    {
        ViewMode::List
    }
}

/// Album `a` stands at or before album `b` under a sort mode.
pub open spec fn album_le(sort: AlbumsSort, a: LibraryAlbum, b: LibraryAlbum) -> bool {
    match sort {
        AlbumsSort::Newest => text::text_le(b.created_at@, a.created_at@),
        AlbumsSort::Oldest => text::text_le(a.created_at@, b.created_at@),
        AlbumsSort::Name => text::text_le(
            text::lowered(a.album_name@),
            text::lowered(b.album_name@),
        ),
        AlbumsSort::MostAssets => b.asset_count <= a.asset_count,
    }
}

/// The order of a sort mode.
pub open spec fn album_order(sort: AlbumsSort) -> spec_fn(LibraryAlbum, LibraryAlbum) -> bool {
    |a: LibraryAlbum, b: LibraryAlbum| album_le(sort, a, b)
}

/// The album's name contains the query, without regard to ASCII case.
pub open spec fn matches_query(album: LibraryAlbum, query: Seq<char>) -> bool {
    query.len() == 0 || text::occurs_in(text::lowered(album.album_name@), text::lowered(query))
}

/// The albums that match the query, as listed.
pub open spec fn matching_albums(albums: Seq<LibraryAlbum>, query: Seq<char>) -> Seq<LibraryAlbum> {
    albums.filter(|a: LibraryAlbum| matches_query(a, query))
}

/// The matching albums in the order of a sort mode.
pub open spec fn sorted_matches(
    albums: Seq<LibraryAlbum>,
    query: Seq<char>,
    sort: AlbumsSort,
) -> Seq<LibraryAlbum> {
    order::stable_sort(matching_albums(albums, query), album_order(sort))
}

/// The album belongs to the given user; an unknown user owns nothing.
pub open spec fn is_owned(album: LibraryAlbum, user: Seq<char>) -> bool {
    user.len() != 0 && api::owner_of(album.album_users@) == user
}

/// The album belongs to someone other than the given, known user.
pub open spec fn is_shared(album: LibraryAlbum, user: Seq<char>) -> bool {
    user.len() != 0 && api::owner_of(album.album_users@) != user
}

/// The matching albums the user owns, sorted.
pub open spec fn owned_albums(
    albums: Seq<LibraryAlbum>,
    user: Seq<char>,
    query: Seq<char>,
    sort: AlbumsSort,
) -> Seq<LibraryAlbum> {
    sorted_matches(albums, query, sort).filter(|a: LibraryAlbum| is_owned(a, user))
}

/// The matching albums others share with the user, sorted.
pub open spec fn shared_albums(
    albums: Seq<LibraryAlbum>,
    user: Seq<char>,
    query: Seq<char>,
    sort: AlbumsSort,
) -> Seq<LibraryAlbum> {
    sorted_matches(albums, query, sort).filter(|a: LibraryAlbum| is_shared(a, user))
}

/// The matching albums, newest first, at most [`RECENT_LIMIT`] of them.
pub open spec fn recent_albums(albums: Seq<LibraryAlbum>, query: Seq<char>) -> Seq<LibraryAlbum> {
    seqs::first_n(sorted_matches(albums, query, AlbumsSort::Newest), RECENT_LIMIT as nat)
}

/// The albums a chip shows.
pub open spec fn chip_albums(
    albums: Seq<LibraryAlbum>,
    user: Seq<char>,
    query: Seq<char>,
    sort: AlbumsSort,
    chip: ChipFilter,
) -> Seq<LibraryAlbum> {
    match chip {
        ChipFilter::Owned => owned_albums(albums, user, query, sort),
        ChipFilter::Shared => shared_albums(albums, user, query, sort),
        ChipFilter::All => order::stable_sort(
            owned_albums(albums, user, query, sort) + shared_albums(albums, user, query, sort),
            album_order(sort),
        ),
    }
}

/// Sorts album references by a sort mode, those of equal rank as they stood.
pub fn sort_albums<'a>(list: &Vec<&'a LibraryAlbum>, sort: AlbumsSort) -> (r: Vec<&'a LibraryAlbum>)
    ensures
        order::behind(r@) == order::stable_sort(order::behind(list@), album_order(sort)),
{
    let ghost le = album_order(sort);
    match sort {
        AlbumsSort::Newest => {
            let mut keys: Vec<Descending<String>> = Vec::new();
            let mut i: usize = 0;
            while i < list.len()
                invariant
                    i <= list.len(),
                    keys.len() == i,
                    forall|k: int| 0 <= k < i ==> (#[trigger] keys@[k]).key@ == list@[k].created_at@,
                decreases list.len() - i,
            {
                keys.push(Descending { key: list[i].created_at.clone() });
                i = i + 1;
            }
            refs_sorted_by_keys(list, &keys, Ghost(le))
        },
        AlbumsSort::Oldest => {
            let mut keys: Vec<String> = Vec::new();
            let mut i: usize = 0;
            while i < list.len()
                invariant
                    i <= list.len(),
                    keys.len() == i,
                    forall|k: int| 0 <= k < i ==> (#[trigger] keys@[k])@ == list@[k].created_at@,
                decreases list.len() - i,
            {
                keys.push(list[i].created_at.clone());
                i = i + 1;
            }
            refs_sorted_by_keys(list, &keys, Ghost(le))
        },
        AlbumsSort::Name => {
            let mut keys: Vec<String> = Vec::new();
            let mut i: usize = 0;
            while i < list.len()
                invariant
                    i <= list.len(),
                    keys.len() == i,
                    forall|k: int|
                        0 <= k < i ==> (#[trigger] keys@[k])@ == text::lowered(list@[k].album_name@),
                decreases list.len() - i,
            {
                keys.push(lower(list[i].album_name.as_str()));
                i = i + 1;
            }
            refs_sorted_by_keys(list, &keys, Ghost(le))
        },
        AlbumsSort::MostAssets => {
            let mut keys: Vec<Descending<u64>> = Vec::new();
            let mut i: usize = 0;
            while i < list.len()
                invariant
                    i <= list.len(),
                    keys.len() == i,
                    forall|k: int| 0 <= k < i ==> (#[trigger] keys@[k]).key == list@[k].asset_count,
                decreases list.len() - i,
            {
                keys.push(Descending { key: list[i].asset_count as u64 });
                i = i + 1;
            }
            refs_sorted_by_keys(list, &keys, Ghost(le))
        },
    }
}

/// The albums whose name contains the query, as listed.
fn filter_albums<'a>(albums: &'a Vec<LibraryAlbum>, query: &str) -> (r: Vec<&'a LibraryAlbum>)
    ensures
        order::behind(r@) == matching_albums(albums@, query@),
{
    let needle: String = lower(query);
    let all: bool = query.is_empty();
    let ghost keep = |a: LibraryAlbum| matches_query(a, query@);
    let mut out: Vec<&'a LibraryAlbum> = Vec::new();
    let mut i: usize = 0;
    proof {
        seqs::filter_ends(albums@, keep);
    }
    while i < albums.len()
        invariant
            i <= albums.len(),
            needle@ == text::lowered(query@),
            all == (query@.len() == 0),
            keep == |a: LibraryAlbum| matches_query(a, query@),
            order::behind(out@) == albums@.take(i as int).filter(keep),
        decreases albums.len() - i,
    {
        let album: &'a LibraryAlbum = &albums[i];
        proof {
            seqs::filter_step(albums@, keep, i as int);
        }
        if all || contains_text(lower(album.album_name.as_str()).as_str(), needle.as_str()) {
            assert(order::behind(out@.push(album)) =~= order::behind(out@).push(*album));
            out.push(album);
        }
        i = i + 1;
    }
    assert(albums@.take(i as int) =~= albums@);
    out
}

/// The albums of `list` that the user owns, or, with `wanted` false, that others share.
fn filter_owner<'a>(list: &Vec<&'a LibraryAlbum>, user: &str, wanted: bool) -> (r: Vec<
    &'a LibraryAlbum,
>)
    ensures
        wanted ==> order::behind(r@) == order::behind(list@).filter(|a: LibraryAlbum| is_owned(a, user@)),
        !wanted ==> order::behind(r@) == order::behind(list@).filter(|a: LibraryAlbum| is_shared(a, user@)),
{
    let known: bool = !user.is_empty();
    let ghost keep_owned = |a: LibraryAlbum| is_owned(a, user@);
    let ghost keep_shared = |a: LibraryAlbum| is_shared(a, user@);
    let mut out: Vec<&'a LibraryAlbum> = Vec::new();
    let mut i: usize = 0;
    let ghost all = order::behind(list@);
    proof {
        seqs::filter_ends(all, keep_owned);
        seqs::filter_ends(all, keep_shared);
    }
    while i < list.len()
        invariant
            i <= list.len(),
            known == (user@.len() != 0),
            keep_owned == |a: LibraryAlbum| is_owned(a, user@),
            keep_shared == |a: LibraryAlbum| is_shared(a, user@),
            all == order::behind(list@),
            wanted ==> order::behind(out@) == all.take(i as int).filter(keep_owned),
            !wanted ==> order::behind(out@) == all.take(i as int).filter(keep_shared),
        decreases list.len() - i,
    {
        proof {
            seqs::filter_step(all, keep_owned, i as int);
            seqs::filter_step(all, keep_shared, i as int);
            assert(order::behind(out@.push(list@[i as int])) =~= order::behind(out@).push(
                *list@[i as int],
            ));
        }
        if known && same_text(list[i].owner_id().as_str(), user) == wanted {
            out.push(list[i]);
        }
        i = i + 1;
    }
    assert(all.take(i as int) =~= all);
    out
}

/// The (recent, owned, shared) buckets of the album list under a search query and a sort mode.
///
/// `recent` is in creation order whatever the sort mode is. Without a known user neither of the
/// other two holds anything.
pub fn project_albums<'a>(
    albums: &'a Vec<LibraryAlbum>,
    current_user: &str,
    query: &str,
    sort: AlbumsSort,
) -> (r: (Vec<&'a LibraryAlbum>, Vec<&'a LibraryAlbum>, Vec<&'a LibraryAlbum>))
    ensures
        order::behind(r.0@) == recent_albums(albums@, query@),
        order::behind(r.1@) == owned_albums(albums@, current_user@, query@, sort),
        order::behind(r.2@) == shared_albums(albums@, current_user@, query@, sort),
{
    let filtered: Vec<&'a LibraryAlbum> = filter_albums(albums, query);
    let sorted: Vec<&'a LibraryAlbum> = sort_albums(&filtered, sort);
    let mut recent: Vec<&'a LibraryAlbum> = sort_albums(&filtered, AlbumsSort::Newest);
    recent.truncate(RECENT_LIMIT);
    assert(order::behind(recent@) =~= recent_albums(albums@, query@));
    let owned_list: Vec<&'a LibraryAlbum> = filter_owner(&sorted, current_user, true);
    let shared_list: Vec<&'a LibraryAlbum> = filter_owner(&sorted, current_user, false);
    (recent, owned_list, shared_list)
}

/// The albums the active chip shows.
pub fn visible_albums<'a>(
    albums: &'a Vec<LibraryAlbum>,
    current_user: &str,
    query: &str,
    sort: AlbumsSort,
    chip: ChipFilter,
) -> (r: Vec<&'a LibraryAlbum>)
    ensures
        order::behind(r@) == chip_albums(albums@, current_user@, query@, sort, chip),
{
    let (_recent, mine, shared) = project_albums(albums, current_user, query, sort);
    match chip {
        ChipFilter::Owned => mine,
        ChipFilter::Shared => shared,
        ChipFilter::All => {
            let mut all: Vec<&'a LibraryAlbum> = mine;
            let mut rest: Vec<&'a LibraryAlbum> = shared;
            let ghost front = all@;
            let ghost back = rest@;
            all.append(&mut rest);
            assert(order::behind(all@) =~= order::behind(front) + order::behind(back));
            sort_albums(&all, sort)
        },
    }
}

/// "3 items", "1 item".
pub open spec fn item_count_text(n: nat) -> Seq<char> {
    text::decimal(n) + " item"@ + (if n == 1 {
        ""@
    } else {
        "s"@
    })
}

/// "3 items • Owned", "1 item • Shared".
pub open spec fn album_subtitle(album: LibraryAlbum, user: Seq<char>) -> Seq<char> {
    item_count_text(album.asset_count as nat) + " • "@ + (if is_owned(album, user) {
        "Owned"@
    } else {
        "Shared"@
    })
}

/// The item count of an album as its tile shows it.
pub fn item_count_label(n: u32) -> (r: String)
    ensures
        r@ == item_count_text(n as nat),
{
    let mut out: String = number(n as u64);
    out.append(" item");
    out.append(
        if n == 1 {
            ""
        } else {
            "s"
        },
    );
    out
}

/// The second line of an album's list row.
pub fn album_subtitle_label(album: &LibraryAlbum, current_user: &str) -> (r: String)
    ensures
        r@ == album_subtitle(*album, current_user@),
{
    let mut out: String = item_count_label(album.asset_count);
    out.append(" • ");
    let mine: bool = !current_user.is_empty() && same_text(
        album.owner_id().as_str(),
        current_user,
    );
    out.append(
        if mine {
            "Owned"
        } else {
            "Shared"
        },
    );
    out
}

/// One album as the page shows it.
#[derive(Debug, PartialEq, Eq)]
pub struct AlbumRow {
    pub id: String,
    pub name: String,
    /// The second line of a list row.
    pub subtitle: String,
    /// The caption of a grid tile.
    pub caption: String,
    pub thumbnail_asset_id: Option<String>,
}

/// The row shows the album.
pub open spec fn row_shows(row: AlbumRow, album: LibraryAlbum, user: Seq<char>) -> bool {
    &&& row.id@ == album.id@
    &&& row.name@ == album.album_name@
    &&& row.subtitle@ == album_subtitle(album, user)
    &&& row.caption@ == item_count_text(album.asset_count as nat)
    &&& row.thumbnail_asset_id == album.thumbnail_asset_id
}

/// What the albums page shows.
#[derive(Debug, PartialEq, Eq)]
pub struct AlbumsPage {
    /// The "No albums" label stands in place of the list.
    pub empty: bool,
    /// The rows are laid out as a two-column grid.
    pub grid: bool,
    pub rows: Vec<AlbumRow>,
}

/// The state behind the albums page.
#[derive(Debug, PartialEq, Eq)]
pub struct AlbumsViewParts {
    /// The page has been drawn at least once.
    pub populated: bool,
    /// An album list has arrived.
    pub loaded: bool,
    pub cached_albums: Vec<LibraryAlbum>,
    pub search_query: String,
    pub sort_mode: AlbumsSort,
    pub chip_filter: ChipFilter,
    pub view_mode: ViewMode,
}

impl AlbumsViewParts {
    /// The albums the page shows to a user.
    pub open spec fn shown(self, user: Seq<char>) -> Seq<LibraryAlbum> {
        chip_albums(
            self.cached_albums@,
            user,
            self.search_query@,
            self.sort_mode,
            self.chip_filter,
        )
    }
}

/// The page before any album has arrived: no query, the newest first, every album, as a list.
pub fn build_albums_view() -> (r: AlbumsViewParts)
    ensures
        !r.populated,
        !r.loaded,
        r.cached_albums@.len() == 0,
        r.search_query@.len() == 0,
        r.sort_mode == AlbumsSort::Newest,
        r.chip_filter == ChipFilter::All,
        r.view_mode == ViewMode::List,
{
    AlbumsViewParts {
        populated: false,
        loaded: false,
        cached_albums: Vec::new(),
        search_query: String::new(),
        sort_mode: AlbumsSort::default(),
        chip_filter: ChipFilter::default(),
        view_mode: ViewMode::default(),
    }
}

/// Takes over a fresh album list.
pub fn populate_albums(parts: &mut AlbumsViewParts, albums: Vec<LibraryAlbum>)
    ensures
        *final(parts) == (AlbumsViewParts { cached_albums: albums, loaded: true, ..*old(parts) }),
{
    parts.cached_albums = albums;
    parts.loaded = true;
}

/// Sets the search text; an empty one clears the filter.
pub fn set_search_filter(parts: &mut AlbumsViewParts, query: &str)
    ensures
        final(parts).search_query@ == query@,
        *final(parts) == (AlbumsViewParts {
            search_query: final(parts).search_query,
            ..*old(parts)
        }),
{
    parts.search_query = owned(query);
}

/// Sets the sort mode.
pub fn set_sort_mode(parts: &mut AlbumsViewParts, mode: AlbumsSort)
    ensures
        *final(parts) == (AlbumsViewParts { sort_mode: mode, ..*old(parts) }),
{
    parts.sort_mode = mode;
}

/// Goes on to the next sort mode and gives its label.
pub fn cycle_sort_mode(parts: &mut AlbumsViewParts) -> (r: &'static str)
    ensures
        *final(parts) == (AlbumsViewParts {
            sort_mode: sort_after(old(parts).sort_mode),
            ..*old(parts)
        }),
        r@ == sort_label(sort_after(old(parts).sort_mode)),
{
    parts.sort_mode = parts.sort_mode.next();
    parts.sort_mode.label()
}

/// Selects a filter chip.
pub fn select_chip(parts: &mut AlbumsViewParts, chip: ChipFilter)
    ensures
        *final(parts) == (AlbumsViewParts { chip_filter: chip, ..*old(parts) }),
{
    parts.chip_filter = chip;
}

/// The other way to lay the albums out.
pub open spec fn other_view(mode: ViewMode) -> ViewMode {
    match mode {
        ViewMode::List => ViewMode::Grid,
        ViewMode::Grid => ViewMode::List,
    }
}

/// Flips between list and grid. The result is the icon and the tooltip of the toggle, which name
/// the mode a further tap would switch to.
pub fn toggle_view_mode(parts: &mut AlbumsViewParts) -> (r: (&'static str, &'static str))
    ensures
        *final(parts) == (AlbumsViewParts {
            view_mode: other_view(old(parts).view_mode),
            ..*old(parts)
        }),
        final(parts).view_mode == ViewMode::List ==> r.0@ == "view-grid-symbolic"@ && r.1@
            == "Switch to grid view"@,
        final(parts).view_mode == ViewMode::Grid ==> r.0@ == "view-list-symbolic"@ && r.1@
            == "Switch to list view"@,
{
    match parts.view_mode {
        ViewMode::List => {
            parts.view_mode = ViewMode::Grid;
            ("view-list-symbolic", "Switch to list view")
        },
        ViewMode::Grid => {
            parts.view_mode = ViewMode::List;
            ("view-grid-symbolic", "Switch to grid view")
        },
    }
}

/// What the page shows to a user; nothing is drawn before an album list has arrived.
pub fn render_albums(parts: &mut AlbumsViewParts, current_user: &str) -> (r: Option<AlbumsPage>)
    ensures
        r is Some <==> old(parts).loaded,
        *final(parts) == (AlbumsViewParts {
            populated: old(parts).populated || old(parts).loaded,
            ..*old(parts)
        }),
        r matches Some(page) ==> {
            let shown = old(parts).shown(current_user@);
            &&& page.empty == (shown.len() == 0)
            &&& page.grid == (old(parts).view_mode == ViewMode::Grid)
            &&& page.rows@.len() == shown.len()
            &&& forall|i: int|
                0 <= i < shown.len() ==> row_shows(
                    #[trigger] page.rows@[i],
                    shown[i],
                    current_user@,
                )
        },
        r matches Some(page) ==> forall|query: &str, shown: Vec<&LibraryAlbum>|
            query@ == old(parts).search_query@ && #[trigger] call_ensures(
                visible_albums,
                (
                    &old(parts).cached_albums,
                    current_user,
                    query,
                    old(parts).sort_mode,
                    old(parts).chip_filter,
                ),
                shown,
            ) ==> page.rows@.len() == shown@.len() && forall|i: int|
                0 <= i < shown@.len() ==> (#[trigger] page.rows@[i]).id@ == shown@[i].id@
                    && page.rows@[i].name@ == shown@[i].album_name@
                    && page.rows@[i].thumbnail_asset_id == shown@[i].thumbnail_asset_id,
{
    if !parts.loaded {
        return None;
    }
    let mut rows: Vec<AlbumRow> = Vec::new();
    let grid: bool = matches!(parts.view_mode, ViewMode::Grid);
    let visible = visible_albums(
        &parts.cached_albums,
        current_user,
        parts.search_query.as_str(),
        parts.sort_mode,
        parts.chip_filter,
    );
    let ghost shown = parts.shown(current_user@);
    let mut i: usize = 0;
    while i < visible.len()
        invariant
            i <= visible.len(),
            rows.len() == i,
            shown == order::behind(visible@),
            forall|k: int|
                0 <= k < i ==> row_shows(#[trigger] rows@[k], shown[k], current_user@),
        decreases visible.len() - i,
    {
        let album: &LibraryAlbum = visible[i];
        rows.push(
            AlbumRow {
                id: album.id.clone(),
                name: album.album_name.clone(),
                subtitle: album_subtitle_label(album, current_user),
                caption: item_count_label(album.asset_count),
                thumbnail_asset_id: album.thumbnail_asset_id.clone(),
            },
        );
        i = i + 1;
    }
    let empty: bool = visible.len() == 0;
    parts.populated = true;
    Some(AlbumsPage { empty, grid, rows })
}

/// The order of a sort mode compares any two albums, and consistently.
pub proof fn album_order_is_a_ranking(sort: AlbumsSort)
    ensures
        order::is_ranking(album_order(sort)),
{
    let le = album_order(sort);
    assert forall|a: LibraryAlbum, b: LibraryAlbum| #[trigger] le(a, b) || #[trigger] le(b, a) by {
        text::text_le_total(a.created_at@, b.created_at@);
        text::text_le_total(text::lowered(a.album_name@), text::lowered(b.album_name@));
    }
    assert forall|a: LibraryAlbum, b: LibraryAlbum, c: LibraryAlbum|
        #[trigger] le(a, b) && #[trigger] le(b, c) implies le(a, c) by {
        match sort {
            AlbumsSort::Newest => text::text_le_transitive(
                c.created_at@,
                b.created_at@,
                a.created_at@,
            ),
            AlbumsSort::Oldest => text::text_le_transitive(
                a.created_at@,
                b.created_at@,
                c.created_at@,
            ),
            AlbumsSort::Name => text::text_le_transitive(
                text::lowered(a.album_name@),
                text::lowered(b.album_name@),
                text::lowered(c.album_name@),
            ),
            AlbumsSort::MostAssets => {},
        }
    }
}

/// With a known user every matching album is in exactly one of the owned and the shared bucket,
/// and the two hold nothing else; with an unknown user both are empty.
pub proof fn buckets_divide_matches(
    albums: Seq<LibraryAlbum>,
    user: Seq<char>,
    query: Seq<char>,
    sort: AlbumsSort,
    album: LibraryAlbum,
)
    ensures
        user.len() == 0 ==> owned_albums(albums, user, query, sort).len() == 0 && shared_albums(
            albums,
            user,
            query,
            sort,
        ).len() == 0,
        user.len() != 0 ==> (matching_albums(albums, query).contains(album) <==> owned_albums(
            albums,
            user,
            query,
            sort,
        ).contains(album) || shared_albums(albums, user, query, sort).contains(album)),
        !(owned_albums(albums, user, query, sort).contains(album) && shared_albums(
            albums,
            user,
            query,
            sort,
        ).contains(album)),
{
    let sorted = sorted_matches(albums, query, sort);
    let mine = |a: LibraryAlbum| is_owned(a, user);
    let theirs = |a: LibraryAlbum| is_shared(a, user);
    album_order_is_a_ranking(sort);
    order::sort_keeps_elements(matching_albums(albums, query), album_order(sort));
    seqs::filter_contents(sorted, mine);
    seqs::filter_contents(sorted, theirs);
    if user.len() == 0 {
        seqs::filter_none(sorted, mine);
        seqs::filter_none(sorted, theirs);
    }
}

/// The chip "All" shows to a known user every matching album.
pub proof fn all_chip_shows_every_match(
    albums: Seq<LibraryAlbum>,
    user: Seq<char>,
    query: Seq<char>,
    sort: AlbumsSort,
    album: LibraryAlbum,
)
    requires
        user.len() != 0,
    ensures
        chip_albums(albums, user, query, sort, ChipFilter::All).contains(album)
            <==> matching_albums(albums, query).contains(album),
{
    let mine = owned_albums(albums, user, query, sort);
    let theirs = shared_albums(albums, user, query, sort);
    album_order_is_a_ranking(sort);
    order::sort_keeps_elements(mine + theirs, album_order(sort));
    buckets_divide_matches(albums, user, query, sort, album);
    if mine.contains(album) {
        assert((mine + theirs)[mine.index_of(album)] == album);
    }
    if theirs.contains(album) {
        assert((mine + theirs)[mine.len() + theirs.index_of(album)] == album);
    }
    if (mine + theirs).contains(album) {
        let i = (mine + theirs).index_of(album);
        if i < mine.len() {
            assert(mine[i] == album);
        } else {
            assert(theirs[i - mine.len()] == album);
        }
    }
}

/// The recent bucket never holds more than [`RECENT_LIMIT`] albums.
pub proof fn recent_is_capped(albums: Seq<LibraryAlbum>, query: Seq<char>)
    ensures
        recent_albums(albums, query).len() <= RECENT_LIMIT,
{
}

/// Four taps on the sort button lead back to the first sort mode, and no fewer do.
pub proof fn sort_modes_cycle(sort: AlbumsSort)
    ensures
        sort_after(sort_after(sort_after(sort_after(sort)))) == sort,
        sort_after(sort) != sort,
        sort_after(sort_after(sort)) != sort,
        sort_after(sort_after(sort_after(sort))) != sort,
{
}

/// Two taps on the view toggle lead back to the first view.
pub proof fn view_toggle_twice(mode: ViewMode)
    ensures
        other_view(other_view(mode)) == mode,
{
}

/// The albums shown stand in the order of the sort mode, whatever the chip: for the newest by falling
/// creation time, for the oldest by rising creation time, by name without regard to case, or by
/// falling number of assets.
pub proof fn shown_albums_are_in_order(
    albums: &Vec<LibraryAlbum>,
    user: &str,
    query: &str,
    sort: AlbumsSort,
    chip: ChipFilter,
    shown: Vec<&LibraryAlbum>,
    i: int,
    j: int,
)
    requires
        call_ensures(visible_albums, (albums, user, query, sort, chip), shown),
        0 <= i < j < shown@.len(),
    ensures
        sort == AlbumsSort::Newest ==> text::text_le(shown@[j].created_at@, shown@[i].created_at@),
        sort == AlbumsSort::Oldest ==> text::text_le(shown@[i].created_at@, shown@[j].created_at@),
        sort == AlbumsSort::Name ==> text::text_le(
            text::lowered(shown@[i].album_name@),
            text::lowered(shown@[j].album_name@),
        ),
        sort == AlbumsSort::MostAssets ==> shown@[i].asset_count >= shown@[j].asset_count,
{
    let all = order::behind(shown@);
    assert(all == chip_albums(albums@, user@, query@, sort, chip));
    assert(all[i] == *shown@[i] && all[j] == *shown@[j]);
    let matches = matching_albums(albums@, query@);
    let sorted = sorted_matches(albums@, query@, sort);
    album_order_is_a_ranking(sort);
    order::sort_keeps_elements(matches, album_order(sort));
    let mine = owned_albums(albums@, user@, query@, sort);
    let theirs = shared_albums(albums@, user@, query@, sort);
    if chip == ChipFilter::All {
        order::sort_keeps_elements(mine + theirs, album_order(sort));
    } else {
        let keep = if chip == ChipFilter::Owned {
            |a: LibraryAlbum| is_owned(a, user@)
        } else {
            |a: LibraryAlbum| is_shared(a, user@)
        };
        assert(all == sorted.filter(keep));
        let p = seqs::filter_places(sorted, keep, i, j);
        assert(album_order(sort)(sorted[p.0], sorted[p.1]));
    }
    assert(album_order(sort)(all[i], all[j]));
}

/// An album is shown exactly where it is listed, its name contains the query without regard to case,
/// the user is known, and the chip asks for it: "Owned" for the albums whose owner is the user,
/// "Shared" for the others, "All" for both.
pub proof fn album_is_shown_where_it_matches(
    albums: &Vec<LibraryAlbum>,
    user: &str,
    query: &str,
    sort: AlbumsSort,
    chip: ChipFilter,
    shown: Vec<&LibraryAlbum>,
    album: LibraryAlbum,
)
    requires
        call_ensures(visible_albums, (albums, user, query, sort, chip), shown),
    ensures
        (exists|i: int| 0 <= i < shown@.len() && *#[trigger] shown@[i] == album) <==> {
            &&& albums@.contains(album)
            &&& user@.len() > 0
            &&& query@.len() == 0 || text::occurs_in(
                text::lowered(album.album_name@),
                text::lowered(query@),
            )
            &&& chip == ChipFilter::Owned ==> api::owner_of(album.album_users@) == user@
            &&& chip == ChipFilter::Shared ==> api::owner_of(album.album_users@) != user@
        },
{
    let all = order::behind(shown@);
    let matches = matching_albums(albums@, query@);
    let sorted = sorted_matches(albums@, query@, sort);
    assert(all == chip_albums(albums@, user@, query@, sort, chip));
    assert forall|i: int| 0 <= i < shown@.len() implies *#[trigger] shown@[i] == all[i] by {}
    assert(all.contains(album) <==> exists|i: int|
        0 <= i < shown@.len() && *#[trigger] shown@[i] == album) by {
        if all.contains(album) {
            let i = all.index_of(album);
            assert(*shown@[i] == album);
        }
        if exists|i: int| 0 <= i < shown@.len() && *#[trigger] shown@[i] == album {
            let i = choose|i: int| 0 <= i < shown@.len() && *#[trigger] shown@[i] == album;
            assert(all[i] == album);
        }
    }
    seqs::filter_contents(albums@, |a: LibraryAlbum| matches_query(a, query@));
    album_order_is_a_ranking(sort);
    order::sort_keeps_elements(matches, album_order(sort));
    seqs::filter_contents(sorted, |a: LibraryAlbum| is_owned(a, user@));
    seqs::filter_contents(sorted, |a: LibraryAlbum| is_shared(a, user@));
    if chip == ChipFilter::All {
        if user@.len() > 0 {
            all_chip_shows_every_match(albums@, user@, query@, sort, album);
        } else {
            buckets_divide_matches(albums@, user@, query@, sort, album);
            let mine = owned_albums(albums@, user@, query@, sort);
            let theirs = shared_albums(albums@, user@, query@, sort);
            order::sort_keeps_elements(mine + theirs, album_order(sort));
        }
    }
}

/// Where two shown albums rank the same, the one that the chip's bucket lists first stands first: of
/// two own or two shared albums the one listed first, of an own and a shared album the own one. So
/// no listed album is shown twice.
pub proof fn shown_albums_keep_ties(
    albums: &Vec<LibraryAlbum>,
    user: &str,
    query: &str,
    sort: AlbumsSort,
    chip: ChipFilter,
    shown: Vec<&LibraryAlbum>,
    i: int,
    j: int,
) -> (p: (int, int))
    requires
        call_ensures(visible_albums, (albums, user, query, sort, chip), shown),
        0 <= i < j < shown@.len(),
    ensures
        0 <= p.0 < albums@.len(),
        0 <= p.1 < albums@.len(),
        *shown@[i] == albums@[p.0],
        *shown@[j] == albums@[p.1],
        p.0 != p.1,
        ({
            let same_rank = match sort {
                AlbumsSort::Newest | AlbumsSort::Oldest => shown@[i].created_at@
                    == shown@[j].created_at@,
                AlbumsSort::Name => text::lowered(shown@[i].album_name@) == text::lowered(
                    shown@[j].album_name@,
                ),
                AlbumsSort::MostAssets => shown@[i].asset_count == shown@[j].asset_count,
            };
            let first_is_own = api::owner_of(shown@[i].album_users@) == user@;
            let second_is_own = api::owner_of(shown@[j].album_users@) == user@;
            same_rank ==> {
                &&& first_is_own == second_is_own ==> p.0 < p.1
                &&& second_is_own ==> first_is_own
            }
        }),
{
    let all = order::behind(shown@);
    assert(all == chip_albums(albums@, user@, query@, sort, chip));
    assert(all[i] == *shown@[i] && all[j] == *shown@[j]);
    let matches = matching_albums(albums@, query@);
    let sorted = sorted_matches(albums@, query@, sort);
    let le = album_order(sort);
    let own = |a: LibraryAlbum| is_owned(a, user@);
    let other = |a: LibraryAlbum| is_shared(a, user@);
    let mine = owned_albums(albums@, user@, query@, sort);
    let theirs = shared_albums(albums@, user@, query@, sort);
    album_order_is_a_ranking(sort);
    order::sort_keeps_elements(matches, le);
    text::text_le_reflexive(all[i].created_at@);
    text::text_le_reflexive(text::lowered(all[i].album_name@));
    seqs::filter_contents(sorted, own);
    seqs::filter_contents(sorted, other);
    if chip == ChipFilter::All {
        order::sort_keeps_elements(mine + theirs, le);
        let u = order::sorted_places_differ(mine + theirs, le, i, j);
        let n = mine.len();
        if u.0 < n && u.1 < n {
            assert(mine.contains(mine[u.0]) && mine.contains(mine[u.1]));
            bucket_places(albums@, query@, sort, own, u.0, u.1)
        } else if u.0 >= n && u.1 >= n {
            assert(theirs.contains(theirs[u.0 - n]) && theirs.contains(theirs[u.1 - n]));
            bucket_places(albums@, query@, sort, other, u.0 - n, u.1 - n)
        } else if u.0 < n {
            assert(mine.contains(mine[u.0]) && theirs.contains(theirs[u.1 - n]));
            listed_places(albums@, query@, sort, all[i], all[j])
        } else {
            assert(theirs.contains(theirs[u.0 - n]) && mine.contains(mine[u.1]));
            listed_places(albums@, query@, sort, all[i], all[j])
        }
    } else if chip == ChipFilter::Owned {
        assert(mine.contains(mine[i]) && mine.contains(mine[j]));
        bucket_places(albums@, query@, sort, own, i, j)
    } else {
        assert(theirs.contains(theirs[i]) && theirs.contains(theirs[j]));
        bucket_places(albums@, query@, sort, other, i, j)
    }
}

/// Two different albums out of the sorted matches stand at different places of the list.
proof fn listed_places(
    albums: Seq<LibraryAlbum>,
    query: Seq<char>,
    sort: AlbumsSort,
    a: LibraryAlbum,
    b: LibraryAlbum,
) -> (p: (int, int))
    requires
        sorted_matches(albums, query, sort).contains(a),
        sorted_matches(albums, query, sort).contains(b),
        a != b,
    ensures
        0 <= p.0 < albums.len(),
        0 <= p.1 < albums.len(),
        albums[p.0] == a,
        albums[p.1] == b,
        p.0 != p.1,
{
    album_order_is_a_ranking(sort);
    order::sort_keeps_elements(matching_albums(albums, query), album_order(sort));
    seqs::filter_contents(albums, |a: LibraryAlbum| matches_query(a, query));
    assert(albums.contains(a) && albums.contains(b));
    (albums.index_of(a), albums.index_of(b))
}

/// Two albums of a bucket stand at different places of the list, and where they rank the same in the
/// same order. The places in the bucket may be given either way round.
proof fn bucket_places(
    albums: Seq<LibraryAlbum>,
    query: Seq<char>,
    sort: AlbumsSort,
    keep: spec_fn(LibraryAlbum) -> bool,
    i: int,
    j: int,
) -> (p: (int, int))
    requires
        0 <= i < sorted_matches(albums, query, sort).filter(keep).len(),
        0 <= j < sorted_matches(albums, query, sort).filter(keep).len(),
        i != j,
    ensures
        0 <= p.0 < albums.len(),
        0 <= p.1 < albums.len(),
        albums[p.0] == sorted_matches(albums, query, sort).filter(keep)[i],
        albums[p.1] == sorted_matches(albums, query, sort).filter(keep)[j],
        p.0 != p.1,
        i < j && album_le(sort, albums[p.1], albums[p.0]) ==> p.0 < p.1,
    decreases (if i > j { 1int } else { 0int }),
{
    if j < i {
        let q = bucket_places(albums, query, sort, keep, j, i);
        (q.1, q.0)
    } else {
        let matches = matching_albums(albums, query);
        let matching = |a: LibraryAlbum| matches_query(a, query);
        let le = album_order(sort);
        album_order_is_a_ranking(sort);
        order::sort_keeps_elements(matches, le);
        let a = seqs::filter_places(sorted_matches(albums, query, sort), keep, i, j);
        let b = order::sorted_places_differ(matches, le, a.0, a.1);
        if b.0 < b.1 {
            seqs::filter_places(albums, matching, b.0, b.1)
        } else {
            let c = seqs::filter_places(albums, matching, b.1, b.0);
            (c.1, c.0)
        }
    }
}

/// The recent albums are matching ones, newest first; a matching album that is not among them is no
/// newer than any of them, and stays out only where the limit is reached.
pub proof fn recent_albums_are_the_newest(
    albums: &Vec<LibraryAlbum>,
    user: &str,
    query: &str,
    sort: AlbumsSort,
    buckets: (Vec<&LibraryAlbum>, Vec<&LibraryAlbum>, Vec<&LibraryAlbum>),
    album: LibraryAlbum,
    i: int,
)
    requires
        call_ensures(project_albums, (albums, user, query, sort), buckets),
        0 <= i < buckets.0@.len(),
        albums@.contains(album),
        query@.len() == 0 || text::occurs_in(
            text::lowered(album.album_name@),
            text::lowered(query@),
        ),
    ensures
        albums@.contains(*buckets.0@[i]),
        query@.len() == 0 || text::occurs_in(
            text::lowered(buckets.0@[i].album_name@),
            text::lowered(query@),
        ),
        forall|j: int|
            i < j < buckets.0@.len() ==> text::text_le(
                (#[trigger] buckets.0@[j]).created_at@,
                buckets.0@[i].created_at@,
            ),
        (exists|j: int| 0 <= j < buckets.0@.len() && *#[trigger] buckets.0@[j] == album) || (
        buckets.0@.len() == 8 && text::text_le(album.created_at@, buckets.0@[i].created_at@)),
{
    let recent = order::behind(buckets.0@);
    let matches = matching_albums(albums@, query@);
    let sorted = sorted_matches(albums@, query@, AlbumsSort::Newest);
    let le = album_order(AlbumsSort::Newest);
    assert(recent == seqs::first_n(sorted, 8));
    assert forall|j: int| 0 <= j < buckets.0@.len() implies *#[trigger] buckets.0@[j]
        == recent[j] by {}
    album_order_is_a_ranking(AlbumsSort::Newest);
    order::sort_keeps_elements(matches, le);
    seqs::filter_contents(albums@, |a: LibraryAlbum| matches_query(a, query@));
    assert(recent.len() == buckets.0@.len());
    assert(recent[i] == sorted[i]);
    assert(*buckets.0@[i] == sorted[i]);
    assert(sorted.contains(sorted[i]));
    assert(matches.contains(sorted[i]));
    assert forall|j: int| i < j < buckets.0@.len() implies text::text_le(
        (#[trigger] buckets.0@[j]).created_at@,
        buckets.0@[i].created_at@,
    ) by {
        assert(*buckets.0@[j] == sorted[j]);
        assert(le(sorted[i], sorted[j]));
    }
    assert(matches.contains(album));
    assert(sorted.contains(album));
    let k = sorted.index_of(album);
    if k < recent.len() {
        assert(*buckets.0@[k] == album);
    } else {
        assert(le(sorted[i], sorted[k]));
    }
}

} // verus!
