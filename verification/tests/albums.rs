use mimick_library::albums::{
    album_subtitle_label, build_albums_view, cycle_sort_mode, item_count_label, populate_albums,
    project_albums, render_albums, select_chip, set_search_filter, set_sort_mode, toggle_view_mode,
    visible_albums, AlbumsSort, ChipFilter,
};
use mimick_library::api::{AlbumUser, AlbumUserInfo, LibraryAlbum};

fn album(id: &str, name: &str, owner: &str, count: u32, created: &str) -> LibraryAlbum {
    LibraryAlbum {
        id: id.into(),
        album_name: name.into(),
        asset_count: count,
        thumbnail_asset_id: None,
        created_at: created.into(),
        updated_at: created.into(),
        description: String::new(),
        album_users: vec![AlbumUser {
            user: AlbumUserInfo { id: owner.into() },
            role: "owner".into(),
        }],
    }
}

fn fixture() -> Vec<LibraryAlbum> {
    vec![
        album("a1", "Beach Trip", "me", 200, "2024-06-01T00:00:00Z"),
        album("a2", "Family", "friend", 50, "2025-01-10T00:00:00Z"),
        album("a3", "Archive 2020", "me", 1000, "2020-12-31T00:00:00Z"),
        album("a4", "beach-volleyball", "me", 12, "2023-09-15T00:00:00Z"),
    ]
}

#[test]
fn project_filters_by_case_insensitive_substring() {
    let items = fixture();
    let (_, owned, _) = project_albums(&items, "me", "beach", AlbumsSort::Name);
    let names: Vec<&str> = owned.iter().map(|a| a.album_name.as_str()).collect();
    assert_eq!(names, vec!["Beach Trip", "beach-volleyball"]);
}

#[test]
fn project_sort_newest_orders_by_created_desc() {
    let items = fixture();
    let (_, owned, _) = project_albums(&items, "me", "", AlbumsSort::Newest);
    let ids: Vec<&str> = owned.iter().map(|a| a.id.as_str()).collect();
    assert_eq!(ids, vec!["a1", "a4", "a3"]);
}

#[test]
fn project_sort_name_is_case_insensitive() {
    let items = fixture();
    let (_, owned, _) = project_albums(&items, "me", "", AlbumsSort::Name);
    let names: Vec<&str> = owned.iter().map(|a| a.album_name.as_str()).collect();
    assert_eq!(names, vec!["Archive 2020", "Beach Trip", "beach-volleyball"]);
}

#[test]
fn project_sort_most_assets_descends() {
    let items = fixture();
    let (_, owned, _) = project_albums(&items, "me", "", AlbumsSort::MostAssets);
    let counts: Vec<u32> = owned.iter().map(|a| a.asset_count).collect();
    assert_eq!(counts, vec![1000, 200, 12]);
}

#[test]
fn project_buckets_by_owner() {
    let items = fixture();
    let (_, owned, shared) = project_albums(&items, "me", "", AlbumsSort::Newest);
    assert_eq!(owned.len(), 3);
    assert_eq!(shared.len(), 1);
    assert_eq!(shared[0].id, "a2");
}

#[test]
fn project_empty_current_user_excludes_from_both_buckets() {
    let items = fixture();
    let (recent, owned, shared) = project_albums(&items, "", "", AlbumsSort::Newest);
    assert!(owned.is_empty());
    assert!(shared.is_empty());
    assert_eq!(recent.len(), 4);
}

#[test]
fn project_recent_always_by_date_even_under_alternate_sort() {
    let items = fixture();
    let (recent, _, _) = project_albums(&items, "me", "", AlbumsSort::MostAssets);
    let ids: Vec<&str> = recent.iter().map(|a| a.id.as_str()).collect();
    assert_eq!(ids[0], "a2");
}

#[test]
fn project_recent_caps_at_eight() {
    let mut items = Vec::new();
    for i in 0..20 {
        items.push(album(
            &format!("id{i}"),
            &format!("Album {i}"),
            "me",
            i,
            &format!("2024-01-{:02}T00:00:00Z", i + 1),
        ));
    }
    let (recent, _, _) = project_albums(&items, "me", "", AlbumsSort::Newest);
    assert_eq!(recent.len(), 8);
}

#[test]
fn project_sort_oldest_orders_by_created_asc() {
    let items = fixture();
    let (_, owned, _) = project_albums(&items, "me", "", AlbumsSort::Oldest);
    let ids: Vec<&str> = owned.iter().map(|a| a.id.as_str()).collect();
    assert_eq!(ids, vec!["a3", "a4", "a1"]);
}

#[test]
fn equal_keys_keep_their_order() {
    let items = vec![
        album("x", "Same", "me", 5, "2024-01-01"),
        album("y", "same", "me", 5, "2024-01-01"),
        album("z", "SAME", "me", 5, "2024-01-01"),
    ];
    for mode in [AlbumsSort::Newest, AlbumsSort::Oldest, AlbumsSort::Name, AlbumsSort::MostAssets] {
        let (_, owned, _) = project_albums(&items, "me", "", mode);
        let ids: Vec<&str> = owned.iter().map(|a| a.id.as_str()).collect();
        assert_eq!(ids, vec!["x", "y", "z"]);
    }
}

#[test]
fn chips_choose_among_the_matches() {
    let items = fixture();
    let all = visible_albums(&items, "me", "", AlbumsSort::Newest, ChipFilter::All);
    assert_eq!(all.len(), 4);
    let shared = visible_albums(&items, "me", "", AlbumsSort::Newest, ChipFilter::Shared);
    assert_eq!(shared.len(), 1);
    let owned = visible_albums(&items, "me", "", AlbumsSort::Newest, ChipFilter::Owned);
    assert_eq!(owned.len(), 3);
}

#[test]
fn sort_modes_come_round() {
    let start = AlbumsSort::default();
    assert_eq!(start.next().next().next().next(), start);
    let mut parts = build_albums_view();
    let before = parts.sort_mode;
    cycle_sort_mode(&mut parts);
    assert_eq!(parts.sort_mode, before.next());
    set_sort_mode(&mut parts, AlbumsSort::Name);
    assert_eq!(parts.sort_mode, AlbumsSort::Name);
}

#[test]
fn view_toggle_comes_back() {
    let mut parts = build_albums_view();
    let before = parts.view_mode;
    toggle_view_mode(&mut parts);
    assert_ne!(parts.view_mode, before);
    toggle_view_mode(&mut parts);
    assert_eq!(parts.view_mode, before);
}

#[test]
fn page_follows_search_and_chip() {
    let mut parts = build_albums_view();
    assert!(render_albums(&mut parts, "me").is_none());
    populate_albums(&mut parts, fixture());
    set_search_filter(&mut parts, "BEACH");
    let page = render_albums(&mut parts, "me").unwrap();
    assert_eq!(page.rows.len(), 2);
    assert!(!page.empty);
    select_chip(&mut parts, ChipFilter::Shared);
    let page = render_albums(&mut parts, "me").unwrap();
    assert!(page.empty);
}

#[test]
fn counts_are_singular_and_plural() {
    assert_eq!(item_count_label(1), "1 item");
    assert_eq!(item_count_label(0), "0 items");
    assert_eq!(item_count_label(12), "12 items");
}

#[test]
fn subtitle_tells_owned_from_shared() {
    let items = fixture();
    let mine = album_subtitle_label(&items[0], "me");
    let theirs = album_subtitle_label(&items[1], "me");
    assert!(mine.starts_with("200 items"));
    assert_ne!(mine, theirs);
}
