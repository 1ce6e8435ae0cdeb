use mimick_library::api::{ExifSize, LibraryAsset};
use mimick_library::asset_model::{
    build_asset_objects, local_backup_state, local_path_of_id, sort_objects, AssetInit, AssetObject,
    LibraryAssetModel,
};
use mimick_library::local_source::LocalAsset;
use mimick_library::merge::{
    local_rows, local_to_library_asset, merge_album_unified_page, merge_galleries_page,
    merge_unified_page, sorted_newest_first,
};
use mimick_library::sources::LibrarySortMode;
use mimick_library::sync_index::{SyncIndex, SyncTarget};

fn asset(id: &str, created: &str, checksum: Option<&str>) -> LibraryAsset {
    LibraryAsset {
        id: id.into(),
        filename: format!("{id}.jpg"),
        mime_type: "image/jpeg".into(),
        created_at: created.into(),
        asset_type: "IMAGE".into(),
        thumbhash: None,
        width: None,
        height: None,
        checksum: checksum.map(String::from),
        exif_info: None,
    }
}

fn local(path: &str, created: &str) -> LocalAsset {
    LocalAsset {
        path: path.into(),
        filename: path.rsplit('/').next().unwrap().into(),
        mime: "image/jpeg".into(),
        asset_type: "IMAGE",
        created_at: created.into(),
    }
}

fn synced(path: &str, checksum: &str) -> SyncIndex {
    let mut index = SyncIndex::new();
    index.record_synced(path, checksum, &SyncTarget { album_name: None, album_id: None });
    index
}

fn page_ids(page: &Result<(Vec<LibraryAsset>, bool), String>) -> Vec<&str> {
    page.as_ref().unwrap().0.iter().map(|a| a.id.as_str()).collect()
}

#[test]
fn local_files_become_rows() {
    let row = local_to_library_asset(&local("/p/a.jpg", "2024"));
    assert_eq!(row.id, "local::/p/a.jpg");
    assert_eq!(row.filename, "a.jpg");
    assert!(row.checksum.is_none());
    assert_eq!(local_rows(&vec![local("/a", ""), local("/b", "")]).len(), 2);
    assert_eq!(local_path_of_id("local::/p/a.jpg").as_deref(), Some("/p/a.jpg"));
    assert_eq!(local_path_of_id("remote"), None);
}

#[test]
fn first_unified_page_adds_files_that_are_not_synced() {
    let index = synced("/p/a.jpg", "AQ==");
    let remote = Ok((vec![asset("r1", "2024-02", Some("AQ=="))], true));
    let locals = vec![local("/p/a.jpg", "2024-02"), local("/p/b.jpg", "2024-01")];
    let page = merge_unified_page(remote, 1, locals, &index, None);
    assert!(page_ids(&page).contains(&"local::/p/b.jpg"));
    assert!(page_ids(&page).contains(&"r1"));
    assert!(page.as_ref().unwrap().1);
}

#[test]
fn later_unified_pages_are_the_servers() {
    let remote = Ok((vec![asset("r1", "2024-02", None)], false));
    let page = merge_unified_page(remote, 2, vec![local("/p/b.jpg", "")], &SyncIndex::new(), None);
    assert_eq!(page_ids(&page), vec!["r1"]);
}

#[test]
fn errors_of_the_server_pass_through() {
    let page =
        merge_unified_page(Err("offline".into()), 1, vec![local("/p/b.jpg", "")], &SyncIndex::new(), None);
    assert_eq!(page.unwrap_err(), "offline");
    let page = merge_galleries_page(Err("offline".into()), 1, vec![], &SyncIndex::new());
    assert!(page.is_err());
    let page = merge_album_unified_page(Err("offline".into()), 1, None, &SyncIndex::new());
    assert!(page.is_err());
}

#[test]
fn album_pages_add_the_linked_folder() {
    let remote = || Ok((vec![asset("r1", "2024-02", Some("AQ=="))], false));
    let none = merge_album_unified_page(remote(), 1, None, &SyncIndex::new());
    assert_eq!(page_ids(&none), vec!["r1"]);
    let some =
        merge_album_unified_page(remote(), 1, Some(vec![local("/p/b.jpg", "")]), &SyncIndex::new());
    assert_eq!(some.unwrap().0.len(), 2);
}

#[test]
fn gallery_pages_come_newest_first() {
    let remote = Ok((vec![asset("r1", "2024-01", None), asset("r2", "2024-03", None)], false));
    let page = merge_galleries_page(remote, 1, vec![local("/p/b.jpg", "2024-02")], &SyncIndex::new());
    assert_eq!(page_ids(&page), vec!["r2", "local::/p/b.jpg", "r1"]);
}

#[test]
fn sorting_newest_first_is_stable() {
    let sorted = sorted_newest_first(&vec![
        asset("a", "2024-01", None),
        asset("b", "2024-02", None),
        asset("c", "2024-01", None),
    ]);
    let ids: Vec<&str> = sorted.iter().map(|a| a.id.as_str()).collect();
    assert_eq!(ids, vec!["b", "a", "c"]);
}

#[test]
fn badges_tell_where_a_file_is() {
    let index = synced("/p/a.jpg", "sum");
    let server = vec!["sum".to_string()];
    assert_eq!(local_backup_state(&index, &server, "/p/a.jpg"), 2);
    assert_eq!(local_backup_state(&index, &vec!["other".to_string()], "/p/a.jpg"), 1);
    assert_eq!(local_backup_state(&SyncIndex::new(), &server, "/p/a.jpg"), 1);
}

#[test]
fn rows_take_their_size_from_the_metadata() {
    let mut a = asset("r1", "2024", None);
    a.exif_info =
        Some(ExifSize { exif_image_width: Some(40), exif_image_height: Some(30) });
    let rows = build_asset_objects(&vec![a], &SyncIndex::new(), &vec![]);
    assert_eq!(rows.len(), 1);
    assert_eq!((rows[0].width, rows[0].height), (40, 30));
    assert_eq!(rows[0].sync_state, 0);
    assert_eq!(rows[0].remote_id, "r1");
}

fn object(id: &str, filename: &str, mime: &str) -> AssetObject {
    AssetObject::new(AssetInit {
        id,
        filename,
        mime_type: mime,
        created_at: "2024",
        asset_type: "IMAGE",
        sync_state: 0,
        thumbhash: None,
        width: 0,
        height: 0,
    })
}

#[test]
fn rows_sort_by_name_and_type() {
    let rows = || {
        vec![
            object("1", "b.png", "image/png"),
            object("2", "A.jpg", "image/jpeg"),
            object("3", "a.jpg", "image/jpeg"),
        ]
    };
    let ids = |v: Vec<AssetObject>| -> Vec<String> { v.into_iter().map(|o| o.id).collect() };
    assert_eq!(ids(sort_objects(rows(), LibrarySortMode::NewestFirst)), vec!["1", "2", "3"]);
    assert_eq!(ids(sort_objects(rows(), LibrarySortMode::Filename)), vec!["2", "3", "1"]);
    assert_eq!(ids(sort_objects(rows(), LibrarySortMode::FileType)), vec!["2", "3", "1"]);
}

#[test]
fn model_reports_what_changed() {
    let mut model = LibraryAssetModel::new();
    assert_eq!(model.n_items(), 0);
    let change = model.reset_with_objects(vec![object("1", "a", "m"), object("2", "b", "m")]);
    assert_eq!((change.position, change.removed, change.added), (0, 0, 2));
    let change = model.append_objects(vec![object("3", "c", "m")]).unwrap();
    assert_eq!((change.position, change.removed, change.added), (2, 0, 1));
    assert!(model.append_objects(vec![]).is_none());
    assert_eq!(model.item(2).unwrap().id, "3");
    assert!(model.item(3).is_none());
    let change = model.reset_with_objects(vec![]);
    assert_eq!((change.removed, change.added), (3, 0));
}

#[test]
fn model_follows_the_assets() {
    let mut model = LibraryAssetModel::new();
    let index = SyncIndex::new();
    let assets = vec![asset("a", "2024-01", None), asset("b", "2024-02", None)];
    model.reset(&index, &vec![], &assets, LibrarySortMode::NewestFirst);
    assert_eq!(model.n_items(), 2);
    let longer = vec![
        asset("a", "2024-01", None),
        asset("b", "2024-02", None),
        asset("c", "2024-03", None),
    ];
    let change = model.extend(&index, &vec![], &longer, LibrarySortMode::NewestFirst).unwrap();
    assert_eq!((change.position, change.removed, change.added), (2, 0, 1));
    assert_eq!(model.item(2).unwrap().id, "c");
}
