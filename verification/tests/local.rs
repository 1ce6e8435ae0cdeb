use mimick_library::local_source::{
    asset_type_for_mime, build_asset, filter_by_filename, is_local_id, local_sync_state,
    mime_for_extension, select_local_files, synthetic_id, FoundFile, LocalAsset,
};
use mimick_library::sync_index::{entry_after_rename, migrate_renamed_record, SyncIndex, SyncTarget};

fn make(name: &str) -> LocalAsset {
    LocalAsset {
        path: name.into(),
        filename: name.into(),
        mime: "image/jpeg".into(),
        asset_type: "IMAGE",
        created_at: String::new(),
    }
}

#[test]
fn filter_by_filename_is_case_insensitive_substring() {
    let items = vec![make("Beach.JPG"), make("city.jpg"), make("forest.png")];
    let filtered = filter_by_filename(items, "JpG");
    assert_eq!(filtered.len(), 2);
}

#[test]
fn filter_by_filename_empty_query_returns_all() {
    let items = vec![make("a.jpg"), make("b.jpg")];
    assert_eq!(filter_by_filename(items, "  ").len(), 2);
}

#[test]
fn synthetic_id_is_stable_across_clones() {
    let a = make("/tmp/a.jpg");
    assert_eq!(synthetic_id(&a), synthetic_id(&a.clone()));
}

#[test]
fn row_ids_are_made_of_paths() {
    assert_eq!(synthetic_id(&make("/tmp/a.jpg")), "local::/tmp/a.jpg");
    assert!(is_local_id("local::/tmp/a.jpg"));
    assert!(!is_local_id("0a1b"));
}

#[test]
fn mime_types_go_by_the_extension() {
    assert_eq!(mime_for_extension("/a/B.JPG"), "image/jpeg");
    assert_eq!(mime_for_extension("/a/clip.mp4"), "video/mp4");
    assert_eq!(mime_for_extension("/a/none"), "application/octet-stream");
    assert_eq!(asset_type_for_mime("video/mp4"), "VIDEO");
    assert_eq!(asset_type_for_mime("image/png"), "IMAGE");
}

#[test]
fn assets_are_built_from_files() {
    let asset = build_asset("/photos/x.png", Some("2024-01-01T00:00:00.000Z".into())).unwrap();
    assert_eq!(asset.filename, "x.png");
    assert_eq!(asset.mime, "image/png");
    assert_eq!(asset.created_at, "2024-01-01T00:00:00.000Z");
    assert!(build_asset("/", None).is_none());
}

fn found(path: &str, canonical: Option<&str>) -> FoundFile {
    FoundFile {
        path: path.into(),
        canonical: canonical.map(String::from),
        supported: true,
        temporary: false,
        admitted: true,
        modified: Some(String::new()),
    }
}

#[test]
fn a_file_that_is_found_twice_is_listed_once() {
    let files = vec![
        found("/a/x.jpg", Some("/real/x.jpg")),
        found("/b/x.jpg", Some("/real/x.jpg")),
        found("/b/y.jpg", None),
        found("/b//./y.jpg", None),
        FoundFile { modified: None, ..found("/b/gone.jpg", None) },
        FoundFile { supported: false, ..found("/b/z.txt", None) },
        FoundFile { temporary: true, ..found("/b/t.jpg", None) },
        FoundFile { admitted: false, ..found("/b/u.jpg", None) },
    ];
    let paths: Vec<String> = select_local_files(&files).into_iter().map(|a| a.path).collect();
    assert_eq!(paths, vec!["/a/x.jpg", "/b/y.jpg"]);
}

fn target(album: &str) -> SyncTarget {
    SyncTarget { album_name: Some(album.into()), album_id: Some(format!("id-{album}")) }
}

#[test]
fn sync_state_tells_local_from_both() {
    let mut index = SyncIndex::new();
    assert_eq!(local_sync_state(&index, "/a.jpg"), 1);
    index.record_synced("/a.jpg", "c1", &target("t"));
    assert_eq!(local_sync_state(&index, "/a.jpg"), 2);
    index.remove_path("/a.jpg");
    assert_eq!(local_sync_state(&index, "/a.jpg"), 1);
}

#[test]
fn renames_carry_the_album_along() {
    let mut index = SyncIndex::new();
    index.record_synced("/old.jpg", "c1", &target("t"));
    migrate_renamed_record(&mut index, "/old.jpg", "/new.jpg", "c1");
    assert!(index.record_for_path("/old.jpg").is_none());
    let record = index.record_for_path("/new.jpg").unwrap();
    assert_eq!(record.checksum, "c1");
    assert_eq!(record.album_id.as_deref(), Some("id-t"));
    assert_eq!(index.stored_checksum("/new.jpg").as_deref(), Some("c1"));
}

#[test]
fn a_rename_is_recorded_only_once_the_old_record_is_gone() {
    let mut index = SyncIndex::new();
    index.record_synced("/old.jpg", "c1", &target("t"));
    let was = index.record_for_path("/old.jpg");
    assert_eq!(entry_after_rename(was, "/new.jpg", "c1", false), None);
    let was = index.record_for_path("/old.jpg");
    let entry = entry_after_rename(was, "/new.jpg", "c1", true).unwrap();
    assert_eq!((entry.path.as_str(), entry.record.checksum.as_str()), ("/new.jpg", "c1"));
    assert_eq!(entry.record.album_name.as_deref(), Some("t"));
    let entry = entry_after_rename(None, "/new.jpg", "c2", true).unwrap();
    assert_eq!((entry.record.album_id, entry.record.album_name), (None, None));
}
