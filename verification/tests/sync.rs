use mimick_library::album_actions::{
    album_download_progress, download_name, download_record, execute_local_deletions, files_under,
    next_page, numbered, remote_deletion_count, resolve_local_checksums, sidecars_wanted,
    split_by_checksum, split_remote_deletions, tally, unique_destination, upload_task,
    SidecarSetting,
};
use mimick_library::album_sync::{
    diff_album_vs_folder, finish_diff, AlbumComparison, AlbumDiff,
    FolderRecord, FolderRules, FolderSyncMethod, LocalEntry,
};
use mimick_library::api::LibraryAsset;
use mimick_library::local_source::LocalAsset;
use mimick_library::sync_index::{SyncIndex, SyncTarget};

fn rules() -> FolderRules {
    FolderRules {
        delete_folder_to_album: true,
        delete_album_to_folder: true,
        sync_method: FolderSyncMethod::Full,
    }
}

fn local(path: &str) -> LocalAsset {
    LocalAsset {
        path: path.into(),
        filename: path.rsplit('/').next().unwrap().into(),
        mime: "image/jpeg".into(),
        asset_type: "IMAGE",
        created_at: String::new(),
    }
}

fn entry(path: &str, checksum: &str) -> LocalEntry {
    LocalEntry { local: local(path), checksum: checksum.into() }
}

fn remote(id: &str, checksum: Option<&str>) -> LibraryAsset {
    LibraryAsset {
        id: id.into(),
        filename: format!("{id}.jpg"),
        mime_type: "image/jpeg".into(),
        created_at: String::new(),
        asset_type: "IMAGE".into(),
        thumbhash: None,
        width: None,
        height: None,
        checksum: checksum.map(String::from),
        exif_info: None,
    }
}

fn record(path: &str, checksum: &str, on_disk: bool) -> FolderRecord {
    FolderRecord {
        path: path.into(),
        checksum: checksum.into(),
        album_id: Some("album".into()),
        on_disk,
    }
}

fn ids(assets: &[LibraryAsset]) -> Vec<&str> {
    assets.iter().map(|a| a.id.as_str()).collect()
}

#[test]
fn diff_uploads_new_files_and_downloads_new_assets() {
    let mut index = SyncIndex::new();
    let outcome = diff_album_vs_folder(
        "album",
        &rules(),
        true,
        &vec![remote("r1", Some("0a")), remote("r2", Some("0b"))],
        &vec![entry("/f/a.jpg", "0a"), entry("/f/c.jpg", "0c")],
        &vec![],
        &mut index,
        &vec![],
    );
    let diff = outcome.diff;
    assert_eq!(diff.to_upload.len(), 1);
    assert_eq!(diff.to_upload[0].local.path, "/f/c.jpg");
    assert_eq!(ids(&diff.to_download), vec!["r2"]);
    assert!(diff.to_delete_remote.is_empty());
    assert!(diff.to_delete_local.is_empty());
    assert_eq!(diff.remote_unhashed, 0);
}

#[test]
fn diff_counts_assets_without_a_checksum() {
    let mut index = SyncIndex::new();
    let outcome = diff_album_vs_folder(
        "album",
        &rules(),
        true,
        &vec![remote("r1", None)],
        &vec![],
        &vec![],
        &mut index,
        &vec![],
    );
    assert_eq!(outcome.diff.remote_unhashed, 1);
    assert!(outcome.diff.to_download.is_empty());
}

#[test]
fn diff_deletes_from_the_album_what_left_the_folder() {
    let mut index = SyncIndex::new();
    index.record_synced(
        "/f/a.jpg",
        "0a",
        &SyncTarget { album_name: None, album_id: Some("album".into()) },
    );
    let outcome = diff_album_vs_folder(
        "album",
        &rules(),
        true,
        &vec![remote("r1", Some("0a"))],
        &vec![],
        &vec![record("/f/a.jpg", "0a", false)],
        &mut index,
        &vec![],
    );
    assert_eq!(ids(&outcome.diff.to_delete_remote), vec!["r1"]);
    assert!(outcome.diff.to_download.is_empty());
}

#[test]
fn diff_of_the_same_content_is_empty() {
    let mut index = SyncIndex::new();
    let outcome = diff_album_vs_folder(
        "album",
        &rules(),
        false,
        &vec![remote("r1", Some("0a"))],
        &vec![entry("/f/a.jpg", "0a")],
        &vec![],
        &mut index,
        &vec![],
    );
    let diff = outcome.diff;
    assert!(diff.to_upload.is_empty() && diff.to_download.is_empty());
    assert!(diff.to_delete_remote.is_empty() && diff.to_delete_local.is_empty());
}

#[test]
fn diff_takes_a_moved_file_for_a_rename() {
    let mut index = SyncIndex::new();
    index.record_synced(
        "/f/old.jpg",
        "0a",
        &SyncTarget { album_name: None, album_id: Some("album".into()) },
    );
    let outcome = diff_album_vs_folder(
        "album",
        &rules(),
        true,
        &vec![remote("r1", Some("0a"))],
        &vec![entry("/f/new.jpg", "0a")],
        &vec![record("/f/old.jpg", "0a", false)],
        &mut index,
        &vec![],
    );
    assert_eq!(outcome.renames.len(), 1);
    assert_eq!(outcome.renames[0].new_path, "/f/new.jpg");
    assert!(index.record_for_path("/f/old.jpg").is_none());
    assert!(index.record_for_path("/f/new.jpg").is_some());
    assert!(outcome.diff.to_upload.is_empty());
    assert!(outcome.diff.to_delete_remote.is_empty());
}

fn method_diff(sync_method: FolderSyncMethod) -> AlbumDiff {
    let mut index = SyncIndex::new();
    diff_album_vs_folder(
        "album",
        &FolderRules { sync_method, ..rules() },
        true,
        &vec![remote("r1", Some("0b"))],
        &vec![entry("/f/a.jpg", "0a")],
        &vec![],
        &mut index,
        &vec![],
    )
    .diff
}

#[test]
fn one_way_folders_sync_one_way() {
    let up = method_diff(FolderSyncMethod::UploadOnly);
    assert_eq!((up.to_upload.len(), up.to_download.len()), (1, 0));
    let down = method_diff(FolderSyncMethod::DownloadOnly);
    assert_eq!((down.to_upload.len(), down.to_download.len()), (0, 1));
    let full = method_diff(FolderSyncMethod::Full);
    assert_eq!((full.to_upload.len(), full.to_download.len()), (1, 1));
}

#[test]
fn many_deletions_wait_for_confirmation() {
    let deletions: Vec<LibraryAsset> = (0..6)
        .map(|i| {
            let id = format!("r{i}");
            remote(&id, Some("0a"))
        })
        .collect();
    let comparison = || AlbumComparison {
        to_upload: vec![],
        to_download: vec![],
        to_delete_local: vec![],
        renames: vec![],
        remote_unhashed: 0,
    };
    let answers = vec![true, false, true, false, false, true];
    let diff = finish_diff(&rules(), comparison(), deletions.clone(), &vec![], &answers);
    assert_eq!(ids(&diff.to_delete_remote), vec!["r0", "r2", "r5"]);
    let few: Vec<LibraryAsset> = deletions.into_iter().take(5).collect();
    let diff = finish_diff(&rules(), comparison(), few, &vec![], &vec![false; 5]);
    assert_eq!(diff.to_delete_remote.len(), 5);
}

#[test]
fn empty_diff_is_the_default() {
    let diff = AlbumDiff::default();
    assert!(diff.to_upload.is_empty());
    assert_eq!(diff.remote_unhashed, 0);
}

#[test]
fn local_deletions_are_not_carried_out() {
    assert_eq!(execute_local_deletions(&vec![entry("/a", "0a")]), (0, 0));
}

#[test]
fn pages_are_fetched_to_the_last() {
    assert_eq!(next_page(1, true), Some(2));
    assert_eq!(next_page(1, false), None);
}

#[test]
fn files_of_a_folder_are_chosen_by_component() {
    let locals = vec![local("/pics/a.jpg"), local("/pics2/b.jpg"), local("/pics/x/c.jpg")];
    let paths: Vec<String> = files_under(&locals, "/pics").into_iter().map(|a| a.path).collect();
    assert_eq!(paths, vec!["/pics/a.jpg", "/pics/x/c.jpg"]);
}

#[test]
fn known_checksums_are_not_hashed_again() {
    let locals = vec![local("/a"), local("/b"), local("/c")];
    let fresh = vec![Some("0a".to_string()), None, None];
    let (known, to_hash) = split_by_checksum(&locals, &fresh);
    assert_eq!(known.len(), 1);
    assert_eq!(to_hash.len(), 2);
    let all = resolve_local_checksums(known, &to_hash, &vec![None, Some("0c".to_string())]);
    let pairs: Vec<(&str, &str)> =
        all.iter().map(|e| (e.local.path.as_str(), e.checksum.as_str())).collect();
    assert_eq!(pairs, vec![("/a", "0a"), ("/c", "0c")]);
}

#[test]
fn sidecars_go_by_the_folder() {
    let settings = vec![SidecarSetting { path: "/pics".into(), enabled: false }];
    assert!(!sidecars_wanted(&settings, "/pics", true));
    assert!(sidecars_wanted(&settings, "/other", true));
}

#[test]
fn uploads_carry_the_album() {
    let task = upload_task(&entry("/p/a.jpg", "0a"), "/p", "id", "Trip", false, Some("x".into()));
    assert_eq!(task.path, "/p/a.jpg");
    assert_eq!(task.watch_path, "/p");
    assert_eq!(task.checksum, "0a");
    assert_eq!(task.album_id.as_deref(), Some("id"));
    assert_eq!(task.album_name.as_deref(), Some("Trip"));
    assert!(task.sidecar_path.is_none());
}

#[test]
fn outcomes_are_counted() {
    assert_eq!(tally(&vec![true, false, true]), (2, 1));
}

#[test]
fn downloads_are_named_and_recorded() {
    assert_eq!(download_name(Some("a.jpg".into()), "id"), "a.jpg");
    assert_eq!(download_name(None, "id"), "id");
    let (sum, to) = download_record(&remote("r", Some("0a1b")), &Some("al".into()), &None).unwrap();
    assert_eq!(sum, "0a1b");
    assert_eq!(to.album_id.as_deref(), Some("al"));
    assert!(download_record(&remote("r", None), &None, &None).is_none());
}

#[test]
fn assets_of_other_albums_are_only_unlinked() {
    let assets = vec![remote("a", None), remote("b", None), remote("c", None)];
    let (trash, unlink) = split_remote_deletions(&assets, &vec![Some(1), Some(2), None]);
    assert_eq!(trash.len() + unlink.len(), 3);
    assert_eq!(trash, vec!["a", "c"]);
    assert_eq!(unlink, vec!["b"]);
    assert_eq!(remote_deletion_count(1, true, 2, false), 1);
    assert_eq!(remote_deletion_count(1, true, 2, true), 3);
}

#[test]
fn destinations_do_not_clash() {
    let none: Vec<String> = vec![];
    assert_eq!(unique_destination("/d", Some("a.jpg".into()), "a.jpg", &none), "/d/a.jpg");
    let taken = vec!["/d/a.jpg".to_string(), "/d/a (1).jpg".to_string()];
    assert_eq!(unique_destination("/d", Some("a.jpg".into()), "a.jpg", &taken), "/d/a (2).jpg");
    assert_eq!(unique_destination("/d", None, "..", &none), "/d/download");
    assert_eq!(numbered("a", "", 3), "a (3)");
}

#[test]
fn progress_takes_the_first_total() {
    let first = album_download_progress(0, 5, Some(100));
    assert_eq!(first.set_total, Some(100));
    assert_eq!(first.bytes_done, 5);
    assert_eq!(album_download_progress(100, 6, Some(200)).set_total, None);
    assert_eq!(album_download_progress(0, 6, None).set_total, None);
}
