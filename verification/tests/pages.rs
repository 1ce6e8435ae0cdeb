use mimick_library::album_sync::{AlbumDiff, FolderRules, FolderSyncMethod};
use mimick_library::backup::{
    backup_button_label, backup_counters, basename, byte_progress_text, candidate_folders,
    files_to_upload, refresh_backup_status, selected_folders_subtitle, unique_checksums,
    BackupPhase, BackupState, BackupSwitch, HashedFile,
};
use mimick_library::details::Person;
use mimick_library::download::{
    batch_summary, conflict_action, download_notice, folder_display_name, item_label,
    refreshes_library, resolve_conflict, target_name, unique_path, BatchStep, ConflictAction,
    DownloadBatch,
};
use mimick_library::explore::{
    begin_landing, build_browse_view, build_explore_view, compute_epoch_seconds, format_relative_date,
    has_cached_places, parse_iso_date, person_name, populate_explore, populate_people,
    populate_places, render_cached_places, render_recents_tiles, section_kind, see_more_label,
    set_people_search, show_loading, shown_recent_items, BrowseOptions, BrowsePart, ExploreItem, ExploreSection,
    ExploreViewParts, PeopleSettings, PlacesState, SectionKind, Stamp,
};
use mimick_library::map::{
    format_count, map_page, pin_for, rebuild_clusters, GridCell, MapPage, Pin, ZoomBucket, MAX_PINS,
};
use mimick_library::sources::{LibrarySource, Tab};
use mimick_library::status::{
    albums_error, footer_tooltip, refresh_library_surfaces, session_is_stale, status_is_missing,
    update_transfer_ui, LastAverages, Progress, RateTexts, SeenBatches, ServerStats,
    TransferDirection, TransferItem, TransferSnapshot,
};
use mimick_library::watch::{
    album_sync_request, chosen_diff, handle_album_link_click, is_selected, link_album_to_path,
    refresh_after_sync, refresh_album_link_row, set_folder_selected, sync_dialog, unlink_album,
    watch_entry_for_album, ChosenDirections, LinkClick, SyncDialog, WatchEntry,
};

const RULES: FolderRules = FolderRules {
    delete_folder_to_album: false,
    delete_album_to_folder: false,
    sync_method: FolderSyncMethod::UploadOnly,
};

fn watched(path: &str, album: Option<&str>) -> WatchEntry {
    WatchEntry {
        path: path.into(),
        album_id: album.map(|a| format!("id-{a}")),
        album_name: album.map(String::from),
        rules: RULES,
    }
}

fn album(name: &str) -> LibrarySource {
    LibrarySource::Album { id: format!("id-{name}"), name: name.into() }
}

#[test]
fn links_are_found_and_cut() {
    let mut entries = vec![watched("/a", None), watched("/b", Some("Trip"))];
    assert_eq!(watch_entry_for_album("Trip", &entries).unwrap().path, "/b");
    let request = link_album_to_path(&mut entries, "id-Trip", "Trip", "/c", RULES);
    assert_eq!((request.album_id.as_str(), request.watch_path.as_str()), ("id-Trip", "/c"));
    assert_eq!(album_sync_request(&album("Trip"), &entries), Some(request));
    assert_eq!(watch_entry_for_album("Trip", &entries).unwrap().path, "/c");
    assert_eq!(entries.len(), 2);
    link_album_to_path(&mut entries, "id-Home", "Home", "/d", RULES);
    assert_eq!(watch_entry_for_album("Trip", &entries).unwrap().path, "/c");
    unlink_album(&mut entries, "Trip");
    assert!(watch_entry_for_album("Trip", &entries).is_none());
    assert_eq!(watch_entry_for_album("Home", &entries).unwrap().path, "/d");
}

#[test]
fn link_rows_follow_the_album() {
    let entries = vec![watched("/b", Some("Trip"))];
    assert!(refresh_album_link_row(&LibrarySource::AllAssets, &entries).is_none());
    let row = refresh_album_link_row(&album("Trip"), &entries).unwrap();
    assert_eq!((row.title.as_str(), row.subtitle.as_str()), ("Linked folder", "/b"));
    assert!(row.sync_visible);
    let row = refresh_album_link_row(&album("Home"), &entries).unwrap();
    assert_eq!(row.button, "Link folder\u{2026}");
    assert!(!row.sync_visible);
    assert_eq!(
        handle_album_link_click(&album("Trip"), &entries),
        LinkClick::Unlink { album_name: "Trip".into() }
    );
    assert!(matches!(
        handle_album_link_click(&album("Home"), &entries),
        LinkClick::ChooseFolder { title, .. } if title == "Link folder for album 'Home'"
    ));
    assert_eq!(handle_album_link_click(&LibrarySource::Unified, &entries), LinkClick::Nothing);
}

#[test]
fn manual_sync_previews_every_direction() {
    let entries = vec![watched("/b", Some("Trip"))];
    let request = album_sync_request(&album("Trip"), &entries).unwrap();
    assert_eq!(request.watch_path, "/b");
    assert!(request.rules.delete_folder_to_album && request.rules.delete_album_to_folder);
    assert_eq!(request.rules.sync_method, FolderSyncMethod::Full);
    assert!(album_sync_request(&album("Home"), &entries).is_none());
}

#[test]
fn sync_dialogs_say_what_is_to_do() {
    assert_eq!(
        sync_dialog(&AlbumDiff::default()),
        SyncDialog::InSync { body: "Already in sync.".into() }
    );
    let unhashed = AlbumDiff { remote_unhashed: 2, ..Default::default() };
    assert_eq!(
        sync_dialog(&unhashed),
        SyncDialog::InSync {
            body: "Already in sync. (2 remote item(s) couldn't be matched — missing checksum.)"
                .into()
        }
    );
    let diff = || AlbumDiff {
        to_download: vec![remote("r")],
        to_delete_remote: vec![remote("s"), remote("t")],
        ..Default::default()
    };
    assert_eq!(
        sync_dialog(&diff()),
        SyncDialog::Choose {
            body: "Pick which directions to apply.".into(),
            labels: vec![
                "Download 1 item(s) to folder".into(),
                "Move 2 album item(s) to trash".into()
            ]
        }
    );
    let none =
        ChosenDirections { upload: false, download: false, delete_remote: false, delete_local: false };
    assert!(chosen_diff(diff(), none).is_none());
    let some = chosen_diff(diff(), ChosenDirections { download: true, ..none }).unwrap();
    assert_eq!((some.to_download.len(), some.to_delete_remote.len()), (1, 0));
    assert!(refresh_after_sync(0, 1, 0, 0));
    assert!(!refresh_after_sync(0, 0, 0, 0));
}

fn remote(id: &str) -> mimick_library::api::LibraryAsset {
    mimick_library::api::LibraryAsset {
        id: id.into(),
        filename: "f".into(),
        mime_type: "m".into(),
        created_at: "".into(),
        asset_type: "IMAGE".into(),
        thumbhash: None,
        width: None,
        height: None,
        checksum: None,
        exif_info: None,
    }
}

#[test]
fn folders_are_selected_once() {
    let mut entries = vec![watched("/b", Some("Trip"))];
    assert!(!set_folder_selected(&mut entries, "/b", true, RULES));
    assert!(set_folder_selected(&mut entries, "/c", true, RULES));
    assert!(is_selected(&entries, "/c"));
    assert!(set_folder_selected(&mut entries, "/b", false, RULES));
    assert!(!set_folder_selected(&mut entries, "/b", false, RULES));
    assert_eq!(entries.len(), 1);
}

#[test]
fn folder_lists_are_named_and_sorted() {
    assert_eq!(selected_folders_subtitle(&vec![]), "No folders selected");
    let entries = vec![watched("/p/Camera", None), watched("/q/Shots", None)];
    assert_eq!(selected_folders_subtitle(&entries), "Selected: Camera, Shots");
    assert_eq!(basename("/"), "/");
    let found = candidate_folders(
        &vec!["/p/b".into(), "/p-x".into(), "/p/a".into(), "/p//b/".into()],
        &vec![watched("/p/a", None), watched("/o", None)],
    );
    assert_eq!(found, vec!["/o", "/p/a", "/p/b", "/p-x"]);
    let mut std: Vec<std::path::PathBuf> = found.iter().map(std::path::PathBuf::from).collect();
    std.sort();
    let names: Vec<&str> = std.iter().map(|p| p.to_str().unwrap()).collect();
    assert_eq!(found, names);
}

fn hashed(path: &str, checksum: &str) -> HashedFile {
    HashedFile { path: path.into(), checksum: checksum.into() }
}

#[test]
fn counters_match_what_is_uploaded() {
    let files = vec![hashed("/a", "1"), hashed("/b", "2"), hashed("/c", "1"), hashed("/d", "3")];
    let server = vec!["1".to_string()];
    assert_eq!(files_to_upload(&files, &server), vec!["/b", "/d"]);
    assert_eq!(unique_checksums(&files), vec!["1", "2", "3"]);
    let counters = backup_counters(6, &files, &server);
    assert_eq!((counters.total, counters.backed_up, counters.remaining), (6, 2, 4));
    assert!(files_to_upload(&files, &vec!["1".into(), "2".into(), "3".into()]).is_empty());
}

#[test]
fn one_backup_at_a_time() {
    let mut state = BackupState { enabled: false, in_progress: false };
    assert!(!state.trigger_backup_tick());
    assert_eq!(state.set_backup_enabled(true), BackupSwitch { saves: true, begins: true });
    assert_eq!(state.set_backup_enabled(true), BackupSwitch { saves: false, begins: false });
    assert_eq!(state.set_backup_enabled(false), BackupSwitch { saves: true, begins: false });
    assert_eq!(state.set_backup_enabled(true), BackupSwitch { saves: true, begins: false });
    assert!(!state.start_backup_now());
    assert!(!state.trigger_backup_tick());
    assert!(!state.files_counted(0));
    assert!(state.start_backup_now());
    assert!(state.files_counted(3));
    assert!(!state.start_backup_now());
    state.finish();
    assert!(state.start_backup_now());
    assert_eq!(backup_button_label(BackupPhase::Running { count: 3 }), "Backing up 3…");
    assert_eq!(backup_button_label(BackupPhase::Idle), "Back up now");
    assert_eq!(backup_button_label(BackupPhase::Preparing), "Preparing…");
    assert_eq!(backup_button_label(BackupPhase::NothingToDo), "All backed up");
}

fn transfer(direction: TransferDirection) -> TransferSnapshot {
    TransferSnapshot {
        active: true,
        direction,
        active_uploads: 2,
        active_downloads: 0,
        active_item_label: None,
        current_bytes: 1,
        total_bytes: Some(3),
        items: vec![
            TransferItem { id: "/p/b.jpg".into(), bytes: 512, total: 1024 },
            TransferItem { id: "/p/a.jpg".into(), bytes: 2048, total: 0 },
        ],
    }
}

#[test]
fn uploads_are_listed_by_item() {
    let status = refresh_backup_status(&transfer(TransferDirection::Upload)).unwrap();
    assert_eq!(status.title, "Uploading 2 items");
    assert_eq!(status.subtitle, "queued asset");
    assert_eq!(status.progress, Progress::Fraction { done: 1, total: 3 });
    let rows: Vec<(&str, &str)> =
        status.rows.iter().map(|r| (r.name.as_str(), r.text.as_str())).collect();
    assert_eq!(rows, vec![("a.jpg", "2.0 KB"), ("b.jpg", "512 B / 1.0 KB · 50%")]);
    assert_eq!(status.rows[0].progress, Progress::Pulse);
    assert!(refresh_backup_status(&transfer(TransferDirection::Download)).is_none());
    assert_eq!(byte_progress_text(1_258_291, 3_565_158, 35), "1.2 MB / 3.4 MB · 35%");
}

fn rates(last: bool) -> RateTexts {
    RateTexts {
        instant: "1 KB/s".into(),
        average: "2 KB/s".into(),
        last_averages: if last {
            Some(LastAverages { upload: "3 KB/s".into(), download: "4 KB/s".into() })
        } else {
            None
        },
    }
}

#[test]
fn header_shows_transfers() {
    let up = update_transfer_ui(&transfer(TransferDirection::Upload), &rates(false));
    assert_eq!(up.label, "queued asset  1 KB/s  avg 2 KB/s");
    assert_eq!(up.backup_tooltip, "Backing up 2…  33%");
    assert!(up.backup_active);
    let down = update_transfer_ui(&transfer(TransferDirection::Download), &rates(false));
    assert_eq!(down.icon, Some("mimick-download-symbolic"));
    assert_eq!(down.backup_tooltip, "Backup");
    let idle = TransferSnapshot { active: false, ..transfer(TransferDirection::Upload) };
    let idle_ui = update_transfer_ui(&idle, &rates(true));
    assert_eq!(idle_ui.label, "Idle  Last upload avg 3 KB/s  Last download avg 4 KB/s");
    assert_eq!(idle_ui.progress, Progress::Empty);
    assert_eq!(
        update_transfer_ui(&idle, &rates(false)).label,
        "Idle  No recent transfer session"
    );
    let empty =
        TransferSnapshot { active_uploads: 0, total_bytes: None, ..transfer(TransferDirection::Upload) };
    assert!(session_is_stale(&empty));
    assert_eq!(update_transfer_ui(&empty, &rates(false)).backup_tooltip, "Backing up…");
}

#[test]
fn footer_describes_the_server() {
    let stats = Some(ServerStats { images: 5, videos: 2 });
    assert_eq!(
        footer_tooltip(&Some("LAN".into()), stats, &Some("1.2".into())),
        "Connected through LAN — 5 photos, 2 videos | Immich 1.2"
    );
    assert_eq!(
        footer_tooltip(&None, None, &None),
        "Offline — Statistics unavailable | Version unavailable"
    );
    assert!(footer_tooltip(&Some("x".into()), None, &None)
        .starts_with("Connected through configured server"));
    assert!(footer_tooltip(&Some("WAN".into()), None, &None).starts_with("Connected through WAN"));
    assert!(status_is_missing(true, true, false));
    assert!(!status_is_missing(false, false, false));
    let mut seen = SeenBatches { last: 1 };
    assert!(seen.poll(2));
    assert!(!seen.poll(2));
    let plan = refresh_library_surfaces(Tab::Library, true);
    assert!(plan.explore_landing && !plan.albums_view && plan.current_source);
    assert_eq!(
        albums_error("x", false, false, false).as_deref(),
        Some("Could not load albums: x")
    );
    assert_eq!(albums_error("x", false, true, false), None);
    assert_eq!(albums_error("x", true, false, true), None);
}

#[test]
fn conflicts_are_remembered_where_wanted() {
    assert_eq!(conflict_action("rename"), ConflictAction::Rename);
    assert_eq!(conflict_action("overwrite"), ConflictAction::Overwrite);
    assert_eq!(conflict_action("close"), ConflictAction::Skip);
    let mut policy = None;
    assert_eq!(
        resolve_conflict(&mut policy, ConflictAction::Rename, false),
        ConflictAction::Rename
    );
    assert_eq!(policy, None);
    resolve_conflict(&mut policy, ConflictAction::Skip, true);
    assert_eq!(
        resolve_conflict(&mut policy, ConflictAction::Rename, true),
        ConflictAction::Skip
    );
}

#[test]
fn batches_are_counted() {
    let mut batch = DownloadBatch::new();
    let taken = vec!["/d/a.jpg".to_string(), "/d/a (1).jpg".to_string()];
    let step = batch.next("/d", "b.jpg", &taken, ConflictAction::Skip, false);
    assert_eq!(step, BatchStep::Download { path: "/d/b.jpg".into() });
    assert!(batch.asks(true));
    assert_eq!(
        batch.next("/d", "a.jpg", &taken, ConflictAction::Rename, true),
        BatchStep::Download { path: "/d/a (2).jpg".into() }
    );
    assert!(!batch.asks(true));
    batch.finished(true);
    batch.finished(false);
    let mut other = DownloadBatch::new();
    assert_eq!(
        other.next("/d", "a.jpg", &taken, ConflictAction::Skip, false),
        BatchStep::Skip
    );
    assert_eq!(
        other.next("/d", "a.jpg", &taken, ConflictAction::Overwrite, false),
        BatchStep::Download { path: "/d/a.jpg".into() }
    );
    assert_eq!((batch.succeeded, batch.failed, other.skipped), (1, 1, 1));
}

#[test]
fn batch_summaries() {
    let s = batch_summary(0, 0, 3, "/d/Pictures");
    assert_eq!(
        (s.heading.as_str(), s.body.as_str()),
        ("No Assets Downloaded", "All 3 asset(s) were skipped")
    );
    let s = batch_summary(2, 0, 0, "/d/Pictures");
    assert_eq!(s.body, "Downloaded 2 asset(s) to Pictures");
    let s = batch_summary(2, 1, 3, "/");
    assert_eq!(s.body, "Downloaded 2 asset(s) to selected folder\n3 skipped\n1 failed");
    assert_eq!(batch_summary(0, 1, 0, "/d").heading, "Download Failed");
    assert_eq!(folder_display_name("/d/Pictures"), "Pictures");
    assert_eq!(download_notice("a.jpg", None).body, "Saved a.jpg");
    assert_eq!(download_notice("a.jpg", Some("x".into())).heading, "Download Failed");
}

#[test]
fn downloads_find_free_names() {
    let taken: Vec<String> = (1..1000).map(|i| format!("/d/a ({i}).jpg")).collect();
    assert_eq!(unique_path("/d", "a.jpg", &taken), "/d/a.jpg_copy");
    assert_eq!(unique_path("/d", "noext", &vec![]), "/d/noext (1)");
    assert_eq!(unique_path("/d", "dot.", &vec![]), "/d/dot (1).");
    assert_eq!(target_name(None, "id"), "id");
    assert_eq!(item_label("/d/a.jpg"), "a.jpg");
    assert!(refreshes_library(true, false, &LibrarySource::Unified));
    assert!(!refreshes_library(true, false, &LibrarySource::AllAssets));
    assert!(!refreshes_library(true, true, &LibrarySource::LocalAll));
}

#[test]
fn browse_pages_are_composed() {
    assert_eq!(
        build_explore_view(),
        vec![
            BrowsePart::LibraryActions,
            BrowsePart::People,
            BrowsePart::Places,
            BrowsePart::Recents,
            BrowsePart::Things
        ]
    );
    let search = BrowseOptions { has_lead: true, has_trail: true, ..Default::default() };
    assert_eq!(
        build_browse_view(search),
        vec![BrowsePart::Lead, BrowsePart::People, BrowsePart::Trail]
    );
}

fn person(id: &str, name: &str, hidden: bool) -> Person {
    Person { id: id.into(), name: name.into(), is_hidden: hidden }
}

#[test]
fn a_landing_is_filled_once() {
    let mut parts = ExploreViewParts::new();
    assert!(begin_landing(&mut parts));
    assert!(parts.populated && parts.people_loading && parts.recents_loading);
    assert!(parts.places_loading && parts.things_loading && parts.things_visible);
    parts.people_loading = false;
    assert!(!begin_landing(&mut parts));
    assert!(!parts.people_loading);
}

#[test]
fn people_are_filtered() {
    let mut parts = ExploreViewParts::new();
    show_loading(&mut parts);
    assert!(parts.people_visible && parts.people_loading);
    let some = PeopleSettings { show_unnamed: false, show_hidden: false };
    let people = vec![person("1", "Ada", false), person("2", "", false), person("3", "Bob", true)];
    let shown = populate_people(&mut parts, people, some);
    assert_eq!(shown.len(), 1);
    assert!(!parts.people_loading);
    let all = PeopleSettings { show_unnamed: true, show_hidden: true };
    assert_eq!(set_people_search(&mut parts, "", all), None);
    let shown = set_people_search(&mut parts, "bO", all).unwrap();
    assert_eq!(shown[0].id, "3");
    let shown = set_people_search(&mut parts, "zz", all).unwrap();
    assert!(shown.is_empty() && !parts.people_visible);
    assert_eq!(person_name(&person("2", "", false)), "Unnamed");
    let many: Vec<Person> = (0..50).map(|i| person("x", &format!("n{i}"), false)).collect();
    let mut parts = ExploreViewParts::new();
    assert_eq!(populate_people(&mut parts, many, some).len(), 40);
}

#[test]
fn places_are_put_on_the_map_once() {
    let mut parts = ExploreViewParts::new();
    assert!(!has_cached_places(&parts));
    assert!(!populate_places(&mut parts, 0));
    assert_eq!(parts.places, PlacesState::Empty);
    assert!(populate_places(&mut parts, 4));
    assert!(has_cached_places(&parts));
    assert!(!render_cached_places(&mut parts));
    assert!(!populate_places(&mut parts, 5));
    assert_eq!(parts.places, PlacesState::Shown);
}

#[test]
fn dates_are_read_in_parts() {
    let stamp = Stamp { year: 2024, month: 1, day: 15, hour: 14, min: 25, sec: 15 };
    assert_eq!(parse_iso_date("2024-01-15T14:25:15.000Z"), Some(stamp));
    assert_eq!(parse_iso_date("2024-01-15 14:25:15"), Some(stamp));
    assert_eq!(parse_iso_date("2024-01-15"), None);
    assert_eq!(parse_iso_date("2024-xx-15T14:25:15Z"), None);
    assert_eq!(parse_iso_date("2024-+1-15T14:25:15Z"), Some(stamp));
    assert_eq!(compute_epoch_seconds(stamp), 1705328715);
    let leap = Stamp { year: 2024, month: 3, day: 1, hour: 0, min: 0, sec: 0 };
    assert_eq!(compute_epoch_seconds(leap), 1709251200);
    let early = Stamp { year: 1900, month: 1, day: 2, hour: 0, min: 0, sec: 0 };
    assert_eq!(compute_epoch_seconds(early), 86400);
}

#[test]
fn ages_are_written_shortly() {
    let iso = "2024-01-15T14:25:15.000Z";
    let then = 1705328715;
    assert_eq!(format_relative_date(iso, then + 59), "Just now");
    assert_eq!(format_relative_date(iso, then - 500), "Just now");
    assert_eq!(format_relative_date(iso, then + 60), "1 min ago");
    assert_eq!(format_relative_date(iso, then + 3599), "59 min ago");
    assert_eq!(format_relative_date(iso, then + 3600), "1h ago");
    assert_eq!(format_relative_date(iso, then + 86400), "1d ago");
    assert_eq!(format_relative_date(iso, then + 86400 * 7), "2024-01-15");
    assert_eq!(format_relative_date("no date at all", 0), "no date at");
    assert_eq!(format_relative_date("17-1-2T0:0:0", 1_000_000_000), "0017-01-02");
}

fn section(name: &str, values: &[&str]) -> ExploreSection {
    ExploreSection {
        field_name: name.into(),
        items: values
            .iter()
            .map(|v| ExploreItem { value: v.to_string(), asset_id: format!("id-{v}") })
            .collect(),
    }
}

#[test]
fn sections_are_sorted_out() {
    assert_eq!(section_kind("exifInfo.city"), SectionKind::Places);
    assert_eq!(section_kind("createdAt"), SectionKind::Recents);
    assert_eq!(section_kind("smartInfo.tags"), SectionKind::Things);
    assert_eq!(section_kind("other"), SectionKind::Unknown);
    let sections = vec![
        section("exifInfo.city", &["Rome"]),
        section("smartInfo.tags", &["dog", "cat"]),
        section("createdAt", &["2024"]),
        section("smartInfo.objects", &["car"]),
    ];
    let contents = populate_explore(&sections);
    let labels: Vec<&str> = contents.things.iter().map(|t| t.label.as_str()).collect();
    assert_eq!(labels, vec!["dog", "cat", "car"]);
    assert!(contents.things_visible && contents.recents_visible);
    assert_eq!(contents.recents_section, Some(2));
    let none = populate_explore(&vec![]);
    assert!(!none.things_visible && none.recents_section.is_none());
}

#[test]
fn recent_tiles_come_newest_first() {
    let values = ["2024-01-01T00:00:00Z", "2024-01-03T00:00:00Z", "2024-01-02T00:00:00Z"];
    let items = section("createdAt", &values).items;
    let tiles = render_recents_tiles(&items, false, 1704240000 + 3600);
    let labels: Vec<&str> = tiles.iter().map(|t| t.label.as_str()).collect();
    assert_eq!(labels, vec!["1h ago", "1d ago", "2d ago"]);
    let many: Vec<&str> = vec!["2024-01-01T00:00:00Z"; 40];
    let items = section("createdAt", &many).items;
    assert_eq!(render_recents_tiles(&items, false, 0).len(), 16);
    assert_eq!(render_recents_tiles(&items, true, 0).len(), 30);
    // A date that cannot be counted does no harm where it is not shown.
    let mut mixed = vec!["2024-01-01T00:00:00Z"; 16];
    mixed.push("0000-99-01T00:00:00Z");
    let items = section("createdAt", &mixed).items;
    assert_eq!(render_recents_tiles(&items, false, 0).len(), 16);
    let shown = shown_recent_items(&items, true);
    assert_eq!(shown.len(), 17);
    assert_eq!(shown[16].value, "0000-99-01T00:00:00Z");
    assert_eq!(see_more_label(16), None);
    assert_eq!(see_more_label(20).as_deref(), Some("See 4 more"));
    assert_eq!(see_more_label(40).as_deref(), Some("See 14 more"));
}

#[test]
fn photos_are_grouped_by_cell() {
    let cell = |row, col| Some(GridCell { row, col });
    let cells = vec![cell(1, 1), cell(-1, 1), None, cell(-1, 1), cell(1, -1)];
    let clusters = rebuild_clusters(&cells);
    assert_eq!(clusters.len(), 3);
    assert_eq!(clusters[0].members, vec![1, 3]);
    assert_eq!(pin_for(&clusters[0]), Pin::Group { count: 2 });
    assert_eq!(pin_for(&clusters[1]), Pin::Photo { place: 0 });
    assert!(rebuild_clusters(&vec![None]).is_empty());
    let many: Vec<Option<GridCell>> =
        (0..3000).map(|i| cell(i, 0)).chain((0..500).map(|i| cell(i, 0))).collect();
    let clusters = rebuild_clusters(&many);
    assert_eq!(clusters.len(), MAX_PINS);
    assert_eq!(clusters[499].members.len(), 2);
    assert_eq!(clusters[500].members.len(), 1);
}

#[test]
fn pins_count_up_to_ninety_nine() {
    assert_eq!(format_count(99), "99");
    assert_eq!(format_count(100), "99+");
    let mut bucket = ZoomBucket { last: 3 };
    assert!(!bucket.zoomed_to(3));
    assert!(bucket.zoomed_to(4));
    assert_eq!(map_page(0), MapPage::Empty);
    assert_eq!(map_page(1), MapPage::Places);
}
