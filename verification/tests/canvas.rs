use mimick_library::asset_model::{AssetInit, AssetObject, LibraryAssetModel};
use mimick_library::bulk::{
    album_question, create_album_line, selected_remote_assets, trash_question, SelectKey,
    SelectMode,
};
use mimick_library::context_menu::{ensure_original_asset_path, menu_entries, OriginalPlan};
use mimick_library::grid::{
    cloud_icon, collect_asset_dates, collect_dims, collect_drag_files, drag_badge_label,
    drag_source, export_name, lookup_bucket, original_preview_cache_path, tile_paint, ClickOutcome,
    DragSource, MasonryCanvas, Refresh, Selection, SnapshotStats,
};
use mimick_library::quality::{GridLayout, GridQuality, ThumbnailSize};

fn object(id: &str, kind: &str) -> AssetObject {
    AssetObject::new(AssetInit {
        id,
        filename: "f.jpg",
        mime_type: "image/jpeg",
        created_at: "2024-01-01",
        asset_type: kind,
        sync_state: 2,
        thumbhash: None,
        width: 0,
        height: 0,
    })
}

fn model(ids: &[&str]) -> LibraryAssetModel {
    let mut m = LibraryAssetModel::new();
    m.reset_with_objects(ids.iter().map(|i| object(i, "IMAGE")).collect());
    m
}

#[test]
fn original_preview_cache_path_keeps_decoder_extension() {
    let cache = "/tmp/previews";
    assert_eq!(
        original_preview_cache_path(cache, "remote-id", "PXL_20250516_222429137.dng"),
        "/tmp/previews/remote-id.dng"
    );
    assert_eq!(
        original_preview_cache_path(cache, "remote-id", "extensionless"),
        "/tmp/previews/remote-id.bin"
    );
}

#[test]
fn previews_of_odd_names_are_binary() {
    assert_eq!(original_preview_cache_path("/c", "i", "dot."), "/c/i.bin");
    assert_eq!(original_preview_cache_path("/c", "i", ".hidden"), "/c/i.bin");
}

#[test]
fn setters_say_what_has_to_be_redone() {
    let mut c = MasonryCanvas::new(4);
    assert_eq!(c.grid_columns, 3);
    assert_eq!(c.set_narrow(true), Refresh::Relayout);
    assert_eq!(c.set_narrow(true), Refresh::Nothing);
    assert_eq!(c.set_quality(GridQuality::Preview), Refresh::Redraw);
    assert_eq!(c.set_quality(GridQuality::Preview), Refresh::Nothing);
    assert_eq!(c.set_layout_mode(GridLayout::Masonry), Refresh::Relayout);
    assert_eq!(c.set_grid_columns(0), Refresh::Relayout);
    assert_eq!(c.grid_columns, 1);
    assert_eq!(c.set_grid_columns(1), Refresh::Nothing);
}

#[test]
fn narrow_windows_do_not_drag_files_out() {
    let mut c = MasonryCanvas::new(1);
    assert_eq!(c.set_drag_export_enabled(true), None);
    c.install_drag_source();
    assert!(c.drag_source_active);
    c.set_narrow(true);
    assert!(!c.drag_source_active);
    c.set_narrow(false);
    assert!(c.drag_source_active);
    assert_eq!(c.set_drag_export_enabled(false), Some(false));
}

#[test]
fn plain_clicks_open() {
    let mut c = MasonryCanvas::new(3);
    assert_eq!(
        c.handle_primary_click(Some(2), false, false),
        ClickOutcome::Activate { position: 2 }
    );
    assert_eq!(c.handle_primary_click(None, true, true), ClickOutcome::Ignored);
    c.drag_active = true;
    assert_eq!(c.handle_primary_click(Some(2), false, false), ClickOutcome::Ignored);
    assert_eq!(c.selection.count(), 0);
}

#[test]
fn ctrl_clicks_toggle_and_shift_clicks_extend() {
    let mut c = MasonryCanvas::new(6);
    c.handle_primary_click(Some(1), true, false);
    assert!(c.select_mode);
    assert_eq!(c.selection.positions(), vec![1]);
    c.handle_primary_click(Some(4), false, true);
    assert_eq!(c.selection.positions(), vec![1, 2, 3, 4]);
    c.handle_primary_click(Some(0), false, true);
    assert_eq!(c.selection.positions(), vec![0, 1]);
    c.handle_primary_click(Some(5), true, false);
    assert_eq!(c.selection.positions(), vec![0, 1, 5]);
    c.handle_primary_click(Some(3), true, true);
    assert_eq!(c.selection.positions(), vec![0, 1, 3, 4, 5]);
    c.handle_primary_click(Some(3), false, false);
    assert_eq!(c.selection.positions(), vec![0, 1, 4, 5]);
}

#[test]
fn shift_without_an_anchor_selects_one() {
    let mut c = MasonryCanvas::new(4);
    c.handle_primary_click(Some(2), false, true);
    assert_eq!(c.selection.positions(), vec![2]);
}

#[test]
fn long_presses_select_ranges() {
    let mut c = MasonryCanvas::new(6);
    c.update_range_select(Some(4));
    assert_eq!(c.selection.count(), 0);
    c.begin_range_select(Some(3));
    assert_eq!(c.selection.positions(), vec![3]);
    c.update_range_select(Some(5));
    assert_eq!(c.selection.positions(), vec![3, 4, 5]);
    c.update_range_select(Some(2));
    assert_eq!(c.selection.positions(), vec![2, 3]);
    c.update_range_select(None);
    c.end_range_select();
    c.update_range_select(Some(0));
    assert_eq!(c.selection.positions(), vec![2, 3]);
}

#[test]
fn toggling_twice_is_nothing() {
    let mut s = Selection::new(3);
    s.toggle_selection(1);
    assert!(s.is_selected(1));
    s.toggle_selection(1);
    assert_eq!(s, Selection::new(3));
    s.toggle_selection(9);
    assert_eq!(s, Selection::new(3));
    assert!(!s.is_selected(9));
}

#[test]
fn loads_are_queued_once() {
    let mut c = MasonryCanvas::new(1);
    let size = ThumbnailSize::Thumbnail;
    let request = c.queue_load_if_needed("a", "", size, false).unwrap();
    assert!(!request.is_local);
    assert!(c.queue_load_if_needed("a", "", size, false).is_none());
    assert!(c.queue_load_if_needed("b", "", size, true).is_none());
    assert!(c.queue_load_if_needed("local::/x", "/x", size, false).unwrap().is_local);
}

#[test]
fn failed_loads_are_not_repeated() {
    let mut c = MasonryCanvas::new(2);
    let mut m = model(&["a", "b"]);
    let size = ThumbnailSize::Thumbnail;
    c.queue_load_if_needed("a", "", size, false);
    let end = c.finish_load(&mut m, "a", Err("HTTP 500".into()));
    assert_eq!(end.refresh, Refresh::Redraw);
    assert!(!end.warn_permission);
    assert!(c.queue_load_if_needed("a", "", size, false).is_none());
    c.queue_load_if_needed("b", "", size, false);
    c.finish_load(&mut m, "b", Err("cancelled".into()));
    assert!(c.queue_load_if_needed("b", "", size, false).is_some());
}

#[test]
fn missing_permissions_are_reported_once() {
    let mut c = MasonryCanvas::new(2);
    let mut m = model(&["a", "b"]);
    assert!(c.finish_load(&mut m, "a", Err("HTTP 403".into())).warn_permission);
    assert!(!c.finish_load(&mut m, "b", Err("HTTP 401".into())).warn_permission);
}

#[test]
fn loaded_sizes_are_entered_where_unknown() {
    let mut c = MasonryCanvas::new(2);
    let mut m = model(&["a", "b"]);
    let end = c.finish_load(&mut m, "b", Ok((30, 20)));
    assert_eq!(end.refresh, Refresh::Relayout);
    assert_eq!(collect_dims(&m), vec![(0, 0), (30, 20)]);
    let end = c.finish_load(&mut m, "b", Ok((1, 1)));
    assert_eq!(end.refresh, Refresh::Redraw);
    assert_eq!(collect_dims(&m), vec![(0, 0), (30, 20)]);
    let dates = collect_asset_dates(&m);
    assert_eq!((dates[1].index, dates[1].created_at.as_str()), (1, "2024-01-01"));
}

#[test]
fn failures_are_forgotten_with_their_assets() {
    let mut c = MasonryCanvas::new(2);
    let mut m = model(&["a", "b"]);
    c.finish_load(&mut m, "a", Err("x".into()));
    c.finish_load(&mut m, "b", Err("x".into()));
    let m = model(&["b"]);
    assert_eq!(c.handle_model_changed(&m, 2, 1), Refresh::Relayout);
    assert_eq!(c.failed, vec!["b".to_string()]);
    let none = model(&[]);
    assert_eq!(c.handle_model_changed(&none, 1, 0), Refresh::Nothing);
    assert!(c.failed.is_empty());
}

#[test]
fn tiles_are_decorated() {
    let mut c = MasonryCanvas::new(2);
    let video = object("v", "video");
    let paint = tile_paint(&c, &video, 0);
    assert!(paint.video_badge && !paint.tinted);
    assert_eq!(paint.cloud_badge, Some("mimick-cloud-done-symbolic"));
    c.handle_primary_click(Some(0), true, false);
    let paint = tile_paint(&c, &object("i", "IMAGE"), 0);
    assert_eq!(paint.checkbox, Some(true));
    assert!(paint.tinted && !paint.video_badge);
    assert_eq!(paint.cloud_badge, None);
    assert_eq!(cloud_icon(0), "mimick-cloud-symbolic");
    assert_eq!(cloud_icon(1), "mimick-cloud-off-symbolic");
}

#[test]
fn drags_carry_the_selection() {
    let mut c = MasonryCanvas::new(3);
    let all = vec![true, false, true];
    assert_eq!(collect_drag_files(&c, &all, Some(2)), vec![2]);
    assert_eq!(collect_drag_files(&c, &all, Some(1)), vec![]);
    assert_eq!(c.selected_count(), 1);
    c.handle_primary_click(Some(0), true, false);
    c.handle_primary_click(Some(1), true, false);
    assert_eq!(collect_drag_files(&c, &all, Some(2)), vec![0]);
    assert_eq!(c.selected_count(), 2);
    assert_eq!(drag_badge_label(2), "2 files");
}

#[test]
fn dragged_files_have_sources() {
    assert_eq!(drag_source("/a", true, "", ""), DragSource::LocalFile);
    assert_eq!(drag_source("/a", false, "r", "f"), DragSource::Export);
    assert_eq!(drag_source("", false, "r", ""), DragSource::Nothing);
    assert_eq!(export_name("0123456789", "a.jpg"), "01234567_a.jpg");
    assert_eq!(export_name("abc", "a.jpg"), "abc_a.jpg");
}

#[test]
fn cache_lookups_of_files_take_thumbnails() {
    let full = ThumbnailSize::Fullsize;
    assert_eq!(lookup_bucket("local::/x", "/x", full), ThumbnailSize::Thumbnail);
    assert_eq!(lookup_bucket("r", "/x", full), full);
}

#[test]
fn paints_are_counted() {
    let mut s = SnapshotStats { hits: 0, misses: 0, painted: 0 };
    s.record(true);
    s.record(false);
    s.record(true);
    assert_eq!((s.hits, s.misses, s.painted), (2, 1, 3));
}

#[test]
fn ctrl_alone_enters_and_leaves() {
    let mut mode = SelectMode::new(3);
    assert!(!mode.key_pressed(SelectKey::Control));
    assert!(mode.view_state().pill_visible);
    assert!(!mode.view_state().drawer_visible);
    mode.key_released(SelectKey::Control);
    assert!(!mode.active);
    mode.key_pressed(SelectKey::Control);
    mode.selection.toggle_selection(1);
    mode.key_released(SelectKey::Control);
    assert!(mode.active);
    assert_eq!(mode.view_state().count, "1");
    assert!(mode.view_state().drawer_visible);
    assert!(mode.key_pressed(SelectKey::Escape));
    assert_eq!(mode.selection.count(), 0);
    assert!(!mode.key_pressed(SelectKey::Escape));
}

#[test]
fn clearing_leaves_select_mode() {
    let mut mode = SelectMode::new(2);
    mode.set_active(true);
    mode.selection.toggle_selection(0);
    mode.clear();
    assert!(!mode.active);
    assert_eq!(mode.selection.count(), 0);
}

#[test]
fn bulk_actions_pass_over_local_files() {
    let m = model(&["a", "local::/x", "c"]);
    let mut s = Selection::new(3);
    s.select_range(0, 2);
    let ids: Vec<String> = selected_remote_assets(&m, &s).into_iter().map(|a| a.id).collect();
    assert_eq!(ids, vec!["a", "c"]);
    assert_eq!(trash_question(2), "Move 2 item(s) to trash?");
    assert_eq!(album_question(2), "Add 2 item(s) to which album?");
    assert_eq!(create_album_line(1), "Create an album with the 1 selected item(s).");
}

#[test]
fn menus_offer_what_can_be_done() {
    let e = menu_entries("a", "a", "", "image");
    assert!(e.copy && e.download && e.open);
    let e = menu_entries("local::/x", "", "/x", "VIDEO");
    assert!(!e.copy && !e.download && e.open);
    let e = menu_entries("local::/x", "r", "", "IMAGE");
    assert!(!e.download && !e.open);
}

#[test]
fn originals_come_from_disk_or_cache() {
    let cache = Some("/c".to_string());
    let name = Some("f.jpg".to_string());
    assert_eq!(
        ensure_original_asset_path("a", "r", "/x", &None, &None, false),
        OriginalPlan::Ready { path: "/x".into() }
    );
    assert_eq!(
        ensure_original_asset_path("a", "r", "", &cache, &name, true),
        OriginalPlan::Ready { path: "/c/open-in/f.jpg".into() }
    );
    assert_eq!(
        ensure_original_asset_path("a", "r", "", &cache, &name, false),
        OriginalPlan::Download { remote_id: "r".into(), path: "/c/open-in/f.jpg".into() }
    );
    assert_eq!(
        ensure_original_asset_path("a", "", "", &cache, &None, false),
        OriginalPlan::Download { remote_id: "a".into(), path: "/c/open-in/a".into() }
    );
    assert!(matches!(
        ensure_original_asset_path("a", "r", "", &None, &name, true),
        OriginalPlan::NoCache { .. }
    ));
}
