use mimick_library::viewer::{
    add_failure_text, button_answer, double_tap, favorite_icon, format_time, key_command,
    preview_label, scroll_command, sorted_choices, AlbumChoice, ButtonAnswer, DetailsSource,
    DragMotion, DragOffset, Load, LoadStep, NavDirection, ShownAsset, Sign, Swipe, SwipeEnd,
    VideoControls, Viewer, ViewerButton, ViewerCommand, ViewerKey,
};

fn asset(id: &str, path: &str, is_video: bool) -> ShownAsset {
    ShownAsset {
        id: id.into(),
        filename: "f.jpg".into(),
        mime: "image/jpeg".into(),
        local_path: path.into(),
        is_video,
    }
}

fn started(viewer: &mut Viewer, a: &ShownAsset) -> Load {
    viewer.render(a, false).load
}

#[test]
fn remote_pictures_are_previewed_then_upgraded() {
    let mut v = Viewer::new(0, false);
    let plan = v.render(&asset("r", "", false), false);
    assert_eq!(plan.step, LoadStep::LoadPreview);
    assert_eq!(plan.details, DetailsSource::Server);
    assert_eq!(plan.loader_delay, Some(120));
    let mut load = plan.load;
    assert!(!load.target_is_a);
    v.loader_due(false);
    assert!(v.loader_visible);
    assert_eq!(v.after_preview(&mut load, true), LoadStep::Settle);
    assert!(!v.active_a && !v.loader_visible);
    assert_eq!(
        v.after_settling(&load, Some("/c"), false),
        LoadStep::Download { path: "/c/r.jpg".into() }
    );
    assert_eq!(
        v.after_download(&load, "/c/r.jpg", true),
        LoadStep::DecodeOriginal { path: "/c/r.jpg".into() }
    );
    v.after_original_decode(&load, "/c/r.jpg", true, Some("/export".into()));
    assert_eq!(v.drag_path.as_deref(), Some("/export"));
    assert!(v.unavailable.is_none());
}

#[test]
fn failed_previews_show_the_card() {
    let mut v = Viewer::new(0, false);
    let mut load = started(&mut v, &asset("r", "", false));
    assert_eq!(v.after_preview(&mut load, false), LoadStep::Done);
    let card = v.unavailable.as_ref().unwrap();
    assert_eq!(card.filename, "f.jpg");
    assert!(card.path.is_none());
}

#[test]
fn full_resolution_tries_the_original_anyway() {
    let mut v = Viewer::new(0, true);
    let mut load = started(&mut v, &asset("r", "", false));
    assert!(load.full_res);
    assert_eq!(v.after_preview(&mut load, false), LoadStep::Settle);
    assert_eq!(v.after_download(&load, "/c/r.jpg", false), LoadStep::Done);
    assert!(v.unavailable.is_some());
    let local = started(&mut v, &asset("local::/x", "/x", false));
    assert!(!local.full_res);
}

#[test]
fn undecodable_originals_can_be_opened_elsewhere() {
    let mut v = Viewer::new(0, true);
    let mut load = started(&mut v, &asset("r", "", false));
    v.after_preview(&mut load, false);
    v.after_original_decode(&load, "/c/r.jpg", false, None);
    assert_eq!(v.unavailable.as_ref().unwrap().path.as_deref(), Some("/c/r.jpg"));
    assert_eq!(v.after_settling(&load, None, false), LoadStep::Done);
    assert!(v.unavailable.as_ref().unwrap().path.is_none());
}

#[test]
fn local_pictures_are_decoded() {
    let mut v = Viewer::new(0, false);
    let plan = v.render(&asset("local::/x", "/x", false), false);
    assert_eq!(plan.step, LoadStep::DecodeLocal { path: "/x".into() });
    assert_eq!(plan.details, DetailsSource::File);
    assert_eq!(plan.loader_delay, Some(250));
    assert_eq!(v.after_local_decode(&plan.load, true), LoadStep::Done);
    assert_eq!(v.drag_path.as_deref(), Some("/x"));
    let load = started(&mut v, &asset("local::/y", "/y", false));
    assert_eq!(v.after_local_decode(&load, false), LoadStep::Done);
    assert_eq!(v.unavailable.as_ref().unwrap().path.as_deref(), Some("/y"));
    let load = started(&mut v, &asset("r", "/z", false));
    assert_eq!(v.after_local_decode(&load, false), LoadStep::LoadPreview);
    assert!(v.unavailable.is_none());
}

#[test]
fn videos_play_after_their_still() {
    let mut v = Viewer::new(0, true);
    let plan = v.render(&asset("r", "", true), false);
    assert!(!plan.load.full_res);
    assert_eq!(v.after_video_poster(&plan.load), LoadStep::FetchVideoUri);
    let uri = Some("https://x".to_string());
    assert_eq!(v.after_video_uri(&plan.load, uri.clone(), false), LoadStep::Done);
    assert!(!v.video_shown);
    assert_eq!(
        v.after_video_uri(&plan.load, uri, true),
        LoadStep::Play { uri: "https://x".into() }
    );
    assert!(v.video_shown);
    v.video_failed();
    assert!(!v.video_shown);
    let local = v.render(&asset("local::/v", "/v", true), false);
    assert_eq!(local.step, LoadStep::LoadPreview);
    assert_eq!(
        v.after_video_poster(&local.load),
        LoadStep::OpenVideo { uri: "file:///v".into() }
    );
}

#[test]
fn stale_loads_change_nothing() {
    let mut v = Viewer::new(0, false);
    let mut old = started(&mut v, &asset("r", "", false));
    let _new = started(&mut v, &asset("s", "", false));
    let shown = v.active_a;
    assert_eq!(v.after_preview(&mut old, true), LoadStep::Done);
    assert_eq!(v.after_video_poster(&old), LoadStep::Done);
    assert_eq!(v.after_local_decode(&old, true), LoadStep::Done);
    assert_eq!(v.after_settling(&old, Some("/c"), true), LoadStep::Done);
    v.after_original_decode(&old, "/c/x", true, Some("/e".into()));
    assert_eq!(v.active_a, shown);
    assert!(v.drag_path.is_none() && v.unavailable.is_none());
}

#[test]
fn cached_previews_are_shown_at_once() {
    let mut v = Viewer::new(0, false);
    let plan = v.render(&asset("r", "", false), true);
    assert_eq!(plan.loader_delay, None);
    assert!(!v.active_a);
}

#[test]
fn navigation_stops_at_the_ends() {
    let mut v = Viewer::new(0, false);
    assert!(!v.goto_prev());
    assert!(v.goto_next(2));
    assert_eq!(v.nav_dir, NavDirection::Forward);
    assert!(!v.goto_next(2));
    assert_eq!(v.position, 1);
    let plan = v.render(&asset("r", "", false), false);
    assert_eq!(plan.transition, NavDirection::Forward);
    assert_eq!(v.nav_dir, NavDirection::Stay);
    let waiting = v.page_arrived(2, 2);
    assert!(!waiting.waiting_over && !waiting.shows_next);
    let arrived = v.page_arrived(4, 2);
    assert!(arrived.waiting_over && arrived.shows_next);
    assert_eq!(v.position, 2);
    assert!(v.goto_prev());
    assert!(v.is_at(1));
}

#[test]
fn taps_show_and_hide_the_bars() {
    let mut v = Viewer::new(0, false);
    assert!(v.tap(1, false));
    assert!(v.chrome_visible);
    assert!(!v.tap(2, false));
    assert!(!v.tap(1, true));
    assert!(v.chrome_visible);
    v.goto_next(5);
    assert!(!v.chrome_visible);
}

#[test]
fn favourites_are_of_the_server() {
    let mut v = Viewer::new(0, false);
    assert_eq!(v.toggle_favorite("r"), Some(true));
    assert_eq!(v.toggle_favorite("r"), Some(false));
    assert_eq!(v.toggle_favorite("local::/x"), None);
    assert_eq!(favorite_icon(true), "starred-symbolic");
    assert_eq!(favorite_icon(false), "non-starred-symbolic");
    assert!(v.toggle_full_resolution());
}

#[test]
fn buttons_refuse_local_files() {
    assert_eq!(button_answer(ViewerButton::Delete, "r"), ButtonAnswer::Go);
    assert_eq!(
        button_answer(ViewerButton::Delete, "local::/x"),
        ButtonAnswer::Refuse { heading: "Cannot delete", body: "This is a local-only asset." }
    );
    assert_eq!(
        button_answer(ViewerButton::AddToAlbum, "local::/x"),
        ButtonAnswer::Refuse { heading: "Cannot add", body: "This is a local-only asset." }
    );
    assert_eq!(button_answer(ViewerButton::Download, "local::/x"), ButtonAnswer::Ignore);
    assert_eq!(button_answer(ViewerButton::EditDescription, "local::/x"), ButtonAnswer::Ignore);
}

#[test]
fn keys_lead_to_commands() {
    assert_eq!(key_command(true, ViewerKey::Equal), ViewerCommand::ZoomIn);
    assert_eq!(key_command(true, ViewerKey::KeypadSubtract), ViewerCommand::ZoomOut);
    assert_eq!(key_command(true, ViewerKey::Zero), ViewerCommand::ZoomReset);
    assert_eq!(key_command(true, ViewerKey::Left), ViewerCommand::Pass);
    assert_eq!(key_command(false, ViewerKey::Left), ViewerCommand::Previous);
    assert_eq!(key_command(false, ViewerKey::Right), ViewerCommand::Next);
    assert_eq!(key_command(false, ViewerKey::UpperI), ViewerCommand::OpenDetails);
    assert_eq!(key_command(false, ViewerKey::Space), ViewerCommand::ToggleBars);
    assert_eq!(key_command(false, ViewerKey::Escape), ViewerCommand::Exit);
    assert_eq!(key_command(false, ViewerKey::Plus), ViewerCommand::Pass);
    assert_eq!(scroll_command(true, Sign::Zero, Sign::Negative), ViewerCommand::ZoomIn);
    assert_eq!(scroll_command(true, Sign::Positive, Sign::Zero), ViewerCommand::ZoomOut);
    assert_eq!(scroll_command(true, Sign::Zero, Sign::Zero), ViewerCommand::Pass);
    assert_eq!(scroll_command(false, Sign::Zero, Sign::Negative), ViewerCommand::Pass);
}

fn sign(v: f64) -> Sign {
    if v > 0.0 {
        Sign::Positive
    } else if v < 0.0 {
        Sign::Negative
    } else {
        Sign::Zero
    }
}

fn offset(x: f64, y: f64) -> DragOffset {
    DragOffset {
        distance_x: x.abs().to_bits(),
        distance_y: y.abs().to_bits(),
        sign_x: sign(x),
        sign_y: sign(y),
    }
}

fn swipe(x: f64, y: f64, velocity: f64) -> SwipeEnd {
    let mut s = Swipe::begin();
    s.update(offset(x, y), false);
    s.end(offset(x, y), velocity.max(0.0).to_bits(), false)
}

#[test]
fn swipes_navigate_dismiss_and_open_details() {
    assert_eq!(swipe(80.0, 10.0, 0.0), SwipeEnd::Previous);
    assert_eq!(swipe(-80.0, 10.0, 0.0), SwipeEnd::Next);
    assert_eq!(swipe(40.0, 0.0, 0.0), SwipeEnd::SnapAside);
    assert_eq!(swipe(60.0, 0.0, 0.0), SwipeEnd::SnapAside);
    assert_eq!(swipe(0.0, 130.0, 0.0), SwipeEnd::Dismiss { millis: 160 });
    assert_eq!(swipe(0.0, 20.0, 1000.0), SwipeEnd::Dismiss { millis: 130 });
    assert_eq!(swipe(0.0, 120.0, 900.0), SwipeEnd::SnapUp);
    assert_eq!(swipe(0.0, -80.0, 0.0), SwipeEnd::OpenDetails);
    assert_eq!(swipe(50.0, 50.0, 0.0), SwipeEnd::SnapUp);
    assert_eq!(swipe(5.0, 5.0, 0.0), SwipeEnd::Nothing);
}

#[test]
fn quick_flicks_navigate_without_an_update() {
    let mut s = Swipe::begin();
    assert_eq!(s.end(offset(90.0, 3.0), 0, false), SwipeEnd::Previous);
    assert_eq!(s.end(offset(90.0, 3.0), 0, true), SwipeEnd::Nothing);
}

#[test]
fn drags_are_classified_once() {
    let mut s = Swipe::begin();
    assert_eq!(s.update(offset(16.0, 2.0), false), DragMotion::Still);
    assert_eq!(s.update(offset(20.0, 2.0), true), DragMotion::Still);
    assert_eq!(s.update(offset(20.0, 2.0), false), DragMotion::Aside);
    assert_eq!(s.update(offset(20.0, 90.0), false), DragMotion::Aside);
    assert!(s.horizontal && !s.dismissing);
}

#[test]
fn double_taps_zoom_pictures() {
    assert_eq!(double_tap(2, false, false, false, false), Some(true));
    assert_eq!(double_tap(2, false, false, false, true), Some(false));
    assert_eq!(double_tap(1, false, false, false, false), None);
    assert_eq!(double_tap(2, true, false, false, false), None);
    assert_eq!(double_tap(2, false, true, false, false), None);
    assert_eq!(double_tap(2, false, false, true, false), None);
}

#[test]
fn times_are_written_with_hours_where_needed() {
    assert_eq!(format_time(0), "0:00");
    assert_eq!(format_time(65), "1:05");
    assert_eq!(format_time(3600), "1:00:00");
    assert_eq!(format_time(36_125), "10:02:05");
}

#[test]
fn video_controls_follow_playback() {
    let mut c = VideoControls::new();
    assert_eq!(c.play_icon(), "media-playback-start-symbolic");
    c.duration_changed(Some(65_000_000_000));
    assert_eq!(c.duration_label, "1:05");
    assert_eq!(c.range_end, 65_000_000_000);
    c.duration_changed(None);
    assert_eq!(c.range_end, 1);
    c.position_updated(Some(3_999_999_999));
    assert_eq!(c.position_label, "0:03");
    c.seeking = true;
    c.position_updated(Some(9_000_000_000));
    assert_eq!(c.position_label, "0:03");
    c.playing = true;
    assert_eq!(c.play_icon(), "media-playback-pause-symbolic");
}

#[test]
fn albums_to_choose_from_ignore_case() {
    let albums: Vec<AlbumChoice> = ["ärger", "Zoo", "apfel", "Äpfel"]
        .iter()
        .map(|n| AlbumChoice { name: n.to_string(), id: "i".into() })
        .collect();
    let names: Vec<&str> = sorted_choices(&albums).iter().map(|a| a.name.as_str()).collect();
    assert_eq!(names, vec!["apfel", "Zoo", "Äpfel", "ärger"]);
    assert_eq!(add_failure_text("Trip"), "Failed to add to \"Trip\".");
    assert_eq!(preview_label("r"), "preview r");
}
