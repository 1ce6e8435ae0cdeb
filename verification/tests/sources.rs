use mimick_library::filters::{asset_type_filter, filters_from_form, opt_string, opt_true, FilterForm};
use mimick_library::sources::{
    content_state, current_album, drop_target, explore_tap, grid_update, header_state,
    is_permission_error, library_action_target, load_error_message, media_chip_target,
    new_album_name, person_source, place_source, plan_source_page, profile_name,
    search_placeholder, search_source, smart_search_target, sort_mode_for, source_for_mode,
    sync_header_actions, tab_action, timeline_switch, ContentState, DropTarget, ExploreTap,
    GridUpdate, LibraryAction, LibraryLoadState, LibrarySortMode, LibrarySource, MediaChip,
    MetadataSearchFilters, PagePlan, RemoteQuery, Tab, TabAction, TimelineSwitch,
};

fn album() -> LibrarySource {
    LibrarySource::Album { id: "i".into(), name: "n".into() }
}

#[test]
fn sources_are_planned() {
    assert_eq!(plan_source_page(LibrarySource::Explore, 1, None), PagePlan::ExploreLanding);
    let plan = plan_source_page(LibrarySource::AllAssets, 1, Some("desc".into()));
    assert_eq!(
        plan,
        PagePlan::Remote {
            query: RemoteQuery::Metadata { query: "".into(), order: Some("desc".into()) }
        }
    );
    let plan = plan_source_page(LibrarySource::SmartSearch { query: "cat".into() }, 1, None);
    assert_eq!(plan, PagePlan::Remote { query: RemoteQuery::Smart { query: "cat".into() } });
    assert_eq!(plan_source_page(LibrarySource::LocalAll, 2, None), PagePlan::NoMore);
    assert_eq!(
        plan_source_page(LibrarySource::LocalSearch { query: "x".into() }, 1, None),
        PagePlan::LocalFiles { search: Some("x".into()) }
    );
}

#[test]
fn modes_stay_within_the_album() {
    let local = source_for_mode(1, &album(), false);
    assert_eq!(local, LibrarySource::AlbumLocal { id: "i".into(), name: "n".into() });
    let unified = source_for_mode(2, &local, false);
    assert_eq!(unified, LibrarySource::AlbumUnified { id: "i".into(), name: "n".into() });
    assert_eq!(source_for_mode(0, &unified, false), album());
    assert_eq!(source_for_mode(1, &LibrarySource::AllAssets, false), LibrarySource::LocalAll);
    assert_eq!(source_for_mode(2, &LibrarySource::AllAssets, false), LibrarySource::Unified);
    assert_eq!(source_for_mode(0, &LibrarySource::LocalAll, true), LibrarySource::Timeline);
    assert_eq!(source_for_mode(0, &LibrarySource::LocalAll, false), LibrarySource::AllAssets);
    assert_eq!(current_album(&album()), Some(("i".into(), "n".into())));
    assert_eq!(current_album(&LibrarySource::Unified), None);
}

#[test]
fn timeline_toggles_between_two_sources() {
    assert_eq!(timeline_switch(false, true, &LibrarySource::AllAssets), TimelineSwitch::Stay);
    assert_eq!(timeline_switch(true, true, &album()), TimelineSwitch::Refuse);
    assert_eq!(
        timeline_switch(true, true, &LibrarySource::AllAssets),
        TimelineSwitch::Go { source: LibrarySource::Timeline }
    );
    assert_eq!(timeline_switch(true, true, &LibrarySource::Timeline), TimelineSwitch::Stay);
    assert_eq!(
        timeline_switch(true, false, &LibrarySource::Timeline),
        TimelineSwitch::Go { source: LibrarySource::AllAssets }
    );
}

#[test]
fn searches_go_by_the_modes() {
    assert_eq!(search_source("  ", 0, 0), None);
    let q = || "cat".to_string();
    assert_eq!(search_source(" cat ", 1, 2), Some(LibrarySource::LocalSearch { query: q() }));
    assert_eq!(search_source("cat", 2, 0), Some(LibrarySource::UnifiedSearch { query: q() }));
    assert_eq!(search_source("cat", 0, 0), Some(LibrarySource::MetadataSearch { query: q() }));
    assert_eq!(search_source("cat", 0, 1), Some(LibrarySource::SmartSearch { query: q() }));
    assert_eq!(search_source("cat", 0, 2), Some(LibrarySource::OcrSearch { query: q() }));
    assert_eq!(search_placeholder(0), "Search filenames");
    assert_eq!(search_placeholder(1), "Describe what you're looking for\u{2026}");
    assert_eq!(search_placeholder(2), "Find words shown inside images");
    let drill = smart_search_target(" cat ").unwrap();
    assert_eq!(drill.title, "cat");
    assert_eq!(drill.source, LibrarySource::SmartSearch { query: q() });
    assert!(smart_search_target(" ").is_none());
}

#[test]
fn sort_modes_are_chosen() {
    assert_eq!(sort_mode_for(0), LibrarySortMode::NewestFirst);
    assert_eq!(sort_mode_for(1), LibrarySortMode::Filename);
    assert_eq!(sort_mode_for(2), LibrarySortMode::FileType);
}

#[test]
fn header_follows_the_source() {
    let state = header_state(&LibrarySource::Timeline, false);
    assert!(state.timeline_allowed && state.timeline_active && state.remote_search_visible);
    assert_eq!(state.source_entry, 0);
    let state = header_state(&LibrarySource::LocalAll, false);
    assert!(!state.timeline_allowed && !state.remote_search_visible && state.reset_search_mode);
    assert_eq!(state.source_entry, 1);
    let state = header_state(&LibrarySource::Unified, false);
    assert_eq!(state.source_entry, 2);
    let state = header_state(&album(), true);
    assert!(state.source_visible && state.uploads_to_album && !state.remote_search_visible);
}

#[test]
fn load_states_are_shown() {
    assert_eq!(content_state(LibraryLoadState::Idle), ContentState::Loading);
    assert_eq!(content_state(LibraryLoadState::Loaded), ContentState::Content);
    assert_eq!(content_state(LibraryLoadState::Empty), ContentState::Empty);
    assert_eq!(
        content_state(LibraryLoadState::Error { message: "x".into() }),
        ContentState::Error { message: "x".into() }
    );
    assert_eq!(load_error_message("x"), "Could not load library assets: x");
    assert_eq!(grid_update(true, true), GridUpdate::Extend);
    assert_eq!(grid_update(false, true), GridUpdate::Reset);
    assert_eq!(grid_update(true, false), GridUpdate::Dropped);
}

fn filters(target: LibrarySource) -> MetadataSearchFilters {
    match target {
        LibrarySource::AdvancedSearch { filters } => *filters,
        other => panic!("{:?}", other),
    }
}

#[test]
fn chips_and_cards_filter() {
    let videos = media_chip_target(MediaChip::Videos);
    assert_eq!(videos.title, "Videos");
    assert_eq!(filters(videos.source).asset_type.as_deref(), Some("VIDEO"));
    let none = media_chip_target(MediaChip::NotInAlbum);
    assert_eq!(filters(none.source).is_not_in_album, Some(true));
    let shots = media_chip_target(MediaChip::Screenshots);
    assert_eq!(shots.source, LibrarySource::SmartSearch { query: "screenshot".into() });
    let trash = library_action_target(LibraryAction::Trash);
    let f = filters(trash.source);
    assert_eq!((f.is_trashed, f.with_deleted), (Some(true), Some(true)));
    let archived = library_action_target(LibraryAction::Archived);
    assert_eq!(filters(archived.source).is_archived, Some(true));
    let favorites = library_action_target(LibraryAction::Favorites);
    assert_eq!(filters(favorites.source).is_favorite, Some(true));
    assert_eq!(filters(person_source("p".into())).person_ids, Some(vec!["p".to_string()]));
    assert_eq!(filters(place_source("Rome".into())).city.as_deref(), Some("Rome"));
}

#[test]
fn explore_tiles_open_or_search() {
    assert_eq!(
        explore_tap("recent", "v".into(), "a".into()),
        ExploreTap::OpenAsset { asset_id: "a".into() }
    );
    assert_eq!(
        explore_tap("thing", "dog".into(), "a".into()),
        ExploreTap::Search { query: "dog".into() }
    );
}

#[test]
fn permission_errors_are_told_apart() {
    assert!(is_permission_error("HTTP 401 Unauthorized"));
    assert!(is_permission_error("HTTP 403"));
    assert!(!is_permission_error("HTTP 500"));
}

#[test]
fn tabs_have_their_own_actions() {
    let photos = sync_header_actions(Tab::Photos);
    assert!(photos.upload && photos.backup && !photos.new_album);
    assert!(sync_header_actions(Tab::Albums).new_album);
    assert_eq!(tab_action(Tab::Albums, false), TabAction::FetchAlbums);
    assert_eq!(tab_action(Tab::Albums, true), TabAction::ShowAlbums);
    assert_eq!(tab_action(Tab::Library, false), TabAction::LoadExplore);
    assert_eq!(tab_action(Tab::Search, false), TabAction::LoadSearch);
    assert_eq!(tab_action(Tab::Photos, false), TabAction::Nothing);
}

#[test]
fn names_fall_back() {
    assert_eq!(profile_name("Ada", "a@b").as_deref(), Some("Ada"));
    assert_eq!(profile_name("", "a@b").as_deref(), Some("a@b"));
    assert_eq!(profile_name("", ""), None);
    assert_eq!(new_album_name("  Trip "), Some("Trip".into()));
    assert_eq!(new_album_name("  "), None);
}

#[test]
fn drops_go_to_the_shown_album() {
    assert_eq!(drop_target(0, &album()), DropTarget::Unsupported);
    assert_eq!(
        drop_target(2, &album()),
        DropTarget::Album { id: "i".into(), name: "n".into() }
    );
    assert_eq!(drop_target(2, &LibrarySource::AllAssets), DropTarget::Library);
}

#[test]
fn forms_become_filters() {
    let form = FilterForm {
        filename: " cat ".into(),
        description: "".into(),
        ocr: "  ".into(),
        asset_type: 2,
        favorites_only: true,
        archived_only: false,
        motion_only: false,
        not_in_album: false,
        taken_after: "2024-01-15".into(),
        taken_before: "soon".into(),
        make: "Canon".into(),
        model: "".into(),
        lens_model: "".into(),
        country: "".into(),
        state: "".into(),
        city: "Rome".into(),
    };
    let f = filters_from_form(&form);
    let wanted = MetadataSearchFilters {
        original_file_name: Some("cat".into()),
        asset_type: Some("VIDEO".into()),
        taken_after: Some("2024-01-15T00:00:00.000Z".into()),
        make: Some("Canon".into()),
        city: Some("Rome".into()),
        is_favorite: Some(true),
        ..Default::default()
    };
    assert_eq!(f, wanted);
    assert_eq!(asset_type_filter(1).as_deref(), Some("IMAGE"));
    assert_eq!(asset_type_filter(0), None);
    assert_eq!(opt_string(" "), None);
    assert_eq!(opt_true(false), None);
}
