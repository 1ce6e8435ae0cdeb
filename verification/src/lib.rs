//! Photo-library logic.
pub mod album_actions;
pub mod album_sync;
pub mod albums;
pub mod api;
pub mod asset_model;
pub mod backup;
pub mod bulk;
pub mod checksum;
pub mod clock;
pub mod context_menu;
pub mod decimals;
pub mod details;
pub mod download;
pub mod explore;
pub mod filters;
pub mod grid;
pub mod layout;
pub mod local_exif;
pub mod local_source;
pub mod map;
pub mod merge;
pub mod order;
pub mod path;
pub mod path_order;
pub mod quality;
pub mod seqs;
pub mod sources;
pub mod status;
pub mod sync_index;
pub mod text;
pub mod viewer;
pub mod watch;
