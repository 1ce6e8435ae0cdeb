//! The full-screen viewer: which picture is shown, how it is loaded step by step, and what taps,
//! swipes and keys lead to.
use vstd::prelude::*;
use vstd::string::*;
use crate::grid;
use crate::grid::original_preview_cache_path;
use crate::local_source::{is_local_id, LOCAL_ID_PREFIX};
use crate::order;
use crate::order::refs_sorted_by_keys;
use crate::path;
use crate::text;
use crate::text::{concat2, concat3, lowercase, number, number2, owned};

verus! {

/// The way the viewer moves to the next picture.
#[derive(Clone, Copy, Debug, PartialEq, Eq, Structural)]
pub enum NavDirection {
    Back,
    Stay,
    Forward,
}

/// The card shown where a picture cannot be.
#[derive(Debug, PartialEq, Eq)]
pub struct Unavailable {
    pub filename: String,
    pub mime: String,
    /// The file that another program can open.
    pub path: Option<String>,
}

/// The state of the viewer. It holds two pictures, of which one is shown and the other loaded into.
#[derive(Debug, PartialEq, Eq)]
pub struct Viewer {
    /// The position in the list.
    pub position: u32,
    /// Counts the loads; an older load is stale.
    pub generation: u64,
    /// The first of the two pictures is shown.
    pub active_a: bool,
    pub nav_dir: NavDirection,
    pub chrome_visible: bool,
    pub full_res_pref: bool,
    pub favorite: bool,
    /// The video is shown in place of the pictures, with its controls.
    pub video_shown: bool,
    pub unavailable: Option<Unavailable>,
    /// The file that can be dragged out.
    pub drag_path: Option<String>,
    pub loader_visible: bool,
}

/// One load of a picture.
#[derive(Debug, PartialEq, Eq)]
pub struct Load {
    pub generation: u64,
    /// It loads into the first of the two pictures.
    pub target_is_a: bool,
    pub asset_id: String,
    pub filename: String,
    pub mime: String,
    pub local_path: String,
    pub is_video: bool,
    pub full_res: bool,
    /// A preview is shown already.
    pub have_image: bool,
}

/// What the load of a picture does next.
#[derive(Debug, PartialEq, Eq)]
pub enum LoadStep {
    /// Load the preview of the asset.
    LoadPreview,
    /// Decode a local file.
    DecodeLocal { path: String },
    /// Ask the server for the address of the video.
    FetchVideoUri,
    /// Open the video at the address.
    OpenVideo { uri: String },
    /// Play the video at the address.
    Play { uri: String },
    /// Wait until the user has settled on this picture.
    Settle,
    /// Download the original to the path.
    Download { path: String },
    /// Decode the downloaded original.
    DecodeOriginal { path: String },
    /// Nothing more.
    Done,
}

/// What is shown of an asset.
#[derive(Debug, PartialEq, Eq)]
pub struct ShownAsset {
    pub id: String,
    pub filename: String,
    pub mime: String,
    pub local_path: String,
    pub is_video: bool,
}

/// Where the details of an asset come from.
#[derive(Clone, Copy, Debug, PartialEq, Eq, Structural)]
pub enum DetailsSource {
    File,
    Server,
}

/// How the shown picture changes.
#[derive(Debug, PartialEq, Eq)]
pub struct RenderPlan {
    pub load: Load,
    pub transition: NavDirection,
    pub details: DetailsSource,
    pub step: LoadStep,
    /// After how many milliseconds the loading indicator appears, where nothing is shown at once.
    pub loader_delay: Option<u64>,
}

/// The asset is a file that is only on disk.
pub open spec fn is_local_asset(id: Seq<char>, local_path: Seq<char>) -> bool {
    local_path.len() > 0 && LOCAL_ID_PREFIX@.is_prefix_of(id)
}

/// The load is the latest one.
pub open spec fn is_current(viewer: Viewer, load: Load) -> bool {
    viewer.generation == load.generation
}

/// The number after `n`, counting round.
pub open spec fn next_generation(n: u64) -> u64 {
    if n == u64::MAX {
        0
    } else {
        (n + 1) as u64
    }
}

/// The viewer with the card in place of a picture.
pub open spec fn is_card(card: Option<Unavailable>, load: Load, path: Option<Seq<char>>) -> bool {
    &&& card is Some
    &&& card->0.filename@ == load.filename@
    &&& card->0.mime@ == load.mime@
    &&& path::opt_view(card->0.path) == path
}

/// The viewer after it has begun a load.
pub open spec fn begins_load(before: Viewer, after: Viewer, target_is_a: bool, cached: bool) -> bool {
    after == (Viewer {
        generation: next_generation(before.generation),
        active_a: if cached {
            target_is_a
        } else {
            before.active_a
        },
        video_shown: false,
        unavailable: None,
        drag_path: None,
        ..before
    })
}

impl Viewer {
    /// The viewer on a position of the list, bars hidden.
    pub fn new(position: u32, full_res_pref: bool) -> (r: Self)
        ensures
            r == (Viewer {
                position,
                generation: 0,
                active_a: true,
                nav_dir: NavDirection::Stay,
                chrome_visible: false,
                full_res_pref,
                favorite: false,
                video_shown: false,
                unavailable: None,
                drag_path: None,
                loader_visible: false,
            }),
    {
        Viewer {
            position,
            generation: 0,
            active_a: true,
            nav_dir: NavDirection::Stay,
            chrome_visible: false,
            full_res_pref,
            favorite: false,
            video_shown: false,
            unavailable: None,
            drag_path: None,
            loader_visible: false,
        }
    }

    /// Shows the asset at the current position: into the picture that is not shown. `cached` says
    /// that its preview is at hand, and so is shown at once. A video stops. The original is wanted
    /// only of pictures of the server.
    pub fn render(&mut self, asset: &ShownAsset, cached: bool) -> (r: RenderPlan)
        ensures
            ({
                let local = is_local_asset(asset.id@, asset.local_path@);
                &&& begins_load(
                    Viewer { favorite: false, nav_dir: NavDirection::Stay, ..*old(self) },
                    *final(self),
                    !old(self).active_a,
                    cached,
                )
                &&& is_current(*final(self), r.load)
                &&& r.load.target_is_a == !old(self).active_a
                &&& r.load.asset_id@ == asset.id@
                &&& r.load.filename@ == asset.filename@
                &&& r.load.mime@ == asset.mime@
                &&& r.load.local_path@ == asset.local_path@
                &&& r.load.is_video == asset.is_video
                &&& r.load.full_res == (old(self).full_res_pref && !local && !asset.is_video)
                &&& !r.load.have_image
                &&& r.transition == old(self).nav_dir
                &&& r.details == if local && !asset.is_video {
                    DetailsSource::File
                } else {
                    DetailsSource::Server
                }
                &&& r.loader_delay == if cached {
                    None
                } else if asset.local_path@.len() == 0 {
                    Some(120u64)
                } else {
                    Some(250u64)
                }
                &&& if !asset.is_video && asset.local_path@.len() > 0 {
                    r.step matches LoadStep::DecodeLocal { path } && path@ == asset.local_path@
                } else {
                    r.step == LoadStep::LoadPreview
                }
            }),
    {
        let local: bool = !asset.local_path.as_str().is_empty() && is_local_id(asset.id.as_str());
        let target_is_a: bool = !self.active_a;
        let transition: NavDirection = self.nav_dir;
        self.generation =
        if self.generation == u64::MAX {
            0
        } else {
            self.generation + 1
        };
        self.video_shown = false;
        self.unavailable = None;
        self.drag_path = None;
        self.favorite = false;
        self.nav_dir = NavDirection::Stay;
        if cached {
            self.active_a = target_is_a;
        }
        let load: Load = Load {
            generation: self.generation,
            target_is_a,
            asset_id: owned(asset.id.as_str()),
            filename: owned(asset.filename.as_str()),
            mime: owned(asset.mime.as_str()),
            local_path: owned(asset.local_path.as_str()),
            is_video: asset.is_video,
            full_res: self.full_res_pref && !local && !asset.is_video,
            have_image: false,
        };
        RenderPlan {
            load,
            transition,
            details: if local && !asset.is_video {
                DetailsSource::File
            } else {
                DetailsSource::Server
            },
            step: if !asset.is_video && !asset.local_path.as_str().is_empty() {
                LoadStep::DecodeLocal { path: owned(asset.local_path.as_str()) }
            } else {
                LoadStep::LoadPreview
            },
            loader_delay: if cached {
                None
            } else if asset.local_path.as_str().is_empty() {
                Some(120)
            } else {
                Some(250)
            },
        }
    }

    fn show_unavailable(&mut self, load: &Load, path: Option<String>)
        ensures
            is_card(final(self).unavailable, *load, path::opt_view(path)),
            *final(self) == (Viewer { unavailable: final(self).unavailable, ..*old(self) }),
    {
        self.unavailable =
        Some(
            Unavailable {
                filename: owned(load.filename.as_str()),
                mime: owned(load.mime.as_str()),
                path,
            },
        );
    }

    /// The loading indicator's time has come: it appears unless the load has ended.
    pub fn loader_due(&mut self, ended: bool)
        ensures
            *final(self) == (Viewer {
                loader_visible: old(self).loader_visible || !ended,
                ..*old(self)
            }),
    {
        if !ended {
            self.loader_visible = true;
        }
    }

    /// The still of a video was loaded, or could not be: either way the picture is shown, and the
    /// video comes next, a local one from its file.
    pub fn after_video_poster(&mut self, load: &Load) -> (r: LoadStep)
        ensures
            !is_current(*old(self), *load) ==> *final(self) == *old(self) && r == LoadStep::Done,
            is_current(*old(self), *load) ==> {
                &&& *final(self) == (Viewer {
                    active_a: load.target_is_a,
                    loader_visible: false,
                    ..*old(self)
                })
                &&& if load.local_path@.len() > 0 {
                    r matches LoadStep::OpenVideo { uri } && uri@ == "file://"@ + load.local_path@
                } else {
                    r == LoadStep::FetchVideoUri
                }
            },
    {
        if self.generation != load.generation {
            return LoadStep::Done;
        }
        self.active_a = load.target_is_a;
        self.loader_visible = false;
        if !load.local_path.as_str().is_empty() {
            LoadStep::OpenVideo { uri: concat2("file://", load.local_path.as_str()) }
        } else {
            LoadStep::FetchVideoUri
        }
    }

    /// The address of a video is known, or there is none: the video plays and is shown, where it
    /// can be.
    pub fn after_video_uri(&mut self, load: &Load, uri: Option<String>, can_play: bool) -> (r:
        LoadStep)
        ensures
            is_current(*old(self), *load) && uri is Some && can_play ==> *final(self) == (Viewer {
                video_shown: true,
                ..*old(self)
            }) && r == (LoadStep::Play { uri: uri->0 }),
            !(is_current(*old(self), *load) && uri is Some && can_play) ==> *final(self) == *old(
                self,
            ) && r == LoadStep::Done,
    {
        if self.generation != load.generation || !can_play {
            return LoadStep::Done;
        }
        match uri {
            Some(u) => {
                self.video_shown = true;
                LoadStep::Play { uri: u }
            },
            None => LoadStep::Done,
        }
    }

    /// The video failed: its still is shown again.
    pub fn video_failed(&mut self)
        ensures
            *final(self) == (Viewer { video_shown: false, ..*old(self) }),
    {
        self.video_shown = false;
    }

    /// A local file was decoded, or could not be. A file that is only on disk then has no preview;
    /// any other asset goes on with that of the server.
    pub fn after_local_decode(&mut self, load: &Load, decoded: bool) -> (r: LoadStep)
        ensures
            r == if !decoded && !LOCAL_ID_PREFIX@.is_prefix_of(load.asset_id@) {
                LoadStep::LoadPreview
            } else {
                LoadStep::Done
            },
            r == LoadStep::LoadPreview || !is_current(*old(self), *load) ==> *final(self) == *old(
                self,
            ),
            r == LoadStep::Done && is_current(*old(self), *load) ==> {
                &&& *final(self) == (Viewer {
                    active_a: load.target_is_a,
                    loader_visible: false,
                    drag_path: final(self).drag_path,
                    unavailable: final(self).unavailable,
                    ..*old(self)
                })
                &&& decoded ==> final(self).unavailable == old(self).unavailable
                    && path::opt_view(final(self).drag_path) == Some(load.local_path@)
                &&& !decoded ==> final(self).drag_path == old(self).drag_path && is_card(
                    final(self).unavailable,
                    *load,
                    Some(load.local_path@),
                )
            },
    {
        if !decoded && !is_local_id(load.asset_id.as_str()) {
            return LoadStep::LoadPreview;
        }
        if self.generation == load.generation {
            if decoded {
                self.drag_path = Some(owned(load.local_path.as_str()));
            } else {
                self.show_unavailable(load, Some(owned(load.local_path.as_str())));
            }
            self.active_a = load.target_is_a;
            self.loader_visible = false;
        }
        LoadStep::Done
    }

    /// The preview was loaded, or could not be. The original comes next where a preview is shown or
    /// full resolution is wanted.
    pub fn after_preview(&mut self, load: &mut Load, loaded: bool) -> (r: LoadStep)
        ensures
            !is_current(*old(self), *old(load)) ==> *final(self) == *old(self) && *final(load)
                == *old(load) && r == LoadStep::Done,
            is_current(*old(self), *old(load)) ==> {
                &&& *final(load) == (Load {
                    have_image: old(load).have_image || loaded,
                    ..*old(load)
                })
                &&& *final(self) == (Viewer {
                    active_a: old(load).target_is_a,
                    loader_visible: false,
                    unavailable: final(self).unavailable,
                    ..*old(self)
                })
                &&& loaded ==> final(self).unavailable == old(self).unavailable
                &&& !loaded ==> is_card(final(self).unavailable, *old(load), None)
                &&& r == if final(load).have_image || old(load).full_res {
                    LoadStep::Settle
                } else {
                    LoadStep::Done
                }
            },
    {
        if self.generation != load.generation {
            return LoadStep::Done;
        }
        if loaded {
            load.have_image = true;
        } else {
            self.show_unavailable(load, None);
        }
        self.active_a = load.target_is_a;
        self.loader_visible = false;
        if load.have_image || load.full_res {
            LoadStep::Settle
        } else {
            LoadStep::Done
        }
    }

    /// The user has settled. The original is decoded from its cached file, or downloaded there
    /// first; without a cache there is none.
    pub fn after_settling(&mut self, load: &Load, cache_dir: Option<&str>, is_cached: bool) -> (r:
        LoadStep)
        ensures
            !is_current(*old(self), *load) ==> *final(self) == *old(self) && r == LoadStep::Done,
            is_current(*old(self), *load) && cache_dir is Some ==> {
                let file = path::joined_path(
                    cache_dir->0@,
                    load.asset_id@ + "."@ + grid::cache_extension(load.filename@),
                );
                &&& *final(self) == *old(self)
                &&& if is_cached {
                    r matches LoadStep::DecodeOriginal { path } && path@ == file
                } else {
                    r matches LoadStep::Download { path } && path@ == file
                }
            },
            is_current(*old(self), *load) && cache_dir is None ==> {
                &&& r == LoadStep::Done
                &&& ends_without_original(*old(self), *final(self), *load, None)
            },
    {
        if self.generation != load.generation {
            return LoadStep::Done;
        }
        match cache_dir {
            Some(dir) => {
                let file: String = original_preview_cache_path(
                    dir,
                    load.asset_id.as_str(),
                    load.filename.as_str(),
                );
                if is_cached {
                    LoadStep::DecodeOriginal { path: file }
                } else {
                    LoadStep::Download { path: file }
                }
            },
            None => {
                if !load.have_image {
                    self.show_unavailable(load, None);
                    self.active_a = load.target_is_a;
                }
                self.loader_visible = false;
                LoadStep::Done
            },
        }
    }

    /// The original was downloaded, or could not be. A preview that is shown stays.
    pub fn after_download(&mut self, load: &Load, file: &str, downloaded: bool) -> (r: LoadStep)
        ensures
            downloaded ==> *final(self) == *old(self) && (r matches LoadStep::DecodeOriginal {
                path,
            } && path@ == file@),
            !downloaded ==> r == LoadStep::Done,
            !downloaded && (!is_current(*old(self), *load) || load.have_image) ==> *final(self)
                == *old(self),
            !downloaded && is_current(*old(self), *load) && !load.have_image
                ==> ends_without_original(*old(self), *final(self), *load, None),
    {
        if downloaded {
            return LoadStep::DecodeOriginal { path: owned(file) };
        }
        if self.generation == load.generation && !load.have_image {
            self.show_unavailable(load, None);
            self.active_a = load.target_is_a;
            self.loader_visible = false;
        }
        LoadStep::Done
    }

    /// The original was decoded, or could not be. `drag_path` is the file that can then be dragged
    /// out.
    pub fn after_original_decode(
        &mut self,
        load: &Load,
        file: &str,
        decoded: bool,
        drag_path: Option<String>,
    )
        ensures
            !is_current(*old(self), *load) ==> *final(self) == *old(self),
            is_current(*old(self), *load) && decoded ==> *final(self) == (Viewer {
                drag_path,
                loader_visible: false,
                ..*old(self)
            }),
            is_current(*old(self), *load) && !decoded ==> ends_without_original(
                *old(self),
                *final(self),
                *load,
                Some(file@),
            ),
    {
        if self.generation != load.generation {
            return;
        }
        if decoded {
            self.drag_path = drag_path;
        } else if !load.have_image {
            self.show_unavailable(load, Some(owned(file)));
            self.active_a = load.target_is_a;
        }
        self.loader_visible = false;
    }

    /// Goes back by one; says whether there is a picture to show.
    pub fn goto_prev(&mut self) -> (r: bool)
        ensures
            r == (old(self).position > 0),
            *final(self) == if r {
                Viewer {
                    position: (old(self).position - 1) as u32,
                    nav_dir: NavDirection::Back,
                    chrome_visible: false,
                    ..*old(self)
                }
            } else {
                *old(self)
            },
    {
        if self.position > 0 {
            self.position = self.position - 1;
            self.nav_dir = NavDirection::Back;
            self.chrome_visible = false;
            true
        } else {
            false
        }
    }

    /// Goes on by one in a list of `n_items`; says whether there is a picture to show. Where there
    /// is none, the next page may have to be loaded first.
    pub fn goto_next(&mut self, n_items: u32) -> (r: bool)
        ensures
            r == (old(self).position + 1 < n_items),
            *final(self) == if r {
                Viewer {
                    position: (old(self).position + 1) as u32,
                    nav_dir: NavDirection::Forward,
                    chrome_visible: false,
                    ..*old(self)
                }
            } else {
                *old(self)
            },
    {
        if n_items > 0 && self.position < n_items - 1 {
            self.position = self.position + 1;
            self.nav_dir = NavDirection::Forward;
            self.chrome_visible = false;
            true
        } else {
            false
        }
    }

    /// The list changed while the next page was being waited for.
    pub fn page_arrived(&mut self, n_items: u32, n_before: u32) -> (r: PageArrival)
        ensures
            r.waiting_over == (n_items > n_before),
            r.shows_next == (n_items > n_before && old(self).position + 1 < n_items),
            *final(self) == if r.shows_next {
                Viewer {
                    position: (old(self).position + 1) as u32,
                    nav_dir: NavDirection::Forward,
                    ..*old(self)
                }
            } else {
                *old(self)
            },
    {
        if n_items <= n_before {
            return PageArrival { waiting_over: false, shows_next: false };
        }
        if self.position < n_items - 1 {
            self.position = self.position + 1;
            self.nav_dir = NavDirection::Forward;
            PageArrival { waiting_over: true, shows_next: true }
        } else {
            PageArrival { waiting_over: true, shows_next: false }
        }
    }

    /// A tap: a single one shows or hides the bars, unless the picture is zoomed. Says whether it
    /// did.
    pub fn tap(&mut self, n_press: i32, zoomed: bool) -> (r: bool)
        ensures
            r == (n_press == 1 && !zoomed),
            *final(self) == (Viewer {
                chrome_visible: old(self).chrome_visible != r,
                ..*old(self)
            }),
    {
        if n_press != 1 || zoomed {
            return false;
        }
        self.chrome_visible = !self.chrome_visible;
        true
    }

    /// The favourite button: the new state to send to the server; none for a local file, which has
    /// no such state.
    pub fn toggle_favorite(&mut self, asset_id: &str) -> (r: Option<bool>)
        ensures
            r == if LOCAL_ID_PREFIX@.is_prefix_of(asset_id@) {
                None
            } else {
                Some(!old(self).favorite)
            },
            *final(self) == (Viewer {
                favorite: match r {
                    Some(want) => want,
                    None => old(self).favorite,
                },
                ..*old(self)
            }),
    {
        if is_local_id(asset_id) {
            return None;
        }
        self.favorite = !self.favorite;
        Some(self.favorite)
    }

    /// Switches between previews and originals.
    pub fn toggle_full_resolution(&mut self) -> (r: bool)
        ensures
            r == !old(self).full_res_pref,
            *final(self) == (Viewer { full_res_pref: r, ..*old(self) }),
    {
        self.full_res_pref = !self.full_res_pref;
        self.full_res_pref
    }

    /// Whether an answer that was asked for at a position is still of use.
    pub fn is_at(&self, position: u32) -> (r: bool)
        ensures
            r == (self.position == position),
    {
        self.position == position
    }
}

/// The viewer after a load ended without an original: a preview that is shown stays, else the card
/// comes.
pub open spec fn ends_without_original(
    before: Viewer,
    after: Viewer,
    load: Load,
    path: Option<Seq<char>>,
) -> bool {
    if load.have_image {
        after == (Viewer { loader_visible: false, ..before })
    } else {
        &&& after == (Viewer {
            loader_visible: false,
            active_a: load.target_is_a,
            unavailable: after.unavailable,
            ..before
        })
        &&& is_card(after.unavailable, load, path)
    }
}

/// What the arrival of a page means for the viewer.
#[derive(Clone, Copy, Debug, PartialEq, Eq, Structural)]
pub struct PageArrival {
    /// It need not wait any longer.
    pub waiting_over: bool,
    /// It has moved on and shows the next picture.
    pub shows_next: bool,
}

/// A load that was current is stale once another has begun.
pub proof fn new_load_makes_others_stale(
    before: Viewer,
    after: Viewer,
    load: Load,
    target_is_a: bool,
    cached: bool,
)
    requires
        is_current(before, load),
        begins_load(before, after, target_is_a, cached),
    ensures
        !is_current(after, load),
{
}

/// The icon of the favourite button.
pub fn favorite_icon(favorite: bool) -> (r: &'static str)
    ensures
        r@ == if favorite {
            "starred-symbolic"@
        } else {
            "non-starred-symbolic"@
        },
{
    if favorite {
        "starred-symbolic"
    } else {
        "non-starred-symbolic"
    }
}

/// What a button of the viewer does with an asset.
#[derive(Clone, Copy, Debug, PartialEq, Eq, Structural)]
pub enum ViewerButton {
    Delete,
    AddToAlbum,
    Download,
    EditDescription,
}

/// Whether a button works on an asset.
#[derive(Clone, Copy, Debug, PartialEq, Eq)]
pub enum ButtonAnswer {
    Go,
    /// It says why not.
    Refuse { heading: &'static str, body: &'static str },
    /// It does nothing.
    Ignore,
}

/// Whether a button works on an asset: none does on a file that is only on disk.
pub fn button_answer(button: ViewerButton, asset_id: &str) -> (r: ButtonAnswer)
    ensures
        ({
            let local = LOCAL_ID_PREFIX@.is_prefix_of(asset_id@);
            match r {
                ButtonAnswer::Go => !local,
                ButtonAnswer::Refuse { heading, body } => local && body@
                    == "This is a local-only asset."@ && (button == ViewerButton::Delete && heading@
                    == "Cannot delete"@ || button == ViewerButton::AddToAlbum && heading@
                    == "Cannot add"@),
                ButtonAnswer::Ignore => local && (button == ViewerButton::Download || button
                    == ViewerButton::EditDescription),
            }
        }),
{
    if !is_local_id(asset_id) {
        return ButtonAnswer::Go;
    }
    match button {
        ViewerButton::Delete => ButtonAnswer::Refuse {
            heading: "Cannot delete",
            body: "This is a local-only asset.",
        },
        ViewerButton::AddToAlbum => ButtonAnswer::Refuse {
            heading: "Cannot add",
            body: "This is a local-only asset.",
        },
        ViewerButton::Download => ButtonAnswer::Ignore,
        ViewerButton::EditDescription => ButtonAnswer::Ignore,
    }
}

/// The keys the viewer knows.
#[derive(Clone, Copy, Debug, PartialEq, Eq, Structural)]
pub enum ViewerKey {
    Plus,
    Equal,
    KeypadAdd,
    Minus,
    KeypadSubtract,
    Zero,
    KeypadZero,
    Left,
    Right,
    Up,
    LowerI,
    UpperI,
    Space,
    Escape,
    Other,
}

/// What a key or the wheel leads to.
#[derive(Clone, Copy, Debug, PartialEq, Eq, Structural)]
pub enum ViewerCommand {
    ZoomIn,
    ZoomOut,
    ZoomReset,
    Previous,
    Next,
    OpenDetails,
    ToggleBars,
    Exit,
    /// Nothing: the event goes on to others.
    Pass,
}

/// What a key leads to: zooming with Ctrl, everything else without.
pub fn key_command(ctrl: bool, key: ViewerKey) -> (r: ViewerCommand)
    ensures
        r == if ctrl {
            match key {
                ViewerKey::Plus | ViewerKey::Equal | ViewerKey::KeypadAdd => ViewerCommand::ZoomIn,
                ViewerKey::Minus | ViewerKey::KeypadSubtract => ViewerCommand::ZoomOut,
                ViewerKey::Zero | ViewerKey::KeypadZero => ViewerCommand::ZoomReset,
                _ => ViewerCommand::Pass,
            }
        } else {
            match key {
                ViewerKey::Left => ViewerCommand::Previous,
                ViewerKey::Right => ViewerCommand::Next,
                ViewerKey::Up | ViewerKey::LowerI | ViewerKey::UpperI => ViewerCommand::OpenDetails,
                ViewerKey::Space => ViewerCommand::ToggleBars,
                ViewerKey::Escape => ViewerCommand::Exit,
                _ => ViewerCommand::Pass,
            }
        },
{
    match key {
        ViewerKey::Plus | ViewerKey::Equal | ViewerKey::KeypadAdd => {
            if ctrl {
                ViewerCommand::ZoomIn
            } else {
                ViewerCommand::Pass
            }
        },
        ViewerKey::Minus | ViewerKey::KeypadSubtract => {
            if ctrl {
                ViewerCommand::ZoomOut
            } else {
                ViewerCommand::Pass
            }
        },
        ViewerKey::Zero | ViewerKey::KeypadZero => {
            if ctrl {
                ViewerCommand::ZoomReset
            } else {
                ViewerCommand::Pass
            }
        },
        _ => {
            if ctrl {
                return ViewerCommand::Pass;
            }
            match key {
                ViewerKey::Left => ViewerCommand::Previous,
                ViewerKey::Right => ViewerCommand::Next,
                ViewerKey::Up | ViewerKey::LowerI | ViewerKey::UpperI => ViewerCommand::OpenDetails,
                ViewerKey::Space => ViewerCommand::ToggleBars,
                ViewerKey::Escape => ViewerCommand::Exit,
                _ => ViewerCommand::Pass,
            }
        },
    }
}

/// The sign of a number.
#[derive(Clone, Copy, Debug, PartialEq, Eq, Structural)]
pub enum Sign {
    Negative,
    Zero,
    Positive,
}

/// What the wheel leads to: with Ctrl it zooms, by the vertical movement or else the horizontal one.
pub fn scroll_command(ctrl: bool, dx: Sign, dy: Sign) -> (r: ViewerCommand)
    ensures
        r == {
            let delta = if dy != Sign::Zero {
                dy
            } else {
                dx
            };
            if !ctrl || delta == Sign::Zero {
                ViewerCommand::Pass
            } else if delta == Sign::Negative {
                ViewerCommand::ZoomIn
            } else {
                ViewerCommand::ZoomOut
            }
        },
{
    let delta: Sign = if dy != Sign::Zero {
        dy
    } else {
        dx
    };
    if !ctrl || delta == Sign::Zero {
        ViewerCommand::Pass
    } else if delta == Sign::Negative {
        ViewerCommand::ZoomIn
    } else {
        ViewerCommand::ZoomOut
    }
}

/// Eight pixels, sixteen, sixty and a hundred and twenty, and nine hundred pixels a second: the
/// bits of these numbers in double precision, which order as the numbers do.
pub const EIGHT: u64 = 0x4020_0000_0000_0000;

pub const CLAIM_DISTANCE: u64 = 0x4030_0000_0000_0000;

pub const SWIPE_DISTANCE: u64 = 0x404e_0000_0000_0000;

pub const DISMISS_DISTANCE: u64 = 0x405e_0000_0000_0000;

pub const FLICK_VELOCITY: u64 = 0x408c_2000_0000_0000;

/// How far a drag has come. The distances are the bits of the absolute values in double precision.
#[derive(Clone, Copy, Debug, PartialEq, Eq, Structural)]
pub struct DragOffset {
    pub distance_x: u64,
    pub distance_y: u64,
    pub sign_x: Sign,
    pub sign_y: Sign,
}

/// The state of a drag with one finger. It is classified once, when it has come far enough.
#[derive(Clone, Copy, Debug, PartialEq, Eq, Structural)]
pub struct Swipe {
    /// It has been taken for a swipe, and neither zooms nor pans.
    pub claimed: bool,
    /// It drags the picture down, to leave the viewer.
    pub dismissing: bool,
    /// It drags the picture aside, to the neighbour.
    pub horizontal: bool,
}

/// How the picture follows the finger.
#[derive(Clone, Copy, Debug, PartialEq, Eq, Structural)]
pub enum DragMotion {
    Still,
    Down,
    Aside,
}

/// How a drag ends.
#[derive(Clone, Copy, Debug, PartialEq, Eq, Structural)]
pub enum SwipeEnd {
    Nothing,
    /// The viewer closes, in as many milliseconds.
    Dismiss { millis: u32 },
    SnapUp,
    SnapAside,
    Previous,
    Next,
    OpenDetails,
}

/// The state of a drag that was classified: mostly vertical ones dismiss where they go down, mostly
/// horizontal ones move to a neighbour.
pub open spec fn classified(offset: DragOffset) -> Swipe {
    Swipe {
        claimed: true,
        dismissing: offset.distance_y >= offset.distance_x && offset.sign_y == Sign::Positive,
        horizontal: offset.distance_y < offset.distance_x,
    }
}

/// The state of a drag after the finger has moved.
pub open spec fn moved(swipe: Swipe, offset: DragOffset, zoomed: bool) -> Swipe {
    if zoomed || swipe.claimed || (offset.distance_x <= CLAIM_DISTANCE && offset.distance_y
        <= CLAIM_DISTANCE) {
        swipe
    } else {
        Swipe {
            claimed: true,
            dismissing: swipe.dismissing || classified(offset).dismissing,
            horizontal: swipe.horizontal || classified(offset).horizontal,
        }
    }
}

/// How a drag ends, by what it was taken for, how far it came, and how fast it went down.
pub open spec fn outcome(
    swipe: Swipe,
    offset: DragOffset,
    down_velocity: u64,
    zoomed: bool,
) -> SwipeEnd {
    let flick = down_velocity > FLICK_VELOCITY && offset.sign_y == Sign::Positive
        && offset.distance_y > EIGHT;
    if zoomed {
        SwipeEnd::Nothing
    } else if swipe.dismissing {
        if flick {
            SwipeEnd::Dismiss { millis: 130 }
        } else if offset.sign_y == Sign::Positive && offset.distance_y > DISMISS_DISTANCE {
            SwipeEnd::Dismiss { millis: 160 }
        } else {
            SwipeEnd::SnapUp
        }
    } else if swipe.horizontal {
        if offset.distance_x <= SWIPE_DISTANCE {
            SwipeEnd::SnapAside
        } else if offset.sign_x == Sign::Positive {
            SwipeEnd::Previous
        } else {
            SwipeEnd::Next
        }
    } else if offset.distance_x < SWIPE_DISTANCE && offset.distance_y < SWIPE_DISTANCE {
        SwipeEnd::Nothing
    } else if offset.distance_x > offset.distance_y {
        if offset.sign_x == Sign::Positive {
            SwipeEnd::Previous
        } else {
            SwipeEnd::Next
        }
    } else if offset.sign_y == Sign::Negative {
        SwipeEnd::OpenDetails
    } else {
        SwipeEnd::Nothing
    }
}

impl Swipe {
    /// A drag that has just begun.
    pub fn begin() -> (r: Self)
        ensures
            r == (Swipe { claimed: false, dismissing: false, horizontal: false }),
    {
        Swipe { claimed: false, dismissing: false, horizontal: false }
    }

    /// The finger has moved. When zoomed, the picture is panned instead.
    pub fn update(&mut self, offset: DragOffset, zoomed: bool) -> (r: DragMotion)
        ensures
            *final(self) == moved(*old(self), offset, zoomed),
            r == if zoomed {
                DragMotion::Still
            } else if final(self).dismissing {
                DragMotion::Down
            } else if final(self).horizontal {
                DragMotion::Aside
            } else {
                DragMotion::Still
            },
    {
        if zoomed {
            return DragMotion::Still;
        }
        if !self.claimed && (offset.distance_x > CLAIM_DISTANCE || offset.distance_y
            > CLAIM_DISTANCE) {
            self.claimed = true;
            if offset.distance_y >= offset.distance_x {
                if offset.sign_y == Sign::Positive {
                    self.dismissing = true;
                }
            } else {
                self.horizontal = true;
            }
        }
        if self.dismissing {
            DragMotion::Down
        } else if self.horizontal {
            DragMotion::Aside
        } else {
            DragMotion::Still
        }
    }

    /// The finger was lifted. The velocity is that of a downward movement, zero for any other.
    pub fn end(&mut self, offset: DragOffset, down_velocity: u64, zoomed: bool) -> (r: SwipeEnd)
        ensures
            r == outcome(*old(self), offset, down_velocity, zoomed),
            *final(self) == (Swipe { claimed: false, dismissing: false, horizontal: false }),
    {
        let was: Swipe = *self;
        *self = Swipe::begin();
        if zoomed {
            return SwipeEnd::Nothing;
        }
        if was.dismissing {
            let down: bool = offset.sign_y == Sign::Positive;
            if down_velocity > FLICK_VELOCITY && down && offset.distance_y > EIGHT {
                return SwipeEnd::Dismiss { millis: 130 };
            }
            if down && offset.distance_y > DISMISS_DISTANCE {
                return SwipeEnd::Dismiss { millis: 160 };
            }
            return SwipeEnd::SnapUp;
        }
        if was.horizontal {
            if offset.distance_x > SWIPE_DISTANCE {
                if offset.sign_x == Sign::Positive {
                    return SwipeEnd::Previous;
                }
                return SwipeEnd::Next;
            }
            return SwipeEnd::SnapAside;
        }
        if offset.distance_x < SWIPE_DISTANCE && offset.distance_y < SWIPE_DISTANCE {
            return SwipeEnd::Nothing;
        }
        if offset.distance_x > offset.distance_y {
            if offset.sign_x == Sign::Positive {
                SwipeEnd::Previous
            } else {
                SwipeEnd::Next
            }
        } else if offset.sign_y == Sign::Negative {
            SwipeEnd::OpenDetails
        } else {
            SwipeEnd::Nothing
        }
    }
}

/// A drag is never taken for both kinds of swipe, and for neither before it is claimed.
pub open spec fn is_consistent(swipe: Swipe) -> bool {
    &&& !(swipe.dismissing && swipe.horizontal)
    &&& !swipe.claimed ==> !swipe.dismissing && !swipe.horizontal
}

/// Moving keeps a drag consistent, and what it was once taken for it stays.
pub proof fn swipe_is_classified_once(swipe: Swipe, offset: DragOffset, zoomed: bool)
    requires
        is_consistent(swipe),
    ensures
        is_consistent(moved(swipe, offset, zoomed)),
        swipe.claimed ==> moved(swipe, offset, zoomed) == swipe,
{
}

/// A drag that was taken for a downward one never moves to a neighbour.
pub proof fn dismissing_swipe_does_not_navigate(
    swipe: Swipe,
    offset: DragOffset,
    down_velocity: u64,
    zoomed: bool,
)
    requires
        swipe.dismissing,
    ensures
        outcome(swipe, offset, down_velocity, zoomed) != SwipeEnd::Previous,
        outcome(swipe, offset, down_velocity, zoomed) != SwipeEnd::Next,
{
}

/// A double tap: it zooms in or back out, unless a video is shown, a swipe is under way, or the
/// finger moved. None where it does nothing, else whether to zoom in.
pub fn double_tap(
    n_press: i32,
    video_shown: bool,
    swiping: bool,
    moved_far: bool,
    zoomed: bool,
) -> (r: Option<bool>)
    ensures
        r == if n_press == 2 && !video_shown && !swiping && !moved_far {
            Some(!zoomed)
        } else {
            None
        },
{
    if video_shown || n_press != 2 || swiping || moved_far {
        return None;
    }
    Some(!zoomed)
}

/// A duration or position as h:mm:ss, or m:ss below an hour.
pub open spec fn time_text(seconds: nat) -> Seq<char> {
    let h = seconds / 3600;
    let m = (seconds % 3600) / 60;
    let s = seconds % 60;
    if h > 0 {
        text::decimal(h) + ":"@ + text::decimal2(m) + ":"@ + text::decimal2(s)
    } else {
        text::decimal(m) + ":"@ + text::decimal2(s)
    }
}

/// A duration or position as h:mm:ss, or m:ss below an hour.
pub fn format_time(seconds: u64) -> (r: String)
    ensures
        r@ == time_text(seconds as nat),
{
    let h: u64 = seconds / 3600;
    let m: u64 = (seconds % 3600) / 60;
    let s: u64 = seconds % 60;
    if h > 0 {
        let front: String = concat3(number(h).as_str(), ":", number2(m).as_str());
        concat3(front.as_str(), ":", number2(s).as_str())
    } else {
        concat3(number(m).as_str(), ":", number2(s).as_str())
    }
}

/// The controls of a video: the scrubber runs from zero to `range_end` nanoseconds.
#[derive(Debug, PartialEq, Eq)]
pub struct VideoControls {
    pub position_label: String,
    pub duration_label: String,
    pub position_ns: u64,
    pub duration_ns: u64,
    pub range_end: u64,
    /// The user drags the scrubber.
    pub seeking: bool,
    pub playing: bool,
}

impl VideoControls {
    /// The controls before playback.
    pub fn new() -> (r: Self)
        ensures
            r.position_label@ == "0:00"@,
            r.duration_label@ == "0:00"@,
            r.position_ns == 0,
            r.duration_ns == 0,
            r.range_end == 1,
            !r.seeking,
            !r.playing,
    {
        VideoControls {
            position_label: owned("0:00"),
            duration_label: owned("0:00"),
            position_ns: 0,
            duration_ns: 0,
            range_end: 1,
            seeking: false,
            playing: false,
        }
    }

    /// The duration is known; none counts as zero.
    pub fn duration_changed(&mut self, duration: Option<u64>)
        ensures
            ({
                let ns = match duration {
                    Some(n) => n,
                    None => 0,
                };
                &&& final(self).duration_label@ == time_text((ns / 1_000_000_000) as nat)
                &&& *final(self) == (VideoControls {
                    duration_label: final(self).duration_label,
                    duration_ns: ns,
                    range_end: if ns == 0 {
                        1
                    } else {
                        ns
                    },
                    ..*old(self)
                })
            }),
    {
        let ns: u64 = match duration {
            Some(n) => n,
            None => 0,
        };
        self.duration_ns = ns;
        self.range_end =
        if ns == 0 {
            1
        } else {
            ns
        };
        self.duration_label = format_time(ns / 1_000_000_000);
    }

    /// Playback has come to a position. While the user drags the scrubber it stays where it is.
    pub fn position_updated(&mut self, position: Option<u64>)
        ensures
            old(self).seeking ==> *final(self) == *old(self),
            !old(self).seeking ==> {
                let ns = match position {
                    Some(n) => n,
                    None => 0,
                };
                &&& final(self).position_label@ == time_text((ns / 1_000_000_000) as nat)
                &&& *final(self) == (VideoControls {
                    position_label: final(self).position_label,
                    position_ns: ns,
                    ..*old(self)
                })
            },
    {
        if !self.seeking {
            let ns: u64 = match position {
                Some(n) => n,
                None => 0,
            };
            self.position_ns = ns;
            self.position_label = format_time(ns / 1_000_000_000);
        }
    }

    /// The icon of the play button: what a press would do.
    pub fn play_icon(&self) -> (r: &'static str)
        ensures
            r@ == if self.playing {
                "media-playback-pause-symbolic"@
            } else {
                "media-playback-start-symbolic"@
            },
    {
        if self.playing {
            "media-playback-pause-symbolic"
        } else {
            "media-playback-start-symbolic"
        }
    }
}

/// An album to choose from.
#[derive(Debug, PartialEq, Eq)]
pub struct AlbumChoice {
    pub name: String,
    pub id: String,
}

/// Albums by name, without regard to case.
pub open spec fn by_name() -> spec_fn(AlbumChoice, AlbumChoice) -> bool {
    |a: AlbumChoice, b: AlbumChoice|
        text::text_le(text::lowercase_of(a.name@), text::lowercase_of(b.name@))
}

/// The albums to choose from, by name without regard to case; those of equal names as they stood.
pub fn sorted_choices<'a>(albums: &'a Vec<AlbumChoice>) -> (r: Vec<&'a AlbumChoice>)
    ensures
        order::behind(r@) == order::stable_sort(albums@, by_name()),
{
    let mut refs: Vec<&'a AlbumChoice> = Vec::new();
    let mut keys: Vec<String> = Vec::new();
    let mut i: usize = 0;
    while i < albums.len()
        invariant
            i <= albums.len(),
            refs.len() == i,
            keys.len() == i,
            forall|k: int| 0 <= k < i ==> *(#[trigger] refs@[k]) == albums@[k],
            forall|k: int|
                0 <= k < i ==> (#[trigger] keys@[k])@ == text::lowercase_of(albums@[k].name@),
        decreases albums.len() - i,
    {
        refs.push(&albums[i]);
        keys.push(lowercase(albums[i].name.as_str()));
        i = i + 1;
    }
    assert(order::behind(refs@) =~= albums@);
    refs_sorted_by_keys(&refs, &keys, Ghost(by_name()))
}

/// The message where an asset could not be added to an album.
pub fn add_failure_text(name: &str) -> (r: String)
    ensures
        r@ == "Failed to add to \""@ + name@ + "\"."@,
{
    concat3("Failed to add to \"", name, "\".")
}

/// The name under which a download for the preview is listed.
pub fn preview_label(asset_id: &str) -> (r: String)
    ensures
        r@ == "preview "@ + asset_id@,
{
    concat2("preview ", asset_id)
}

/// Once another picture is being loaded, nothing that comes back for an earlier one changes the
/// viewer: neither its preview nor its original, its video or the lack of them.
pub proof fn late_answers_change_nothing(
    first: &mut Viewer,
    second: &mut Viewer,
    previewed: &mut Viewer,
    settled: &mut Viewer,
    decoded: &mut Viewer,
    poster: &mut Viewer,
    video: &mut Viewer,
    local: &mut Viewer,
    earlier: &ShownAsset,
    later: &ShownAsset,
    cached: bool,
    at_hand: bool,
    plan: RenderPlan,
    other: RenderPlan,
    load: &mut Load,
    ok: bool,
    dir: Option<&str>,
    file: &str,
    drag: Option<String>,
    uri: Option<String>,
    steps: (LoadStep, LoadStep, LoadStep, LoadStep, LoadStep),
)
    requires
        call_ensures(Viewer::render, (first, earlier, cached), plan),
        *old(second) == *final(first),
        call_ensures(Viewer::render, (second, later, at_hand), other),
        *old(load) == plan.load,
        *old(previewed) == *final(second),
        call_ensures(Viewer::after_preview, (previewed, load, ok), steps.0),
        *old(settled) == *final(second),
        call_ensures(Viewer::after_settling, (settled, &plan.load, dir, ok), steps.1),
        *old(decoded) == *final(second),
        call_ensures(Viewer::after_original_decode, (decoded, &plan.load, file, ok, drag), ()),
        *old(poster) == *final(second),
        call_ensures(Viewer::after_video_poster, (poster, &plan.load), steps.2),
        *old(video) == *final(second),
        call_ensures(Viewer::after_video_uri, (video, &plan.load, uri, ok), steps.3),
        *old(local) == *final(second),
        call_ensures(Viewer::after_local_decode, (local, &plan.load, ok), steps.4),
    ensures
        *final(previewed) == *final(second) && steps.0 == LoadStep::Done,
        *final(settled) == *final(second) && steps.1 == LoadStep::Done,
        *final(decoded) == *final(second),
        *final(poster) == *final(second) && steps.2 == LoadStep::Done,
        *final(video) == *final(second) && steps.3 == LoadStep::Done,
        *final(local) == *final(second),
{
}

/// A picture of the server: its preview is loaded into the picture that was hidden and then shown;
/// once the user has settled the original is downloaded to a file named by the asset, decoded from
/// there and can be dragged out. Nothing is called unavailable.
pub proof fn server_picture_is_shown_then_improved(
    begun: &mut Viewer,
    previewed: &mut Viewer,
    settled: &mut Viewer,
    fetched: &mut Viewer,
    decoded: &mut Viewer,
    asset: &ShownAsset,
    plan: RenderPlan,
    load: &mut Load,
    dir: &str,
    file: &str,
    drag: Option<String>,
    preview: LoadStep,
    settle: LoadStep,
    fetch: LoadStep,
)
    requires
        !asset.is_video,
        asset.local_path@.len() == 0,
        call_ensures(Viewer::render, (begun, asset, false), plan),
        *old(load) == plan.load,
        *old(previewed) == *final(begun),
        call_ensures(Viewer::after_preview, (previewed, load, true), preview),
        *old(settled) == *final(previewed),
        call_ensures(Viewer::after_settling, (settled, &*final(load), Some(dir), false), settle),
        settle matches LoadStep::Download { path } ==> path@ == file@,
        *old(fetched) == *final(settled),
        call_ensures(Viewer::after_download, (fetched, &*final(load), file, true), fetch),
        *old(decoded) == *final(fetched),
        call_ensures(
            Viewer::after_original_decode,
            (decoded, &*final(load), file, true, drag),
            (),
        ),
    ensures
        plan.step == LoadStep::LoadPreview,
        plan.details == DetailsSource::Server,
        plan.loader_delay is Some,
        plan.load.target_is_a != old(begun).active_a,
        final(begun).active_a == old(begun).active_a,
        preview == LoadStep::Settle,
        final(previewed).active_a == plan.load.target_is_a,
        final(previewed).unavailable is None,
        settle is Download,
        fetch matches LoadStep::DecodeOriginal { path } && path@ == file@,
        final(decoded).drag_path == drag,
        final(decoded).unavailable is None,
        !final(decoded).loader_visible,
        final(decoded).position == old(begun).position,
{
}

/// A picture without a preview has the card with its name, and nothing more is tried unless full
/// resolution is wanted; a file that is only on disk and cannot be decoded has the card with its
/// path, and one that can be decoded may be dragged out; any other falls back on the server.
pub proof fn missing_pictures_have_the_card(
    begun: &mut Viewer,
    previewed: &mut Viewer,
    local: &mut Viewer,
    asset: &ShownAsset,
    plan: RenderPlan,
    load: &mut Load,
    decoded: bool,
    preview: LoadStep,
    decode: LoadStep,
)
    requires
        !asset.is_video,
        call_ensures(Viewer::render, (begun, asset, false), plan),
        *old(load) == plan.load,
        *old(previewed) == *final(begun),
        call_ensures(Viewer::after_preview, (previewed, load, false), preview),
        *old(local) == *final(begun),
        call_ensures(Viewer::after_local_decode, (local, &plan.load, decoded), decode),
    ensures
        asset.local_path@.len() > 0 <==> plan.step is DecodeLocal,
        plan.step matches LoadStep::DecodeLocal { path } ==> path@ == asset.local_path@,
        final(previewed).unavailable matches Some(card) && card.filename@ == asset.filename@
            && card.mime@ == asset.mime@ && card.path is None,
        preview == LoadStep::Settle <==> old(begun).full_res_pref && !(asset.local_path@.len() > 0
            && LOCAL_ID_PREFIX@.is_prefix_of(asset.id@)),
        decoded ==> decode == LoadStep::Done && final(local).unavailable is None
            && path::opt_view(final(local).drag_path) == Some(asset.local_path@),
        !decoded && LOCAL_ID_PREFIX@.is_prefix_of(asset.id@) ==> decode == LoadStep::Done
            && final(local).unavailable is Some && path::opt_view(
            final(local).unavailable->0.path,
        ) == Some(asset.local_path@),
        !decoded && !LOCAL_ID_PREFIX@.is_prefix_of(asset.id@) ==> decode == LoadStep::LoadPreview,
{
}

/// A video shows its still first, then plays: a local one from its file, any other from the address
/// that the server gives, where it can be played at all; otherwise the still stays.
pub proof fn video_plays_after_its_still(
    begun: &mut Viewer,
    poster: &mut Viewer,
    opened: &mut Viewer,
    asset: &ShownAsset,
    cached: bool,
    plan: RenderPlan,
    uri: Option<String>,
    can_play: bool,
    still: LoadStep,
    open: LoadStep,
)
    requires
        asset.is_video,
        call_ensures(Viewer::render, (begun, asset, cached), plan),
        *old(poster) == *final(begun),
        call_ensures(Viewer::after_video_poster, (poster, &plan.load), still),
        *old(opened) == *final(poster),
        call_ensures(Viewer::after_video_uri, (opened, &plan.load, uri, can_play), open),
    ensures
        plan.step == LoadStep::LoadPreview,
        !final(begun).video_shown,
        final(poster).active_a == plan.load.target_is_a,
        asset.local_path@.len() == 0 ==> still == LoadStep::FetchVideoUri,
        asset.local_path@.len() > 0 ==> (still matches LoadStep::OpenVideo { uri: u } && u@
            == "file://"@ + asset.local_path@),
        final(opened).video_shown <==> uri is Some && can_play,
        open is Play <==> uri is Some && can_play,
        open matches LoadStep::Play { uri: u } ==> uri == Some(u),
{
}

/// Going on and back again leads to the same picture, and neither leaves the list.
pub proof fn going_on_and_back_stays(
    on: &mut Viewer,
    back: &mut Viewer,
    n_items: u32,
    went_on: bool,
    went_back: bool,
)
    requires
        old(on).position < n_items,
        call_ensures(Viewer::goto_next, (on, n_items), went_on),
        *old(back) == *final(on),
        call_ensures(Viewer::goto_prev, (back,), went_back),
    ensures
        final(on).position < n_items,
        went_on <==> old(on).position != n_items - 1,
        went_on ==> went_back && final(back).position == old(on).position && final(on).nav_dir
            == NavDirection::Forward && final(back).nav_dir == NavDirection::Back,
        !went_on ==> *final(on) == *old(on),
{
}

/// A single swipe of an unzoomed picture. One that is mostly sideways and over sixty pixels goes to
/// the picture before where it goes right, to the next where it goes left. One that is mostly down
/// closes the viewer beyond a hundred and twenty pixels. One that is mostly up, by sixty pixels or
/// more, opens the details. One of up to sixteen pixels either way does nothing. The distances are
/// the bits of double-precision numbers.
pub proof fn swipe_does_what_its_direction_says(
    moved_to: &mut Swipe,
    lifted: &mut Swipe,
    fresh: Swipe,
    offset: DragOffset,
    velocity: u64,
    motion: DragMotion,
    end: SwipeEnd,
)
    requires
        call_ensures(Swipe::begin, (), fresh),
        *old(moved_to) == fresh,
        call_ensures(Swipe::update, (moved_to, offset, false), motion),
        *old(lifted) == *final(moved_to),
        call_ensures(Swipe::end, (lifted, offset, velocity, false), end),
    ensures
        ({
            let x = offset.distance_x;
            let y = offset.distance_y;
            let sixteen = 0x4030_0000_0000_0000u64;
            let sixty = 0x404e_0000_0000_0000u64;
            let far_down = 0x405e_0000_0000_0000u64;
            &&& x > y && x > sixty && offset.sign_x == Sign::Positive ==> end == SwipeEnd::Previous
            &&& x > y && x > sixty && offset.sign_x == Sign::Negative ==> end == SwipeEnd::Next
            &&& y >= x && y > far_down && offset.sign_y == Sign::Positive ==> end is Dismiss
            &&& y >= x && y >= sixty && offset.sign_y == Sign::Negative ==> end
                == SwipeEnd::OpenDetails
            &&& x <= sixteen && y <= sixteen ==> end == SwipeEnd::Nothing && motion
                == DragMotion::Still
            &&& end is Dismiss ==> y >= x && offset.sign_y == Sign::Positive
            &&& end == SwipeEnd::Previous || end == SwipeEnd::Next ==> x > y && x > sixty
            &&& end == SwipeEnd::OpenDetails ==> y >= x && offset.sign_y == Sign::Negative
            &&& motion == DragMotion::Aside ==> x > y
            &&& motion == DragMotion::Down ==> y >= x && offset.sign_y == Sign::Positive
        }),
        *final(lifted) == fresh,
{
}

/// The albums to choose from are all there, by name without regard to case.
pub proof fn choices_are_sorted_by_name(
    albums: &Vec<AlbumChoice>,
    choices: Vec<&AlbumChoice>,
    album: AlbumChoice,
)
    requires
        call_ensures(sorted_choices, (albums,), choices),
    ensures
        choices@.len() == albums@.len(),
        (exists|i: int| 0 <= i < choices@.len() && *#[trigger] choices@[i] == album)
            <==> albums@.contains(album),
        forall|i: int, j: int|
            0 <= i < j < choices@.len() ==> text::text_le(
                text::lowercase_of((#[trigger] choices@[i]).name@),
                text::lowercase_of((#[trigger] choices@[j]).name@),
            ),
{
    let all = order::behind(choices@);
    let le = by_name();
    assert(order::is_ranking(le)) by {
        assert forall|a: AlbumChoice, b: AlbumChoice| #[trigger] le(a, b) || #[trigger] le(
            b,
            a,
        ) by {
            text::text_le_total(text::lowercase_of(a.name@), text::lowercase_of(b.name@));
        }
        assert forall|a: AlbumChoice, b: AlbumChoice, c: AlbumChoice| #[trigger]
            le(a, b) && #[trigger] le(b, c) implies le(a, c) by {
            text::text_le_transitive(
                text::lowercase_of(a.name@),
                text::lowercase_of(b.name@),
                text::lowercase_of(c.name@),
            );
        }
    }
    order::sort_keeps_elements(albums@, le);
    assert(all.len() == choices@.len());
    assert forall|i: int, j: int| 0 <= i < j < choices@.len() implies text::text_le(
        text::lowercase_of((#[trigger] choices@[i]).name@),
        text::lowercase_of((#[trigger] choices@[j]).name@),
    ) by {
        assert(*choices@[i] == all[i] && *choices@[j] == all[j]);
        assert(le(all[i], all[j]));
    }
    if exists|i: int| 0 <= i < choices@.len() && *#[trigger] choices@[i] == album {
        let i = choose|i: int| 0 <= i < choices@.len() && *#[trigger] choices@[i] == album;
        assert(all[i] == album);
        assert(all.contains(album));
    }
    if albums@.contains(album) {
        assert(all.contains(album));
        let i = all.index_of(album);
        assert(*choices@[i] == album);
    }
}

} // verus!
