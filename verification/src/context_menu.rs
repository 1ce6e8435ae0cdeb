//! The context menu of an asset, and where its original comes from.
use vstd::prelude::*;
use vstd::string::*;
use crate::grid::is_asset_type;
use crate::local_source::{is_local_id, LOCAL_ID_PREFIX};
use crate::path;
use crate::path::join_path;
use crate::text;
use crate::text::owned;

verus! {

/// The entries of the context menu.
#[derive(Clone, Copy, Debug, PartialEq, Eq, Structural)]
pub struct MenuEntries {
    pub copy: bool,
    pub download: bool,
    pub open: bool,
}

/// The entries of the context menu: images can be copied, assets of the server downloaded, and
/// what can be downloaded or is on disk opened.
pub fn menu_entries(asset_id: &str, remote_id: &str, local_path: &str, asset_type: &str) -> (r:
    MenuEntries)
    ensures
        r.copy == (text::lowered(asset_type@) == text::lowered("IMAGE"@)),
        r.download == (remote_id@.len() > 0 && !LOCAL_ID_PREFIX@.is_prefix_of(asset_id@)),
        r.open == (r.download || local_path@.len() > 0),
{
    let download: bool = !remote_id.is_empty() && !is_local_id(asset_id);
    MenuEntries {
        copy: is_asset_type(asset_type, "IMAGE"),
        download,
        open: download || !local_path.is_empty(),
    }
}

/// Where the original of an asset comes from.
#[derive(Debug, PartialEq, Eq)]
pub enum OriginalPlan {
    /// It is at the path.
    Ready { path: String },
    /// It is downloaded to the path.
    Download { remote_id: String, path: String },
    /// There is no place for it.
    NoCache { message: &'static str },
}

/// The path at which the original of an asset is kept for other programs.
pub open spec fn open_in_path(
    cache_dir: Seq<char>,
    safe_name: Option<Seq<char>>,
    asset_id: Seq<char>,
) -> Seq<char> {
    path::joined_path(
        path::joined_path(cache_dir, "open-in"@),
        match safe_name {
            Some(name) => name,
            None => asset_id,
        },
    )
}

/// The path at which the original of an asset is kept for other programs.
pub fn open_in_target(cache_dir: &str, safe_name: &Option<String>, asset_id: &str) -> (r: String)
    ensures
        r@ == open_in_path(cache_dir@, path::opt_view(*safe_name), asset_id@),
{
    let name: String = match safe_name {
        Some(n) => owned(n.as_str()),
        None => owned(asset_id),
    };
    join_path(join_path(cache_dir, "open-in").as_str(), name.as_str())
}

/// Where the original of an asset comes from: its file on disk, else the copy kept for other
/// programs, which is downloaded where `is_kept` says that it is missing.
pub fn ensure_original_asset_path(
    asset_id: &str,
    remote_id: &str,
    local_path: &str,
    cache_dir: &Option<String>,
    safe_name: &Option<String>,
    is_kept: bool,
) -> (r: OriginalPlan)
    ensures
        if local_path@.len() > 0 {
            r matches OriginalPlan::Ready { path } && path@ == local_path@
        } else {
            match *cache_dir {
                None => r matches OriginalPlan::NoCache { message } && message@
                    == "Could not locate a cache directory."@,
                Some(dir) => {
                    let kept = open_in_path(dir@, path::opt_view(*safe_name), asset_id@);
                    if is_kept {
                        r matches OriginalPlan::Ready { path } && path@ == kept
                    } else {
                        r matches OriginalPlan::Download { remote_id: id, path } && path@ == kept
                            && id@ == if remote_id@.len() > 0 {
                            remote_id@
                        } else {
                            asset_id@
                        }
                    }
                },
            }
        },
{
    if !local_path.is_empty() {
        return OriginalPlan::Ready { path: owned(local_path) };
    }
    match cache_dir {
        None => OriginalPlan::NoCache { message: "Could not locate a cache directory." },
        Some(dir) => {
            let kept: String = open_in_target(dir.as_str(), safe_name, asset_id);
            if is_kept {
                OriginalPlan::Ready { path: kept }
            } else {
                OriginalPlan::Download {
                    remote_id: if !remote_id.is_empty() {
                        owned(remote_id)
                    } else {
                        owned(asset_id)
                    },
                    path: kept,
                }
            }
        },
    }
}

/// What the menu offers can be done: an asset that can be opened has its file, or can be downloaded
/// where there is a cache; a file on disk is opened in its place and never downloaded.
pub proof fn offered_asset_can_be_had(
    asset_id: &str,
    remote_id: &str,
    local_path: &str,
    asset_type: &str,
    cache_dir: &Option<String>,
    safe_name: &Option<String>,
    is_kept: bool,
    menu: MenuEntries,
    plan: OriginalPlan,
)
    requires
        call_ensures(menu_entries, (asset_id, remote_id, local_path, asset_type), menu),
        call_ensures(
            ensure_original_asset_path,
            (asset_id, remote_id, local_path, cache_dir, safe_name, is_kept),
            plan,
        ),
    ensures
        menu.download ==> menu.open && remote_id@.len() > 0 && !LOCAL_ID_PREFIX@.is_prefix_of(
            asset_id@,
        ),
        menu.open && !menu.download ==> local_path@.len() > 0,
        local_path@.len() > 0 ==> (plan matches OriginalPlan::Ready { path } && path@
            == local_path@),
        plan is NoCache <==> local_path@.len() == 0 && *cache_dir is None,
        plan is Download ==> !is_kept && local_path@.len() == 0,
        menu.download && plan is Download ==> plan->remote_id@ == remote_id@,
{
}

} // verus!
