//! The state of the server and of transfers, as the header shows it.
use vstd::prelude::*;
use vstd::string::*;
use crate::decimals;
use crate::decimals::percent;
use crate::path;
use crate::sources::Tab;
use crate::text;
use crate::text::{concat2, concat3, number, owned, same_text};

verus! {

/// How many assets the server holds.
#[derive(Clone, Copy, Debug, PartialEq, Eq, Structural)]
pub struct ServerStats {
    pub images: u64,
    pub videos: u64,
}

/// The line on the number of assets.
pub open spec fn stats_line(stats: Option<ServerStats>) -> Seq<char> {
    match stats {
        Some(s) => text::decimal(s.images as nat) + " photos, "@ + text::decimal(s.videos as nat)
            + " videos"@,
        None => "Statistics unavailable"@,
    }
}

/// The line on the version of the server.
pub open spec fn version_line(version: Option<Seq<char>>) -> Seq<char> {
    match version {
        Some(v) => "Immich "@ + v,
        None => "Version unavailable"@,
    }
}

/// The line on the way to the server.
pub open spec fn route_line(route: Option<Seq<char>>) -> Seq<char> {
    match route {
        Some(r) => if r == "LAN"@ {
            "Connected through LAN"@
        } else if r == "WAN"@ {
            "Connected through WAN"@
        } else {
            "Connected through configured server"@
        },
        None => "Offline"@,
    }
}

/// The tooltip of the status button.
pub fn footer_tooltip(
    route: &Option<String>,
    stats: Option<ServerStats>,
    version: &Option<String>,
) -> (r: String)
    ensures
        r@ == route_line(path::opt_view(*route)) + " — "@ + stats_line(stats) + " | "@
            + version_line(path::opt_view(*version)),
{
    let way: &str = match route {
        Some(name) => {
            if same_text(name.as_str(), "LAN") {
                "Connected through LAN"
            } else if same_text(name.as_str(), "WAN") {
                "Connected through WAN"
            } else {
                "Connected through configured server"
            }
        },
        None => "Offline",
    };
    let counts: String = match stats {
        Some(s) => {
            let mut line: String = concat2(number(s.images).as_str(), " photos, ");
            line.append(number(s.videos).as_str());
            line.append(" videos");
            line
        },
        None => owned("Statistics unavailable"),
    };
    let about: String = match version {
        Some(v) => concat2("Immich ", v.as_str()),
        None => owned("Version unavailable"),
    };
    let mut out: String = concat3(way, " — ", counts.as_str());
    out.append(" | ");
    out.append(about.as_str());
    out
}

/// Whether the server has to be asked for its state: where it can be reached and part of it is
/// missing.
pub fn status_is_missing(online: bool, has_stats: bool, has_about: bool) -> (r: bool)
    ensures
        r == (online && (!has_stats || !has_about)),
{
    online && (!has_stats || !has_about)
}

/// The number of upload batches that the library has been refreshed for.
#[derive(Clone, Copy, Debug, PartialEq, Eq, Structural)]
pub struct SeenBatches {
    pub last: u64,
}

impl SeenBatches {
    /// As many batches are complete: says whether the library has to be refreshed.
    pub fn poll(&mut self, completed: u64) -> (r: bool)
        ensures
            r == (completed != old(self).last),
            final(self).last == completed,
    {
        let changed: bool = completed != self.last;
        self.last = completed;
        changed
    }
}

/// The direction of a transfer.
#[derive(Clone, Copy, Debug, PartialEq, Eq, Structural)]
pub enum TransferDirection {
    Upload,
    Download,
}

/// An item that is being transferred.
#[derive(Debug, PartialEq, Eq)]
pub struct TransferItem {
    pub id: String,
    pub bytes: u64,
    /// Zero where it is not known.
    pub total: u64,
}

/// The state of the transfers.
#[derive(Debug, PartialEq, Eq)]
pub struct TransferSnapshot {
    pub active: bool,
    pub direction: TransferDirection,
    pub active_uploads: usize,
    pub active_downloads: usize,
    pub active_item_label: Option<String>,
    pub current_bytes: u64,
    pub total_bytes: Option<u64>,
    pub items: Vec<TransferItem>,
}

/// Whether a session was begun without anything to transfer, and has to be ended.
pub fn session_is_stale(transfer: &TransferSnapshot) -> (r: bool)
    ensures
        r == (transfer.active && transfer.active_uploads == 0 && transfer.active_downloads == 0),
{
    transfer.active && transfer.active_uploads == 0 && transfer.active_downloads == 0
}

/// What a progress bar shows.
#[derive(Clone, Copy, Debug, PartialEq, Eq, Structural)]
pub enum Progress {
    Empty,
    /// The end is not known.
    Pulse,
    Fraction { done: u64, total: u64 },
}

/// What the progress bar of a transfer shows.
pub open spec fn progress_of(done: u64, total: Option<u64>) -> Progress {
    match total {
        Some(t) => if t > 0 {
            Progress::Fraction { done, total: t }
        } else {
            Progress::Pulse
        },
        None => Progress::Pulse,
    }
}

/// What the progress bar of a transfer shows.
pub fn progress(done: u64, total: Option<u64>) -> (r: Progress)
    ensures
        r == progress_of(done, total),
{
    match total {
        Some(t) => {
            if t > 0 {
                Progress::Fraction { done, total: t }
            } else {
                Progress::Pulse
            }
        },
        None => Progress::Pulse,
    }
}

/// The texts of the transfer rates.
#[derive(Debug, PartialEq, Eq)]
pub struct RateTexts {
    pub instant: String,
    pub average: String,
    /// The averages of the last sessions; none where there was none.
    pub last_averages: Option<LastAverages>,
}

/// The averages of the last upload and download.
#[derive(Debug, PartialEq, Eq)]
pub struct LastAverages {
    pub upload: String,
    pub download: String,
}

/// What the header shows of the transfers.
#[derive(Debug, PartialEq, Eq)]
pub struct TransferUi {
    pub icon: Option<&'static str>,
    pub label: String,
    pub progress: Progress,
    pub backup_icon: &'static str,
    pub backup_active: bool,
    pub backup_tooltip: String,
}

/// The line on what is transferred and how fast.
pub open spec fn transfer_line(transfer: TransferSnapshot, rates: RateTexts) -> Seq<char> {
    if !transfer.active {
        match rates.last_averages {
            Some(last) => "Idle  Last upload avg "@ + last.upload@ + "  Last download avg "@
                + last.download@,
            None => "Idle  No recent transfer session"@,
        }
    } else {
        let detail = match transfer.active_item_label {
            Some(label) => label@,
            None => match transfer.direction {
                TransferDirection::Upload => "queued asset"@,
                TransferDirection::Download => "selected asset"@,
            },
        };
        detail + "  "@ + rates.instant@ + "  avg "@ + rates.average@
    }
}

/// The tooltip of the backup button during an upload.
pub open spec fn backing_up_line(transfer: TransferSnapshot) -> Seq<char> {
    let count = if transfer.active_uploads > 0 {
        "Backing up "@ + text::decimal(transfer.active_uploads as nat) + "…"@
    } else {
        "Backing up…"@
    };
    match progress_of(transfer.current_bytes, transfer.total_bytes) {
        Progress::Fraction { done, total } => count + "  "@ + text::decimal(
            decimals::percent_of(done as nat, total as nat) as nat,
        ) + "%"@,
        _ => count,
    }
}

/// What the header shows of the transfers. The backup button reflects uploads alone.
pub fn update_transfer_ui(transfer: &TransferSnapshot, rates: &RateTexts) -> (r: TransferUi)
    ensures
        ({
            let uploading = transfer.active && transfer.direction == TransferDirection::Upload;
            &&& r.label@ == transfer_line(*transfer, *rates)
            &&& r.progress == if transfer.active {
                progress_of(transfer.current_bytes, transfer.total_bytes)
            } else {
                Progress::Empty
            }
            &&& r.icon is Some <==> transfer.active
            &&& r.icon matches Some(icon) ==> icon@ == match transfer.direction {
                TransferDirection::Upload => "mimick-upload-symbolic"@,
                TransferDirection::Download => "mimick-download-symbolic"@,
            }
            &&& r.backup_active == uploading
            &&& r.backup_icon@ == if uploading {
                "mimick-upload-symbolic"@
            } else {
                "mimick-cloud-symbolic"@
            }
            &&& r.backup_tooltip@ == if uploading {
                backing_up_line(*transfer)
            } else {
                "Backup"@
            }
        }),
{
    if !transfer.active {
        let label: String = match &rates.last_averages {
            Some(last) => {
                let mut line: String = concat3(
                    "Idle  Last upload avg ",
                    last.upload.as_str(),
                    "  Last download avg ",
                );
                line.append(last.download.as_str());
                line
            },
            None => owned("Idle  No recent transfer session"),
        };
        return TransferUi {
            icon: None,
            label,
            progress: Progress::Empty,
            backup_icon: "mimick-cloud-symbolic",
            backup_active: false,
            backup_tooltip: owned("Backup"),
        };
    }
    let uploading: bool = transfer.direction == TransferDirection::Upload;
    let icon: &'static str = if uploading {
        "mimick-upload-symbolic"
    } else {
        "mimick-download-symbolic"
    };
    let mut label: String = match &transfer.active_item_label {
        Some(detail) => owned(detail.as_str()),
        None => {
            if uploading {
                owned("queued asset")
            } else {
                owned("selected asset")
            }
        },
    };
    label.append("  ");
    label.append(rates.instant.as_str());
    label.append("  avg ");
    label.append(rates.average.as_str());
    let shown: Progress = progress(transfer.current_bytes, transfer.total_bytes);
    if !uploading {
        return TransferUi {
            icon: Some(icon),
            label,
            progress: shown,
            backup_icon: "mimick-cloud-symbolic",
            backup_active: false,
            backup_tooltip: owned("Backup"),
        };
    }
    let mut tooltip: String = if transfer.active_uploads > 0 {
        concat3("Backing up ", number(transfer.active_uploads as u64).as_str(), "…")
    } else {
        owned("Backing up…")
    };
    match shown {
        Progress::Fraction { done, total } => {
            tooltip.append("  ");
            tooltip.append(number(percent(done, total) as u64).as_str());
            tooltip.append("%");
        },
        _ => {},
    }
    TransferUi {
        icon: Some(icon),
        label,
        progress: shown,
        backup_icon: icon,
        backup_active: true,
        backup_tooltip: tooltip,
    }
}

/// What a refresh of the library reads again, besides the albums and the server's state.
#[derive(Clone, Copy, Debug, PartialEq, Eq, Structural)]
pub struct RefreshPlan {
    pub explore_landing: bool,
    pub albums_view: bool,
    pub current_source: bool,
}

/// What a refresh of the library reads again: what the visible tab shows, and the current source
/// where it is wanted.
pub fn refresh_library_surfaces(tab: Tab, include_current_source: bool) -> (r: RefreshPlan)
    ensures
        r == (RefreshPlan {
            explore_landing: tab == Tab::Library,
            albums_view: tab == Tab::Albums,
            current_source: include_current_source,
        }),
{
    RefreshPlan {
        explore_landing: tab == Tab::Library,
        albums_view: tab == Tab::Albums,
        current_source: include_current_source,
    }
}

/// The error page of the albums tab; none where it goes on to show what it has. A refresh in the
/// background replaces only the loading page.
pub fn albums_error(err: &str, populated: bool, background: bool, shows_loading: bool) -> (r: Option<
    String,
>)
    ensures
        r is Some <==> !populated && (!background || shows_loading),
        r matches Some(message) ==> message@ == "Could not load albums: "@ + err@,
{
    if populated || (background && !shows_loading) {
        return None;
    }
    Some(concat2("Could not load albums: ", err))
}

/// The backup button shows an upload exactly while one is under way, never a download; while nothing
/// is transferred there is no icon and no progress; a bar runs to its end only where that is known.
pub proof fn header_shows_what_is_under_way(
    transfer: &TransferSnapshot,
    rates: &RateTexts,
    shown: TransferUi,
)
    requires
        call_ensures(update_transfer_ui, (transfer, rates), shown),
    ensures
        shown.backup_active <==> transfer.active && transfer.direction == TransferDirection::Upload,
        shown.icon is None <==> !transfer.active,
        shown.progress == Progress::Empty <==> !transfer.active,
        shown.progress matches Progress::Fraction { done, total } ==> transfer.active && done
            == transfer.current_bytes && transfer.total_bytes == Some(total) && total > 0,
        transfer.active && transfer.total_bytes is Some && transfer.total_bytes->0 > 0
            ==> shown.progress is Fraction,
        transfer.active && transfer.active_item_label is Some ==> transfer.active_item_label->0@
            == shown.label@.take(transfer.active_item_label->0@.len() as int),
{
    if transfer.active && transfer.active_item_label is Some {
        let label = transfer.active_item_label->0@;
        assert(shown.label@.take(label.len() as int) =~= label);
    }
}

} // verus!
