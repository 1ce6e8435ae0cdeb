//! The backup of watched folders: what is backed up, what remains, and when a backup runs.
use vstd::hash_set::StringHashSet;
use vstd::prelude::*;
use vstd::string::*;
use crate::decimals;
use crate::decimals::{human_bytes, percent};
use crate::order;
use crate::order::refs_sorted_by_keys;
use crate::path;
use crate::path::{component_list, file_name};
use crate::path_order;
use crate::path_order::PathKey;
use crate::seqs;
use crate::status;
use crate::status::{progress, Progress, TransferDirection, TransferItem, TransferSnapshot};
use crate::text;
use crate::text::{concat2, concat3, join, number, owned, same_text};
use crate::watch::WatchEntry;

verus! {

/// The seconds between two backups.
pub const BACKUP_TICK_SECS: u32 = 120;

/// The name of a folder: the last component of its path, else the path.
pub open spec fn base_name(path: Seq<char>) -> Seq<char> {
    match path::name_of(path) {
        Some(name) => name,
        None => path,
    }
}

/// The name of a folder or a file: the last component of its path, else the path.
pub fn basename(path: &str) -> (r: String)
    ensures
        r@ == base_name(path@),
{
    match file_name(path) {
        Some(name) => name,
        None => owned(path),
    }
}

/// The names of the watched folders.
pub open spec fn folder_names(entries: Seq<WatchEntry>) -> Seq<Seq<char>> {
    entries.map_values(|e: WatchEntry| base_name(e.path@))
}

/// The line on the watched folders.
pub fn selected_folders_subtitle(entries: &Vec<WatchEntry>) -> (r: String)
    ensures
        r@ == if entries@.len() == 0 {
            "No folders selected"@
        } else {
            "Selected: "@ + text::joined(folder_names(entries@), ", "@)
        },
{
    if entries.len() == 0 {
        return owned("No folders selected");
    }
    let mut names: Vec<String> = Vec::new();
    let mut i: usize = 0;
    while i < entries.len()
        invariant
            i <= entries.len(),
            names.len() == i,
            forall|k: int| 0 <= k < i ==> (#[trigger] names@[k])@ == base_name(entries@[k].path@),
        decreases entries.len() - i,
    {
        names.push(basename(entries[i].path.as_str()));
        i = i + 1;
    }
    assert(text::views(names@) =~= folder_names(entries@));
    concat2("Selected: ", join(&names, ", ").as_str())
}

/// A local file with the checksum of its content.
#[derive(Debug, PartialEq, Eq)]
pub struct HashedFile {
    pub path: String,
    pub checksum: String,
}

/// The file is not on the server.
pub open spec fn is_pending(file: HashedFile, server: Set<Seq<char>>) -> bool {
    !server.contains(file.checksum@)
}

/// The paths of the files that are not on the server, in order.
pub open spec fn pending_paths(files: Seq<HashedFile>, server: Set<Seq<char>>) -> Seq<Seq<char>> {
    files.filter(|f: HashedFile| is_pending(f, server)).map_values(|f: HashedFile| f.path@)
}

fn checksum_set(checksums: &Vec<String>) -> (r: StringHashSet)
    ensures
        r@ == text::views(checksums@).to_set(),
{
    let mut set: StringHashSet = StringHashSet::new();
    let ghost all = text::views(checksums@);
    let mut i: usize = 0;
    assert(all.take(0).to_set() =~= Set::<Seq<char>>::empty());
    while i < checksums.len()
        invariant
            i <= checksums.len(),
            all == text::views(checksums@),
            set@ == all.take(i as int).to_set(),
        decreases checksums.len() - i,
    {
        proof {
            assert(all.take(i + 1) =~= all.take(i as int).push(all[i as int]));
            all.take(i as int).lemma_push_to_set_commute(all[i as int]);
        }
        let fresh: bool = set.insert(checksums[i].clone());
        i = i + 1;
    }
    assert(all.take(i as int) =~= all);
    set
}

/// The files to upload: those whose checksum is not on the server, in order. `server` are the
/// checksums that it holds.
pub fn files_to_upload(files: &Vec<HashedFile>, server: &Vec<String>) -> (r: Vec<String>)
    ensures
        text::views(r@) == pending_paths(files@, text::views(server@).to_set()),
{
    let set: StringHashSet = checksum_set(server);
    let ghost known = text::views(server@).to_set();
    let ghost pass = |f: HashedFile| is_pending(f, known);
    let ghost path_of = |f: HashedFile| f.path@;
    let mut out: Vec<String> = Vec::new();
    let mut i: usize = 0;
    proof {
        seqs::filter_ends(files@, pass);
        assert(text::views(out@) =~= files@.take(0).filter(pass).map_values(path_of));
    }
    while i < files.len()
        invariant
            i <= files.len(),
            set@ == known,
            pass == |f: HashedFile| is_pending(f, known),
            path_of == |f: HashedFile| f.path@,
            text::views(out@) == files@.take(i as int).filter(pass).map_values(path_of),
        decreases files.len() - i,
    {
        let ghost before = out@;
        proof {
            seqs::filter_step(files@, pass, i as int);
        }
        if !set.contains(files[i].checksum.as_str()) {
            out.push(files[i].path.clone());
            proof {
                let kept = files@.take(i as int).filter(pass);
                assert(text::views(out@) =~= text::views(before).push(files@[i as int].path@));
                assert(kept.push(files@[i as int]).map_values(path_of) =~= kept.map_values(
                    path_of,
                ).push(files@[i as int].path@));
            }
        }
        i = i + 1;
    }
    out
}

/// The checksums of the files, each once, in the order in which they first occur.
pub open spec fn distinct_checksums(files: Seq<HashedFile>) -> Seq<Seq<char>>
    decreases files.len(),
{
    if files.len() == 0 {
        Seq::empty()
    } else {
        let front = distinct_checksums(files.drop_last());
        if front.contains(files.last().checksum@) {
            front
        } else {
            front.push(files.last().checksum@)
        }
    }
}

/// The checksums to ask the server about: those of the files, each once.
pub fn unique_checksums(files: &Vec<HashedFile>) -> (r: Vec<String>)
    ensures
        text::views(r@) == distinct_checksums(files@),
{
    let mut out: Vec<String> = Vec::new();
    let mut set: StringHashSet = StringHashSet::new();
    let mut i: usize = 0;
    proof {
        assert(files@.take(0) =~= Seq::<HashedFile>::empty());
        assert(text::views(out@) =~= Seq::<Seq<char>>::empty());
        assert(text::views(out@).to_set() =~= Set::<Seq<char>>::empty());
    }
    while i < files.len()
        invariant
            i <= files.len(),
            text::views(out@) == distinct_checksums(files@.take(i as int)),
            set@ == text::views(out@).to_set(),
        decreases files.len() - i,
    {
        let ghost before = text::views(out@);
        let ghost sum = files@[i as int].checksum@;
        assert(files@.take(i + 1).drop_last() =~= files@.take(i as int));
        if set.insert(files[i].checksum.clone()) {
            out.push(files[i].checksum.clone());
            proof {
                assert(text::views(out@) =~= before.push(sum));
                before.lemma_push_to_set_commute(sum);
            }
        } else {
            assert(before.contains(sum));
            assert(before.to_set().insert(sum) =~= before.to_set());
        }
        i = i + 1;
    }
    assert(files@.take(i as int) =~= files@);
    out
}

/// The counters of the backup page.
#[derive(Clone, Copy, Debug, PartialEq, Eq, Structural)]
pub struct BackupCounters {
    pub total: usize,
    pub backed_up: usize,
    pub remaining: usize,
}

/// The files that still have to be backed up, `total` having been found: those that are not on the
/// server, and those without a checksum.
pub open spec fn remaining_count(total: int, files: Seq<HashedFile>, server: Set<Seq<char>>) -> int {
    pending_paths(files, server).len() + if files.len() < total {
        total - files.len()
    } else {
        0
    }
}

/// The counters of the backup page: `total` files were found, and `files` of them have a checksum.
/// A file without one counts as remaining.
pub fn backup_counters(total: usize, files: &Vec<HashedFile>, server: &Vec<String>) -> (r:
    BackupCounters)
    ensures
        ({
            let remaining = remaining_count(
                total as int,
                files@,
                text::views(server@).to_set(),
            );
            &&& r.total == total
            &&& r.remaining == remaining
            &&& r.backed_up == if remaining < total {
                total - remaining
            } else {
                0
            }
        }),
{
    let pending: Vec<String> = files_to_upload(files, server);
    proof {
        pending_is_no_longer(files@, text::views(server@).to_set());
        assert(text::views(pending@).len() == pending@.len());
    }
    let unhashed: usize = if files.len() < total {
        total - files.len()
    } else {
        0
    };
    let remaining: usize = pending.len() + unhashed;
    BackupCounters {
        total,
        backed_up: if remaining < total {
            total - remaining
        } else {
            0
        },
        remaining,
    }
}

/// Every file that was found is either backed up or remains.
pub proof fn counters_add_up(total: int, files: Seq<HashedFile>, server: Set<Seq<char>>)
    requires
        files.len() <= total,
    ensures
        0 <= remaining_count(total, files, server) <= total,
{
    pending_is_no_longer(files, server);
}

proof fn pending_is_no_longer(files: Seq<HashedFile>, server: Set<Seq<char>>)
    ensures
        pending_paths(files, server).len() <= files.len(),
{
    files.lemma_filter_len(|f: HashedFile| is_pending(f, server));
}

/// Once every checksum is on the server nothing is uploaded.
pub proof fn nothing_is_uploaded_twice(files: Seq<HashedFile>, server: Set<Seq<char>>)
    requires
        forall|i: int| 0 <= i < files.len() ==> server.contains((#[trigger] files[i]).checksum@),
    ensures
        pending_paths(files, server).len() == 0,
{
    seqs::filter_none(files, |f: HashedFile| is_pending(f, server));
}

/// The state of the backup.
#[derive(Clone, Copy, Debug, PartialEq, Eq, Structural)]
pub struct BackupState {
    pub enabled: bool,
    /// A backup is under way; no other begins meanwhile.
    pub in_progress: bool,
}

/// What follows from turning automatic backup on or off.
#[derive(Clone, Copy, Debug, PartialEq, Eq, Structural)]
pub struct BackupSwitch {
    /// The setting changed, and so has to be saved.
    pub saves: bool,
    /// A backup begins at once.
    pub begins: bool,
}

impl BackupState {
    /// Turns automatic backup on or off. Turning it on claims a first backup, unless one is under
    /// way.
    pub fn set_backup_enabled(&mut self, enabled: bool) -> (r: BackupSwitch)
        ensures
            r.saves == (old(self).enabled != enabled),
            r.begins == (!old(self).enabled && enabled && !old(self).in_progress),
            *final(self) == (BackupState {
                enabled,
                in_progress: old(self).in_progress || r.begins,
            }),
    {
        if self.enabled == enabled {
            return BackupSwitch { saves: false, begins: false };
        }
        self.enabled = enabled;
        BackupSwitch { saves: true, begins: self.trigger_backup_tick() }
    }

    /// Claims the backup; says whether it was free.
    fn claim(&mut self) -> (r: bool)
        ensures
            r == !old(self).in_progress,
            *final(self) == (BackupState { in_progress: true, ..*old(self) }),
    {
        let free: bool = !self.in_progress;
        self.in_progress = true;
        free
    }

    /// The time for an automatic backup has come: says whether one begins.
    pub fn trigger_backup_tick(&mut self) -> (r: bool)
        ensures
            r == (old(self).enabled && !old(self).in_progress),
            *final(self) == (BackupState {
                in_progress: old(self).in_progress || old(self).enabled,
                ..*old(self)
            }),
    {
        if !self.enabled {
            return false;
        }
        self.claim()
    }

    /// The button was pressed: says whether a backup begins.
    pub fn start_backup_now(&mut self) -> (r: bool)
        ensures
            r == !old(self).in_progress,
            *final(self) == (BackupState { in_progress: true, ..*old(self) }),
    {
        self.claim()
    }

    /// The files to upload are known: says whether the backup goes on. Without any it ends.
    pub fn files_counted(&mut self, count: usize) -> (r: bool)
        ensures
            r == (count > 0),
            *final(self) == (BackupState {
                in_progress: old(self).in_progress && count > 0,
                ..*old(self)
            }),
    {
        if count == 0 {
            self.in_progress = false;
            return false;
        }
        true
    }

    /// All files have been queued: the backup ends.
    pub fn finish(&mut self)
        ensures
            *final(self) == (BackupState { in_progress: false, ..*old(self) }),
    {
        self.in_progress = false;
    }
}

/// What the button for a backup says.
#[derive(Clone, Copy, Debug, PartialEq, Eq, Structural)]
pub enum BackupPhase {
    Idle,
    Preparing,
    /// As many files are queued.
    Running { count: usize },
    NothingToDo,
}

/// What the button for a backup says.
pub fn backup_button_label(phase: BackupPhase) -> (r: String)
    ensures
        r@ == match phase {
            BackupPhase::Idle => "Back up now"@,
            BackupPhase::Preparing => "Preparing…"@,
            BackupPhase::Running { count } => "Backing up "@ + text::decimal(count as nat) + "…"@,
            BackupPhase::NothingToDo => "All backed up"@,
        },
{
    match phase {
        BackupPhase::Idle => owned("Back up now"),
        BackupPhase::Preparing => owned("Preparing…"),
        BackupPhase::Running { count } => concat3("Backing up ", number(count as u64).as_str(), "…"),
        BackupPhase::NothingToDo => owned("All backed up"),
    }
}

/// The line on the bytes of an item.
pub open spec fn byte_line(bytes: u64, total: u64, pct: u32) -> Seq<char> {
    if total > 0 {
        decimals::compact_size(bytes as nat) + " / "@ + decimals::compact_size(total as nat) + " · "@
            + text::decimal(pct as nat) + "%"@
    } else {
        decimals::compact_size(bytes as nat)
    }
}

/// The line on the bytes of an item: the total and the per cent too, where the total is known.
pub fn byte_progress_text(bytes: u64, total: u64, pct: u32) -> (r: String)
    ensures
        r@ == byte_line(bytes, total, pct),
{
    let mut line: String = human_bytes(bytes);
    if total > 0 {
        line.append(" / ");
        line.append(human_bytes(total).as_str());
        line.append(" · ");
        line.append(number(pct as u64).as_str());
        line.append("%");
    }
    line
}

/// The row of an item that is being uploaded.
#[derive(Debug, PartialEq, Eq)]
pub struct UploadRow {
    pub id: String,
    pub name: String,
    pub text: String,
    pub progress: Progress,
}

/// What is shown of an upload.
#[derive(Debug, PartialEq, Eq)]
pub struct UploadStatus {
    pub title: String,
    pub subtitle: String,
    pub progress: Progress,
    pub rows: Vec<UploadRow>,
}

/// The whole per cent of an item; zero where its total is not known.
pub open spec fn item_percent(item: TransferItem) -> u32 {
    if item.total > 0 {
        decimals::percent_of(item.bytes as nat, item.total as nat) as u32
    } else {
        0
    }
}

/// The row shows an item.
pub open spec fn shows_item(row: UploadRow, item: TransferItem) -> bool {
    &&& row.id@ == item.id@
    &&& row.name@ == base_name(item.id@)
    &&& row.text@ == byte_line(item.bytes, item.total, item_percent(item))
    &&& row.progress == status::progress_of(item.bytes, Some(item.total))
}

/// Items by their ids.
pub open spec fn by_id() -> spec_fn(TransferItem, TransferItem) -> bool {
    |a: TransferItem, b: TransferItem| text::text_le(a.id@, b.id@)
}

/// Ids order items.
pub proof fn by_id_is_a_ranking()
    ensures
        order::is_ranking(by_id()),
{
    let le = by_id();
    assert forall|a: TransferItem, b: TransferItem| #[trigger] le(a, b) || #[trigger] le(b, a) by {
        text::text_le_total(a.id@, b.id@);
    }
    assert forall|a: TransferItem, b: TransferItem, c: TransferItem| #[trigger]
        le(a, b) && #[trigger] le(b, c) implies le(a, c) by {
        text::text_le_transitive(a.id@, b.id@, c.id@);
    }
}

fn upload_row(item: &TransferItem) -> (r: UploadRow)
    ensures
        shows_item(r, *item),
{
    let pct: u32 = if item.total > 0 {
        percent(item.bytes, item.total)
    } else {
        0
    };
    UploadRow {
        id: item.id.clone(),
        name: basename(item.id.as_str()),
        text: byte_progress_text(item.bytes, item.total, pct),
        progress: progress(item.bytes, Some(item.total)),
    }
}

/// What is shown of an upload; nothing where none is under way. The items come by their ids.
pub fn refresh_backup_status(transfer: &TransferSnapshot) -> (r: Option<UploadStatus>)
    ensures
        r is Some <==> transfer.active && transfer.direction == TransferDirection::Upload,
        r matches Some(shown) ==> {
            let items = order::stable_sort(transfer.items@, by_id());
            &&& shown.title@ == "Uploading "@ + text::decimal(transfer.active_uploads as nat) + (
            if transfer.active_uploads == 1 {
                " item"@
            } else {
                " items"@
            })
            &&& shown.subtitle@ == match transfer.active_item_label {
                Some(label) => label@,
                None => "queued asset"@,
            }
            &&& shown.progress == status::progress_of(transfer.current_bytes, transfer.total_bytes)
            &&& shown.rows@.len() == items.len()
            &&& forall|i: int| 0 <= i < items.len() ==> shows_item(#[trigger] shown.rows@[i], items[i])
        },
{
    if !transfer.active || transfer.direction != TransferDirection::Upload {
        return None;
    }
    let n: usize = transfer.active_uploads;
    let title: String = concat3(
        "Uploading ",
        number(n as u64).as_str(),
        if n == 1 {
            " item"
        } else {
            " items"
        },
    );
    let subtitle: String = match &transfer.active_item_label {
        Some(label) => owned(label.as_str()),
        None => owned("queued asset"),
    };
    let mut refs: Vec<&TransferItem> = Vec::new();
    let mut keys: Vec<String> = Vec::new();
    let mut i: usize = 0;
    while i < transfer.items.len()
        invariant
            i <= transfer.items.len(),
            refs.len() == i,
            keys.len() == i,
            forall|k: int| 0 <= k < i ==> *(#[trigger] refs@[k]) == transfer.items@[k],
            forall|k: int| 0 <= k < i ==> (#[trigger] keys@[k])@ == transfer.items@[k].id@,
        decreases transfer.items.len() - i,
    {
        refs.push(&transfer.items[i]);
        keys.push(transfer.items[i].id.clone());
        i = i + 1;
    }
    assert(order::behind(refs@) =~= transfer.items@);
    let sorted: Vec<&TransferItem> = refs_sorted_by_keys(&refs, &keys, Ghost(by_id()));
    let ghost items = order::behind(sorted@);
    let mut rows: Vec<UploadRow> = Vec::new();
    let mut j: usize = 0;
    while j < sorted.len()
        invariant
            j <= sorted.len(),
            rows.len() == j,
            items == order::behind(sorted@),
            forall|k: int| 0 <= k < j ==> shows_item(#[trigger] rows@[k], items[k]),
        decreases sorted.len() - j,
    {
        assert(items[j as int] == *sorted@[j as int]);
        rows.push(upload_row(sorted[j]));
        j = j + 1;
    }
    Some(
        UploadStatus {
            title,
            subtitle,
            progress: progress(transfer.current_bytes, transfer.total_bytes),
            rows,
        },
    )
}

/// A path with the same components is in the list.
pub open spec fn holds_path(paths: Seq<Seq<char>>, wanted: Seq<char>) -> bool {
    exists|i: int| 0 <= i < paths.len() && path::components(#[trigger] paths[i]) == path::components(wanted)
}

/// The paths without those that occur before with the same components.
pub open spec fn distinct_paths(paths: Seq<Seq<char>>) -> Seq<Seq<char>>
    decreases paths.len(),
{
    if paths.len() == 0 {
        Seq::empty()
    } else {
        let front = distinct_paths(paths.drop_last());
        if holds_path(front, paths.last()) {
            front
        } else {
            front.push(paths.last())
        }
    }
}

/// The paths of the watched folders.
pub open spec fn watched_paths(entries: Seq<WatchEntry>) -> Seq<Seq<char>> {
    entries.map_values(|e: WatchEntry| e.path@)
}

/// The order of paths as texts.
pub open spec fn path_order_of() -> spec_fn(String, String) -> bool {
    |a: String, b: String| path_order::path_le(a@, b@)
}

fn same_components(a: &Vec<String>, b: &Vec<String>) -> (r: bool)
    ensures
        r == (text::views(a@) == text::views(b@)),
{
    if a.len() != b.len() {
        assert(text::views(a@).len() != text::views(b@).len());
        return false;
    }
    let mut i: usize = 0;
    while i < a.len()
        invariant
            i <= a.len(),
            a.len() == b.len(),
            forall|k: int| 0 <= k < i ==> (#[trigger] a@[k])@ == b@[k]@,
        decreases a.len() - i,
    {
        if !same_text(a[i].as_str(), b[i].as_str()) {
            assert(text::views(a@)[i as int] != text::views(b@)[i as int]);
            return false;
        }
        i = i + 1;
    }
    assert(text::views(a@) =~= text::views(b@));
    true
}

fn lists_path(paths: &Vec<String>, wanted: &str) -> (r: bool)
    ensures
        r == holds_path(text::views(paths@), wanted@),
{
    let parts: Vec<String> = component_list(wanted);
    let ghost all = text::views(paths@);
    let mut i: usize = 0;
    while i < paths.len()
        invariant
            i <= paths.len(),
            all == text::views(paths@),
            text::views(parts@) == path::components(wanted@),
            forall|k: int|
                0 <= k < i ==> path::components(#[trigger] all[k]) != path::components(wanted@),
        decreases paths.len() - i,
    {
        assert(all[i as int] == paths@[i as int]@);
        let other: Vec<String> = component_list(paths[i].as_str());
        if same_components(&other, &parts) {
            return true;
        }
        i = i + 1;
    }
    false
}

fn push_distinct(paths: &mut Vec<String>, path: &str)
    ensures
        text::views(final(paths)@) == if holds_path(text::views(old(paths)@), path@) {
            text::views(old(paths)@)
        } else {
            text::views(old(paths)@).push(path@)
        },
{
    if !lists_path(paths, path) {
        let ghost before = text::views(paths@);
        paths.push(owned(path));
        assert(text::views(paths@) =~= before.push(path@));
    }
}

/// The folders to choose from: the folders of pictures and the watched ones, each once, in the
/// order of their paths.
pub fn candidate_folders(subfolders: &Vec<String>, entries: &Vec<WatchEntry>) -> (r: Vec<String>)
    ensures
        exists|found: Seq<String>|
            text::views(found) == distinct_paths(
                text::views(subfolders@) + watched_paths(entries@),
            ) && r@ == #[trigger] order::stable_sort(found, path_order_of()),
{
    let ghost all = text::views(subfolders@) + watched_paths(entries@);
    let mut out: Vec<String> = Vec::new();
    let mut i: usize = 0;
    proof {
        assert(all.take(0) =~= Seq::<Seq<char>>::empty());
        assert(text::views(out@) =~= distinct_paths(all.take(0)));
    }
    while i < subfolders.len()
        invariant
            i <= subfolders.len(),
            all == text::views(subfolders@) + watched_paths(entries@),
            text::views(out@) == distinct_paths(all.take(i as int)),
        decreases subfolders.len() - i,
    {
        assert(all.take(i + 1).drop_last() =~= all.take(i as int));
        assert(all[i as int] == subfolders@[i as int]@);
        push_distinct(&mut out, subfolders[i].as_str());
        i = i + 1;
    }
    let mut j: usize = 0;
    while j < entries.len()
        invariant
            i == subfolders.len(),
            j <= entries.len(),
            all == text::views(subfolders@) + watched_paths(entries@),
            text::views(out@) == distinct_paths(all.take(i + j)),
        decreases entries.len() - j,
    {
        assert(all.take(i + j + 1).drop_last() =~= all.take(i + j));
        assert(all[i + j] == entries@[j as int].path@);
        push_distinct(&mut out, entries[j].path.as_str());
        j = j + 1;
    }
    assert(all.take(i + j) =~= all);
    let mut refs: Vec<&String> = Vec::new();
    let mut keys: Vec<PathKey> = Vec::new();
    let mut k: usize = 0;
    while k < out.len()
        invariant
            k <= out.len(),
            refs.len() == k,
            keys.len() == k,
            forall|x: int| 0 <= x < k ==> *(#[trigger] refs@[x]) == out@[x],
            forall|x: int|
                0 <= x < k ==> text::views((#[trigger] keys@[x]).parts@) == path::components(
                    out@[x]@,
                ),
        decreases out.len() - k,
    {
        refs.push(&out[k]);
        keys.push(PathKey::of(out[k].as_str()));
        k = k + 1;
    }
    assert(order::behind(refs@) =~= out@);
    let sorted: Vec<&String> = refs_sorted_by_keys(&refs, &keys, Ghost(path_order_of()));
    let ghost listed = order::behind(sorted@);
    let mut result: Vec<String> = Vec::new();
    let mut m: usize = 0;
    while m < sorted.len()
        invariant
            m <= sorted.len(),
            listed == order::behind(sorted@),
            result@ == listed.take(m as int),
        decreases sorted.len() - m,
    {
        assert(listed[m as int] == *sorted@[m as int]);
        assert(listed.take(m + 1) =~= listed.take(m as int).push(listed[m as int]));
        result.push(sorted[m].clone());
        m = m + 1;
    }
    assert(listed.take(m as int) =~= listed);
    assert(result@ == order::stable_sort(out@, path_order_of()));
    result
}

/// The line on how many files a folder holds.
pub fn folder_count_line(count: usize) -> (r: String)
    ensures
        r@ == text::decimal(count as nat) + " items"@,
{
    concat2(number(count as u64).as_str(), " items")
}

/// The server holds the content of the file.
pub open spec fn is_on_server(file: HashedFile, server: Seq<String>) -> bool {
    exists|k: int| 0 <= k < server.len() && (#[trigger] server[k])@ == file.checksum@
}

proof fn pending_where_not_on_server(file: HashedFile, server: Seq<String>)
    ensures
        is_pending(file, text::views(server).to_set()) <==> !is_on_server(file, server),
{
    let all = text::views(server);
    assert(all.to_set().contains(file.checksum@) <==> all.contains(file.checksum@));
    if all.contains(file.checksum@) {
        let k = all.index_of(file.checksum@);
        assert(server[k]@ == file.checksum@);
    }
    if is_on_server(file, server) {
        let k = choose|k: int| 0 <= k < server.len() && (#[trigger] server[k])@ == file.checksum@;
        assert(all[k] == file.checksum@);
    }
}

/// A backup uploads the files whose content the server does not hold, and no others, in the order in
/// which they were found.
pub proof fn backup_uploads_what_the_server_lacks(
    files: &Vec<HashedFile>,
    server: &Vec<String>,
    uploads: Vec<String>,
)
    requires
        call_ensures(files_to_upload, (files, server), uploads),
    ensures
        forall|u: int|
            0 <= u < uploads@.len() ==> is_path_of_missing(
                #[trigger] uploads@[u],
                files@,
                server@,
            ),
        forall|f: int|
            0 <= f < files@.len() && !is_on_server(#[trigger] files@[f], server@) ==> text::views(
                uploads@,
            ).contains(files@[f].path@),
        forall|u: int, v: int|
            0 <= u < v < uploads@.len() ==> stand_in_order(
                #[trigger] uploads@[u],
                #[trigger] uploads@[v],
                files@,
            ),
{
    let on_server = text::views(server@).to_set();
    let keep = |f: HashedFile| is_pending(f, on_server);
    let pending = files@.filter(keep);
    let paths = text::views(uploads@);
    assert(paths == pending.map_values(|f: HashedFile| f.path@));
    assert(paths.len() == uploads@.len());
    seqs::filter_contents(files@, keep);
    assert forall|u: int| 0 <= u < uploads@.len() implies is_path_of_missing(
        #[trigger] uploads@[u],
        files@,
        server@,
    ) by {
        assert(paths[u] == uploads@[u]@);
        let x = pending[u];
        assert(pending.contains(x));
        assert(files@.contains(x));
        let f = files@.index_of(x);
        assert(files@[f] == x);
        pending_where_not_on_server(x, server@);
    }
    assert forall|f: int|
        0 <= f < files@.len() && !is_on_server(#[trigger] files@[f], server@) implies paths.contains(
        files@[f].path@,
    ) by {
        let x = files@[f];
        pending_where_not_on_server(x, server@);
        assert(files@.contains(x));
        assert(pending.contains(x));
        let u = pending.index_of(x);
        assert(paths[u] == x.path@);
    }
    assert forall|u: int, v: int| 0 <= u < v < uploads@.len() implies stand_in_order(
        #[trigger] uploads@[u],
        #[trigger] uploads@[v],
        files@,
    ) by {
        let p = seqs::filter_places(files@, keep, u, v);
        assert(paths[u] == uploads@[u]@ && paths[v] == uploads@[v]@);
        assert(files@[p.0].path@ == uploads@[u]@);
        assert(files@[p.1].path@ == uploads@[v]@);
    }
}

/// The path is that of a file whose content the server does not hold.
pub open spec fn is_path_of_missing(
    path: String,
    files: Seq<HashedFile>,
    server: Seq<String>,
) -> bool {
    exists|f: int|
        0 <= f < files.len() && (#[trigger] files[f]).path@ == path@ && !is_on_server(
            files[f],
            server,
        )
}

/// A file with the first path stands before one with the second.
pub open spec fn stand_in_order(first: String, second: String, files: Seq<HashedFile>) -> bool {
    exists|f: int, g: int|
        0 <= f < g < files.len() && (#[trigger] files[f]).path@ == first@ && (
        #[trigger] files[g]).path@ == second@
}

/// What the counters call remaining is what a backup uploads, together with the files without a
/// checksum; the rest of the files is backed up.
pub proof fn counters_tell_what_is_uploaded(
    total: usize,
    files: &Vec<HashedFile>,
    server: &Vec<String>,
    counters: BackupCounters,
    uploads: Vec<String>,
)
    requires
        files@.len() <= total,
        call_ensures(backup_counters, (total, files, server), counters),
        call_ensures(files_to_upload, (files, server), uploads),
    ensures
        counters.total == total,
        counters.remaining == uploads@.len() + (total - files@.len()),
        counters.backed_up + counters.remaining == total,
{
    assert(text::views(uploads@).len() == uploads@.len());
    counters_add_up(total as int, files@, text::views(server@).to_set());
}

/// The server is asked about the checksum of every file, about each once, and about nothing else.
pub proof fn every_checksum_is_asked_about_once(
    files: &Vec<HashedFile>,
    asked: Vec<String>,
    checksum: Seq<char>,
)
    requires
        call_ensures(unique_checksums, (files,), asked),
    ensures
        text::views(asked@).contains(checksum) <==> exists|f: int|
            0 <= f < files@.len() && (#[trigger] files@[f]).checksum@ == checksum,
        forall|a: int, b: int|
            0 <= a < b < asked@.len() ==> (#[trigger] asked@[a])@ != (#[trigger] asked@[b])@,
{
    distinct_checksums_are_all(files@, checksum);
    let all = text::views(asked@);
    assert forall|a: int, b: int| 0 <= a < b < asked@.len() implies (#[trigger] asked@[a])@ != (
    #[trigger] asked@[b])@ by {
        assert(all[a] != all[b]);
    }
}

proof fn distinct_checksums_are_all(files: Seq<HashedFile>, checksum: Seq<char>)
    ensures
        distinct_checksums(files).contains(checksum) <==> exists|f: int|
            0 <= f < files.len() && (#[trigger] files[f]).checksum@ == checksum,
        forall|a: int, b: int|
            0 <= a < b < distinct_checksums(files).len() ==> distinct_checksums(files)[a]
                != distinct_checksums(files)[b],
    decreases files.len(),
{
    if files.len() > 0 {
        let front = files.drop_last();
        let before = distinct_checksums(front);
        let here = distinct_checksums(files);
        distinct_checksums_are_all(front, checksum);
        distinct_checksums_are_all(front, files.last().checksum@);
        if exists|f: int| 0 <= f < files.len() && (#[trigger] files[f]).checksum@ == checksum {
            let f = choose|f: int|
                0 <= f < files.len() && (#[trigger] files[f]).checksum@ == checksum;
            if f < front.len() {
                assert(front[f].checksum@ == checksum);
                let x = before.index_of(checksum);
                assert(here[x] == checksum);
            } else if before.contains(checksum) {
            } else {
                assert(here[before.len() as int] == checksum);
            }
        }
        if here.contains(checksum) {
            let x = here.index_of(checksum);
            if x < before.len() {
                assert(before[x] == checksum);
                let f = choose|f: int|
                    0 <= f < front.len() && (#[trigger] front[f]).checksum@ == checksum;
                assert(files[f].checksum@ == checksum);
            } else {
                assert(files[files.len() - 1].checksum@ == checksum);
            }
        }
        assert forall|a: int, b: int| 0 <= a < b < here.len() implies here[a] != here[b] by {
            if b == before.len() {
                assert(before[a] == here[a]);
                assert(before.contains(before[a]));
            }
        }
    }
}

/// No backup begins while one is under way, whether by the clock, by the button or by turning it on;
/// one that begins is under way afterwards; the clock begins none while backups are off; and nothing
/// but its end, or the lack of files, ends it.
pub proof fn one_backup_at_a_time(
    by_clock: &mut BackupState,
    by_button: &mut BackupState,
    by_switch: &mut BackupState,
    counted: &mut BackupState,
    on: bool,
    count: usize,
    clock_begins: bool,
    button_begins: bool,
    switch: BackupSwitch,
    goes_on: bool,
)
    requires
        call_ensures(BackupState::trigger_backup_tick, (by_clock,), clock_begins),
        call_ensures(BackupState::start_backup_now, (by_button,), button_begins),
        call_ensures(BackupState::set_backup_enabled, (by_switch, on), switch),
        call_ensures(BackupState::files_counted, (counted, count), goes_on),
    ensures
        clock_begins ==> old(by_clock).enabled && !old(by_clock).in_progress,
        button_begins <==> !old(by_button).in_progress,
        switch.begins ==> on && !old(by_switch).enabled && !old(by_switch).in_progress,
        clock_begins <==> final(by_clock).in_progress != old(by_clock).in_progress,
        switch.begins <==> final(by_switch).in_progress != old(by_switch).in_progress,
        final(by_button).in_progress,
        old(by_clock).enabled ==> final(by_clock).in_progress,
        on && !old(by_switch).enabled ==> final(by_switch).in_progress,
        final(by_switch).enabled == on,
        switch.saves <==> old(by_switch).enabled != on,
        final(by_clock).enabled == old(by_clock).enabled,
        final(by_button).enabled == old(by_button).enabled,
        goes_on <==> count > 0,
        goes_on ==> *final(counted) == *old(counted),
        !goes_on ==> !final(counted).in_progress,
{
}

/// The upload details list every item once, by their ids.
pub proof fn upload_rows_list_every_item(transfer: &TransferSnapshot, shown: Option<UploadStatus>)
    requires
        call_ensures(refresh_backup_status, (transfer,), shown),
    ensures
        shown is Some <==> transfer.active && transfer.direction == TransferDirection::Upload,
        shown matches Some(s) ==> {
            &&& s.rows@.len() == transfer.items@.len()
            &&& forall|i: int, j: int|
                0 <= i < j < s.rows@.len() ==> text::text_le(
                    (#[trigger] s.rows@[i]).id@,
                    (#[trigger] s.rows@[j]).id@,
                )
            &&& forall|k: int|
                0 <= k < transfer.items@.len() ==> has_row(s.rows@, #[trigger] transfer.items@[k])
        },
{
    if let Some(s) = shown {
        let items = order::stable_sort(transfer.items@, by_id());
        by_id_is_a_ranking();
        order::sort_keeps_elements(transfer.items@, by_id());
        assert forall|i: int, j: int| 0 <= i < j < s.rows@.len() implies text::text_le(
            (#[trigger] s.rows@[i]).id@,
            (#[trigger] s.rows@[j]).id@,
        ) by {
            assert(shows_item(s.rows@[i], items[i]));
            assert(shows_item(s.rows@[j], items[j]));
            assert(by_id()(items[i], items[j]));
        }
        assert forall|k: int| 0 <= k < transfer.items@.len() implies has_row(
            s.rows@,
            #[trigger] transfer.items@[k],
        ) by {
            assert(transfer.items@.contains(transfer.items@[k]));
            assert(items.contains(transfer.items@[k]));
            let i = items.index_of(transfer.items@[k]);
            assert(shows_item(s.rows@[i], items[i]));
        }
    }
}

/// One of the rows has the id of the item, the last component of it as its name, and its bytes.
pub open spec fn has_row(rows: Seq<UploadRow>, item: TransferItem) -> bool {
    exists|i: int|
        0 <= i < rows.len() && (#[trigger] rows[i]).id@ == item.id@ && rows[i].name@ == (
        match path::name_of(item.id@) {
            Some(name) => name,
            None => item.id@,
        }) && decimals::compact_size(item.bytes as nat).is_prefix_of(rows[i].text@)
}

/// The folders to choose from are those of the pictures and the watched ones: each of them is offered
/// under a path with the same components, none twice, none besides, in the order of the paths.
pub proof fn every_folder_is_offered_once(
    subfolders: &Vec<String>,
    entries: &Vec<WatchEntry>,
    offered: Vec<String>,
)
    requires
        call_ensures(candidate_folders, (subfolders, entries), offered),
    ensures
        forall|k: int|
            0 <= k < subfolders@.len() ==> holds_path(
                text::views(offered@),
                (#[trigger] subfolders@[k])@,
            ),
        forall|k: int|
            0 <= k < entries@.len() ==> holds_path(
                text::views(offered@),
                (#[trigger] entries@[k]).path@,
            ),
        forall|a: int|
            0 <= a < offered@.len() ==> text::views(subfolders@).contains((#[trigger] offered@[a])@)
                || watched_paths(entries@).contains(offered@[a]@),
        forall|a: int, b: int|
            0 <= a < b < offered@.len() ==> path::components((#[trigger] offered@[a])@)
                != path::components((#[trigger] offered@[b])@),
        forall|a: int, b: int|
            0 <= a < b < offered@.len() ==> path_order::components_le(
                path::components((#[trigger] offered@[a])@),
                path::components((#[trigger] offered@[b])@),
            ),
{
    let all = text::views(subfolders@) + watched_paths(entries@);
    let le = path_order_of();
    let found = choose|found: Seq<String>|
        text::views(found) == distinct_paths(all) && offered@ == #[trigger] order::stable_sort(
            found,
            le,
        );
    distinct_paths_are_all(all);
    assert(order::is_ranking(le)) by {
        assert forall|a: String, b: String| #[trigger] le(a, b) || #[trigger] le(b, a) by {
            path_order::components_le_total(path::components(a@), path::components(b@));
        }
        assert forall|a: String, b: String, c: String| #[trigger] le(a, b) && #[trigger] le(
            b,
            c,
        ) implies le(a, c) by {
            path_order::components_le_transitive(
                path::components(a@),
                path::components(b@),
                path::components(c@),
            );
        }
    }
    order::sort_keeps_elements(found, le);
    let names = text::views(found);
    assert forall|w: Seq<char>| holds_path(all, w) implies #[trigger] holds_path(
        text::views(offered@),
        w,
    ) by {
        assert(holds_path(names, w));
        let i = choose|i: int|
            0 <= i < names.len() && path::components(#[trigger] names[i]) == path::components(w);
        assert(found.contains(found[i]));
        assert(offered@.contains(found[i]));
        let a = offered@.index_of(found[i]);
        assert(text::views(offered@)[a] == names[i]);
    }
    assert forall|k: int| 0 <= k < subfolders@.len() implies holds_path(
        text::views(offered@),
        (#[trigger] subfolders@[k])@,
    ) by {
        assert(all[k] == subfolders@[k]@);
        assert(holds_path(all, subfolders@[k]@));
    }
    assert forall|k: int| 0 <= k < entries@.len() implies holds_path(
        text::views(offered@),
        (#[trigger] entries@[k]).path@,
    ) by {
        assert(all[subfolders@.len() + k] == entries@[k].path@);
        assert(holds_path(all, entries@[k].path@));
    }
    assert forall|a: int| 0 <= a < offered@.len() implies text::views(subfolders@).contains(
        (#[trigger] offered@[a])@,
    ) || watched_paths(entries@).contains(offered@[a]@) by {
        assert(offered@.contains(offered@[a]));
        assert(found.contains(offered@[a]));
        let i = found.index_of(offered@[a]);
        assert(names[i] == offered@[a]@);
        assert(names.contains(names[i]));
        assert(all.contains(names[i]));
        let k = all.index_of(names[i]);
        if k < subfolders@.len() {
            assert(text::views(subfolders@)[k] == names[i]);
        } else {
            assert(watched_paths(entries@)[k - subfolders@.len()] == names[i]);
        }
    }
    assert forall|a: int, b: int| 0 <= a < b < offered@.len() implies path::components(
        (#[trigger] offered@[a])@,
    ) != path::components((#[trigger] offered@[b])@) && path_order::components_le(
        path::components(offered@[a]@),
        path::components(offered@[b]@),
    ) by {
        let p = order::sorted_places_differ(found, le, a, b);
        assert(names[p.0] == offered@[a]@ && names[p.1] == offered@[b]@);
        assert(le(offered@[a], offered@[b]));
    }
}

proof fn distinct_paths_are_all(paths: Seq<Seq<char>>)
    ensures
        forall|w: Seq<char>| holds_path(paths, w) ==> #[trigger] holds_path(distinct_paths(paths), w),
        forall|p: Seq<char>| #[trigger] distinct_paths(paths).contains(p) ==> paths.contains(p),
        forall|a: int, b: int|
            0 <= a < distinct_paths(paths).len() && 0 <= b < distinct_paths(paths).len() && a != b
                ==> path::components(#[trigger] distinct_paths(paths)[a]) != path::components(
                #[trigger] distinct_paths(paths)[b],
            ),
    decreases paths.len(),
{
    if paths.len() > 0 {
        let front = paths.drop_last();
        let before = distinct_paths(front);
        let here = distinct_paths(paths);
        let last = paths.last();
        distinct_paths_are_all(front);
        assert forall|w: Seq<char>| holds_path(before, w) implies holds_path(here, w) by {
            let i = choose|i: int|
                0 <= i < before.len() && path::components(#[trigger] before[i])
                    == path::components(w);
            assert(here[i] == before[i]);
        }
        assert forall|w: Seq<char>| holds_path(paths, w) implies #[trigger] holds_path(
            here,
            w,
        ) by {
            let i = choose|i: int|
                0 <= i < paths.len() && path::components(#[trigger] paths[i]) == path::components(w);
            if i < front.len() {
                assert(front[i] == paths[i]);
                assert(holds_path(front, w));
                assert(holds_path(before, w));
            } else if holds_path(before, last) {
                let k = choose|k: int|
                    0 <= k < before.len() && path::components(#[trigger] before[k])
                        == path::components(last);
                assert(path::components(before[k]) == path::components(w));
                assert(holds_path(before, w));
            } else {
                assert(here[before.len() as int] == last);
            }
        }
        assert forall|p: Seq<char>| #[trigger] here.contains(p) implies paths.contains(p) by {
            let i = here.index_of(p);
            if i < before.len() {
                assert(before[i] == p);
                assert(before.contains(p));
                let k = front.index_of(p);
                assert(paths[k] == p);
            } else {
                assert(paths[paths.len() - 1] == p);
            }
        }
        assert forall|a: int, b: int|
            0 <= a < here.len() && 0 <= b < here.len() && a != b implies path::components(
            #[trigger] here[a],
        ) != path::components(#[trigger] here[b]) by {
            if a < before.len() && b < before.len() {
                assert(here[a] == before[a] && here[b] == before[b]);
            } else if a < before.len() {
                assert(here[a] == before[a] && here[b] == last);
            } else {
                assert(here[b] == before[b] && here[a] == last);
            }
        }
    }
}

} // verus!
