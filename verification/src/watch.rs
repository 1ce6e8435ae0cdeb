//! Watched folders: which are backed up, and which album each is linked to.
use vstd::prelude::*;
use vstd::string::*;
use crate::album_sync::{AlbumDiff, FolderRules, FolderSyncMethod};
use crate::path;
use crate::seqs;
use crate::sources::LibrarySource;
use crate::text;
use crate::text::{concat3, number, owned, same_text};

verus! {

/// A watched folder.
#[derive(Debug, PartialEq, Eq)]
pub struct WatchEntry {
    pub path: String,
    pub album_id: Option<String>,
    pub album_name: Option<String>,
    pub rules: FolderRules,
}

impl Clone for WatchEntry {
    fn clone(&self) -> (r: Self)
        ensures
            r == *self,
    {
        WatchEntry {
            path: self.path.clone(),
            album_id: self.album_id.clone(),
            album_name: self.album_name.clone(),
            rules: self.rules,
        }
    }
}

/// The folder is linked to an album of the name.
pub open spec fn is_linked_to(entry: WatchEntry, album: Seq<char>) -> bool {
    path::opt_view(entry.album_name) == Some(album)
}

fn linked_to(entry: &WatchEntry, album: &str) -> (r: bool)
    ensures
        r == is_linked_to(*entry, album@),
{
    match &entry.album_name {
        Some(name) => same_text(name.as_str(), album),
        None => false,
    }
}

/// The folder linked to an album: the first of them.
pub open spec fn linked_entry(entries: Seq<WatchEntry>, album: Seq<char>) -> Option<WatchEntry> {
    seqs::first_match(entries, |e: WatchEntry| is_linked_to(e, album))
}

/// The folder linked to an album.
pub fn watch_entry_for_album(album: &str, entries: &Vec<WatchEntry>) -> (r: Option<WatchEntry>)
    ensures
        r == linked_entry(entries@, album@),
{
    let ghost pass = |e: WatchEntry| is_linked_to(e, album@);
    let mut i: usize = 0;
    proof {
        seqs::first_match_ends(entries@, pass);
    }
    while i < entries.len()
        invariant
            i <= entries.len(),
            pass == |e: WatchEntry| is_linked_to(e, album@),
            seqs::first_match(entries@, pass) == seqs::first_match(entries@.skip(i as int), pass),
        decreases entries.len() - i,
    {
        proof {
            seqs::first_match_step(entries@, pass, i as int);
        }
        if linked_to(&entries[i], album) {
            return Some(entries[i].clone());
        }
        i = i + 1;
    }
    proof {
        seqs::first_match_ends(entries@, pass);
    }
    None
}

/// The row that shows which folder an album is linked to.
#[derive(Debug, PartialEq, Eq)]
pub struct AlbumLinkRow {
    pub title: String,
    pub subtitle: String,
    pub button: String,
    pub sync_visible: bool,
}

/// The name of the album that a source shows.
pub open spec fn album_name_of(source: LibrarySource) -> Option<Seq<char>> {
    match source {
        LibrarySource::Album { id, name } => Some(name@),
        LibrarySource::AlbumLocal { id, name } => Some(name@),
        LibrarySource::AlbumUnified { id, name } => Some(name@),
        _ => None,
    }
}

/// The row that shows which folder the current album is linked to; none where no album is shown.
pub fn refresh_album_link_row(source: &LibrarySource, entries: &Vec<WatchEntry>) -> (r: Option<
    AlbumLinkRow,
>)
    ensures
        r is Some <==> album_name_of(*source) is Some,
        r matches Some(row) ==> match linked_entry(entries@, album_name_of(*source)->0) {
            Some(entry) => row.title@ == "Linked folder"@ && row.subtitle@ == entry.path@
                && row.button@ == "Unlink"@ && row.sync_visible,
            None => row.title@ == "No local folder linked"@ && row.subtitle@
                == "Drop files in the linked folder to sync this album"@ && row.button@
                == "Link folder…"@ && !row.sync_visible,
        },
{
    let name: &String = match source {
        LibrarySource::Album { id: _, name } => name,
        LibrarySource::AlbumLocal { id: _, name } => name,
        LibrarySource::AlbumUnified { id: _, name } => name,
        _ => {
            return None;
        },
    };
    match watch_entry_for_album(name.as_str(), entries) {
        Some(entry) => Some(
            AlbumLinkRow {
                title: owned("Linked folder"),
                subtitle: entry.path,
                button: owned("Unlink"),
                sync_visible: true,
            },
        ),
        None => Some(
            AlbumLinkRow {
                title: owned("No local folder linked"),
                subtitle: owned("Drop files in the linked folder to sync this album"),
                button: owned("Link folder…"),
                sync_visible: false,
            },
        ),
    }
}

/// What a click on the sync button compares: an album and a folder, by rules that allow every
/// direction, since the user picks the directions afterwards.
#[derive(Debug, PartialEq, Eq)]
pub struct SyncRequest {
    pub album_id: String,
    pub album_name: String,
    pub watch_path: String,
    pub rules: FolderRules,
}

/// The request compares the album with the folder, in every direction.
pub open spec fn compares(
    request: SyncRequest,
    album_id: Seq<char>,
    album: Seq<char>,
    folder: Seq<char>,
) -> bool {
    &&& request.album_id@ == album_id
    &&& request.album_name@ == album
    &&& request.watch_path@ == folder
    &&& request.rules == (FolderRules {
        delete_folder_to_album: true,
        delete_album_to_folder: true,
        sync_method: FolderSyncMethod::Full,
    })
}

/// What a click on the sync button leads to: a comparison where the source is an album with a linked
/// folder, else nothing.
pub open spec fn is_answer(
    answer: Option<SyncRequest>,
    source: LibrarySource,
    entries: Seq<WatchEntry>,
) -> bool {
    match source {
        LibrarySource::Album { id, name } => match linked_entry(entries, name@) {
            Some(entry) => answer matches Some(q) && compares(q, id@, name@, entry.path@),
            None => answer is None,
        },
        _ => answer is None,
    }
}

fn full_request(album_id: &str, album: &str, folder: &str) -> (r: SyncRequest)
    ensures
        compares(r, album_id@, album@, folder@),
{
    SyncRequest {
        album_id: owned(album_id),
        album_name: owned(album),
        watch_path: owned(folder),
        rules: FolderRules {
            delete_folder_to_album: true,
            delete_album_to_folder: true,
            sync_method: FolderSyncMethod::Full,
        },
    }
}

/// What a click on the sync button compares; none where the album is not shown or not linked.
pub fn album_sync_request(source: &LibrarySource, entries: &Vec<WatchEntry>) -> (r: Option<
    SyncRequest,
>)
    ensures
        is_answer(r, *source, entries@),
{
    match source {
        LibrarySource::Album { id, name } => {
            match watch_entry_for_album(name.as_str(), entries) {
                Some(entry) => Some(
                    full_request(id.as_str(), name.as_str(), entry.path.as_str()),
                ),
                None => None,
            }
        },
        _ => None,
    }
}

/// What a click on the link button does.
#[derive(Debug, PartialEq, Eq)]
pub enum LinkClick {
    Unlink { album_name: String },
    /// Ask for a folder to link.
    ChooseFolder { album_id: String, album_name: String, title: String },
    Nothing,
}

/// What a click on the link button does: the link of the shown album is cut, or made.
pub fn handle_album_link_click(source: &LibrarySource, entries: &Vec<WatchEntry>) -> (r: LinkClick)
    ensures
        match *source {
            LibrarySource::Album { id, name } => if linked_entry(entries@, name@) is Some {
                r matches LinkClick::Unlink { album_name } && album_name@ == name@
            } else {
                r matches LinkClick::ChooseFolder { album_id, album_name, title } && album_id@
                    == id@ && album_name@ == name@ && title@ == "Link folder for album '"@ + name@
                    + "'"@
            },
            _ => r == LinkClick::Nothing,
        },
{
    match source {
        LibrarySource::Album { id, name } => {
            if watch_entry_for_album(name.as_str(), entries).is_some() {
                LinkClick::Unlink { album_name: name.clone() }
            } else {
                LinkClick::ChooseFolder {
                    album_id: id.clone(),
                    album_name: name.clone(),
                    title: concat3("Link folder for album '", name.as_str(), "'"),
                }
            }
        },
        _ => LinkClick::Nothing,
    }
}

/// The folders that are not linked to an album.
pub open spec fn unlinked(entries: Seq<WatchEntry>, album: Seq<char>) -> Seq<WatchEntry> {
    entries.filter(|e: WatchEntry| !is_linked_to(e, album))
}

/// Cuts the links of an album: its folders are no longer watched.
pub fn unlink_album(entries: &mut Vec<WatchEntry>, album: &str)
    ensures
        final(entries)@ == unlinked(old(entries)@, album@),
{
    let ghost all = entries@;
    let ghost keep = |e: WatchEntry| !is_linked_to(e, album@);
    let mut kept: Vec<WatchEntry> = Vec::new();
    let mut i: usize = 0;
    proof {
        seqs::filter_ends(all, keep);
    }
    while i < entries.len()
        invariant
            i <= entries.len(),
            entries@ == all,
            keep == |e: WatchEntry| !is_linked_to(e, album@),
            kept@ == all.take(i as int).filter(keep),
        decreases entries.len() - i,
    {
        proof {
            seqs::filter_step(all, keep, i as int);
        }
        if !linked_to(&entries[i], album) {
            kept.push(entries[i].clone());
        }
        i = i + 1;
    }
    *entries = kept;
}

/// The folder that a link adds.
pub open spec fn is_new_link(
    entry: WatchEntry,
    path: Seq<char>,
    album_id: Seq<char>,
    album: Seq<char>,
    rules: FolderRules,
) -> bool {
    &&& entry.path@ == path
    &&& path::opt_view(entry.album_id) == Some(album_id)
    &&& is_linked_to(entry, album)
    &&& entry.rules == rules
}

/// Links an album to a folder, in place of any other; the rules are those of a new link. Returns what
/// the initial diff of the link compares.
pub fn link_album_to_path(
    entries: &mut Vec<WatchEntry>,
    album_id: &str,
    album: &str,
    path: &str,
    rules: FolderRules,
) -> (r: SyncRequest)
    ensures
        compares(r, album_id@, album@, path@),
        final(entries)@.len() > 0,
        final(entries)@.drop_last() == unlinked(old(entries)@, album@),
        is_new_link(final(entries)@.last(), path@, album_id@, album@, rules),
{
    unlink_album(entries, album);
    let ghost rest = entries@;
    entries.push(
        WatchEntry {
            path: owned(path),
            album_id: Some(owned(album_id)),
            album_name: Some(owned(album)),
            rules,
        },
    );
    assert(entries@.drop_last() =~= rest);
    full_request(album_id, album, path)
}

/// After its links are cut an album has no folder.
pub proof fn unlinked_album_has_no_folder(entries: Seq<WatchEntry>, album: Seq<char>)
    ensures
        linked_entry(unlinked(entries, album), album) is None,
{
    let keep = |e: WatchEntry| !is_linked_to(e, album);
    let rest = unlinked(entries, album);
    seqs::filter_contents(entries, keep);
    let pass = |e: WatchEntry| is_linked_to(e, album);
    seqs::first_match_is_a_match(rest, pass);
    if seqs::has(rest, pass) {
        let i = choose|i: int| 0 <= i < rest.len() && pass(#[trigger] rest[i]);
        assert(keep(rest[i]));
    }
}

/// After an album is linked to a folder, that folder is found for it.
pub proof fn linked_folder_is_found(
    before: Seq<WatchEntry>,
    after: Seq<WatchEntry>,
    path: Seq<char>,
    album_id: Seq<char>,
    album: Seq<char>,
    rules: FolderRules,
)
    requires
        after.len() > 0,
        after.drop_last() == unlinked(before, album),
        is_new_link(after.last(), path, album_id, album, rules),
    ensures
        linked_entry(after, album) == Some(after.last()),
{
    let pass = |e: WatchEntry| is_linked_to(e, album);
    unlinked_album_has_no_folder(before, album);
    seqs::first_match_of_push(after.drop_last(), after.last(), pass);
    assert(after.drop_last().push(after.last()) =~= after);
}

/// After an album is linked to a folder, a click on its sync button compares it with that folder, as
/// the initial diff of the link does.
pub proof fn linked_album_is_compared_with_its_folder(
    before: Seq<WatchEntry>,
    after: Seq<WatchEntry>,
    path: Seq<char>,
    album_id: Seq<char>,
    album: Seq<char>,
    rules: FolderRules,
    source: LibrarySource,
    answer: Option<SyncRequest>,
)
    requires
        after.len() > 0,
        after.drop_last() == unlinked(before, album),
        is_new_link(after.last(), path, album_id, album, rules),
        source matches LibrarySource::Album { id, name } && id@ == album_id && name@ == album,
        is_answer(answer, source, after),
    ensures
        answer matches Some(request) && compares(request, album_id, album, path),
{
    linked_folder_is_found(before, after, path, album_id, album, rules);
}

/// Linking one album leaves the folders of the others as they are.
pub proof fn link_keeps_other_albums(
    before: Seq<WatchEntry>,
    after: Seq<WatchEntry>,
    album: Seq<char>,
    other: Seq<char>,
)
    requires
        after.len() > 0,
        after.drop_last() == unlinked(before, album),
        is_linked_to(after.last(), album),
        other != album,
    ensures
        linked_entry(after, other) == linked_entry(before, other),
{
    let pass = |e: WatchEntry| is_linked_to(e, other);
    others_survive(before, album, other);
    seqs::first_match_of_push(after.drop_last(), after.last(), pass);
    assert(after.drop_last().push(after.last()) =~= after);
}

proof fn others_survive(entries: Seq<WatchEntry>, album: Seq<char>, other: Seq<char>)
    requires
        other != album,
    ensures
        linked_entry(unlinked(entries, album), other) == linked_entry(entries, other),
    decreases entries.len(),
{
    let pass = |e: WatchEntry| is_linked_to(e, other);
    let keep = |e: WatchEntry| !is_linked_to(e, album);
    if entries.len() == 0 {
        seqs::filter_ends(entries, keep);
        assert(unlinked(entries, album) =~= entries);
    } else {
        let n = entries.len() - 1;
        let front = entries.drop_last();
        let e = entries.last();
        others_survive(front, album, other);
        seqs::filter_step(entries, keep, n);
        assert(entries.take(n) =~= front);
        assert(entries.take(n + 1) =~= entries);
        assert(front.push(e) =~= entries);
        seqs::first_match_of_push(front, e, pass);
        seqs::first_match_of_push(unlinked(front, album), e, pass);
    }
}

/// What the dialog on an album's sync says.
#[derive(Debug, PartialEq, Eq)]
pub enum SyncDialog {
    /// There is nothing to do.
    InSync { body: String },
    /// The user picks the directions; each label stands for one that has something to do.
    Choose { body: String, labels: Vec<String> },
}

/// The label of a direction, where it has something to do.
pub open spec fn direction(n: nat, front: Seq<char>, back: Seq<char>) -> Seq<Seq<char>> {
    if n > 0 {
        seq![front + text::decimal(n) + back]
    } else {
        Seq::empty()
    }
}

/// The labels of the directions that have something to do.
pub open spec fn direction_labels(diff: AlbumDiff) -> Seq<Seq<char>> {
    direction(diff.to_upload@.len(), "Upload "@, " item(s) to album"@) + direction(
        diff.to_download@.len(),
        "Download "@,
        " item(s) to folder"@,
    ) + direction(diff.to_delete_remote@.len(), "Move "@, " album item(s) to trash"@) + direction(
        diff.to_delete_local@.len(),
        "Move "@,
        " local item(s) to trash"@,
    )
}

fn push_direction(labels: &mut Vec<String>, n: usize, front: &str, back: &str)
    ensures
        text::views(final(labels)@) == text::views(old(labels)@) + direction(
            n as nat,
            front@,
            back@,
        ),
{
    let ghost before = text::views(labels@);
    if n > 0 {
        labels.push(concat3(front, number(n as u64).as_str(), back));
    }
    assert(text::views(labels@) =~= before + direction(n as nat, front@, back@));
}

/// What the dialog on an album's sync says.
pub fn sync_dialog(diff: &AlbumDiff) -> (r: SyncDialog)
    ensures
        if direction_labels(*diff).len() == 0 {
            r matches SyncDialog::InSync { body } && body@ == if diff.remote_unhashed > 0 {
                "Already in sync. ("@ + text::decimal(diff.remote_unhashed as nat)
                    + " remote item(s) couldn't be matched — missing checksum.)"@
            } else {
                "Already in sync."@
            }
        } else {
            r matches SyncDialog::Choose { body, labels } && text::views(labels@)
                == direction_labels(*diff) && body@ == if diff.remote_unhashed > 0 {
                "Pick which directions to apply.\n\n"@ + text::decimal(diff.remote_unhashed as nat)
                    + " remote item(s) couldn't be matched (missing checksum)."@
            } else {
                "Pick which directions to apply."@
            }
        },
{
    let mut labels: Vec<String> = Vec::new();
    assert(text::views(labels@) =~= Seq::<Seq<char>>::empty());
    push_direction(&mut labels, diff.to_upload.len(), "Upload ", " item(s) to album");
    push_direction(&mut labels, diff.to_download.len(), "Download ", " item(s) to folder");
    push_direction(&mut labels, diff.to_delete_remote.len(), "Move ", " album item(s) to trash");
    push_direction(&mut labels, diff.to_delete_local.len(), "Move ", " local item(s) to trash");
    assert(text::views(labels@) =~= direction_labels(*diff));
    let unhashed: String = number(diff.remote_unhashed as u64);
    if labels.len() == 0 {
        let body: String = if diff.remote_unhashed > 0 {
            concat3(
                "Already in sync. (",
                unhashed.as_str(),
                " remote item(s) couldn't be matched — missing checksum.)",
            )
        } else {
            owned("Already in sync.")
        };
        SyncDialog::InSync { body }
    } else {
        let body: String = if diff.remote_unhashed > 0 {
            concat3(
                "Pick which directions to apply.\n\n",
                unhashed.as_str(),
                " remote item(s) couldn't be matched (missing checksum).",
            )
        } else {
            owned("Pick which directions to apply.")
        };
        SyncDialog::Choose { body, labels }
    }
}

/// The directions that the user picked.
#[derive(Clone, Copy, Debug, PartialEq, Eq, Structural)]
pub struct ChosenDirections {
    pub upload: bool,
    pub download: bool,
    pub delete_remote: bool,
    pub delete_local: bool,
}

/// What is done of a comparison: the directions that the user picked; none where there are none.
pub fn chosen_diff(diff: AlbumDiff, chosen: ChosenDirections) -> (r: Option<AlbumDiff>)
    ensures
        r is Some <==> chosen.upload || chosen.download || chosen.delete_remote
            || chosen.delete_local,
        r matches Some(d) ==> {
            &&& d.to_upload@ == if chosen.upload {
                diff.to_upload@
            } else {
                Seq::empty()
            }
            &&& d.to_download@ == if chosen.download {
                diff.to_download@
            } else {
                Seq::empty()
            }
            &&& d.to_delete_remote@ == if chosen.delete_remote {
                diff.to_delete_remote@
            } else {
                Seq::empty()
            }
            &&& d.to_delete_local@ == if chosen.delete_local {
                diff.to_delete_local@
            } else {
                Seq::empty()
            }
            &&& d.remote_unhashed == 0
        },
{
    if !chosen.upload && !chosen.download && !chosen.delete_remote && !chosen.delete_local {
        return None;
    }
    let mut d: AlbumDiff = diff;
    d.remote_unhashed = 0;
    if !chosen.upload {
        d.to_upload = Vec::new();
    }
    if !chosen.download {
        d.to_download = Vec::new();
    }
    if !chosen.delete_remote {
        d.to_delete_remote = Vec::new();
    }
    if !chosen.delete_local {
        d.to_delete_local = Vec::new();
    }
    Some(d)
}

/// Whether the library is refreshed after a sync: where it changed anything.
pub fn refresh_after_sync(
    queued: usize,
    downloaded: usize,
    remote_deleted: usize,
    local_deleted: usize,
) -> (r: bool)
    ensures
        r == (queued > 0 || downloaded > 0 || remote_deleted > 0 || local_deleted > 0),
{
    queued > 0 || downloaded > 0 || remote_deleted > 0 || local_deleted > 0
}

/// The folder is watched.
pub open spec fn is_watched(entries: Seq<WatchEntry>, path: Seq<char>) -> bool {
    seqs::has(entries, |e: WatchEntry| e.path@ == path)
}

/// Whether a folder is watched.
pub fn is_selected(entries: &Vec<WatchEntry>, path: &str) -> (r: bool)
    ensures
        r == is_watched(entries@, path@),
{
    let ghost pass = |e: WatchEntry| e.path@ == path@;
    let mut i: usize = 0;
    while i < entries.len()
        invariant
            i <= entries.len(),
            pass == |e: WatchEntry| e.path@ == path@,
            forall|k: int| 0 <= k < i ==> !pass(#[trigger] entries@[k]),
        decreases entries.len() - i,
    {
        if same_text(entries[i].path.as_str(), path) {
            assert(pass(entries@[i as int]));
            return true;
        }
        i = i + 1;
    }
    false
}

/// Begins or ends to watch a folder; says whether anything changed. A folder that is watched
/// already keeps its link and rules; a new one has no album. Done twice, the second time changes
/// nothing.
pub fn set_folder_selected(
    entries: &mut Vec<WatchEntry>,
    path: &str,
    selected: bool,
    default_rules: FolderRules,
) -> (r: bool)
    ensures
        r == (is_watched(old(entries)@, path@) != selected),
        is_watched(final(entries)@, path@) == selected,
        !r ==> final(entries)@ == old(entries)@,
        r && selected ==> final(entries)@.len() > 0 && final(entries)@.drop_last() == old(
            entries,
        )@ && final(entries)@.last().path@ == path@ && final(entries)@.last().album_id is None
            && final(entries)@.last().album_name is None && final(entries)@.last().rules
            == default_rules,
        r && !selected ==> final(entries)@ == old(entries)@.filter(
            |e: WatchEntry| e.path@ != path@,
        ),
{
    let already: bool = is_selected(entries, path);
    if already == selected {
        return false;
    }
    let ghost all = entries@;
    if selected {
        entries.push(
            WatchEntry {
                path: owned(path),
                album_id: None,
                album_name: None,
                rules: default_rules,
            },
        );
        assert(entries@.drop_last() =~= all);
        proof {
            let pass = |e: WatchEntry| e.path@ == path@;
            assert(pass(entries@[entries@.len() - 1]));
        }
        return true;
    }
    let ghost keep = |e: WatchEntry| e.path@ != path@;
    let mut kept: Vec<WatchEntry> = Vec::new();
    let mut i: usize = 0;
    proof {
        seqs::filter_ends(all, keep);
    }
    while i < entries.len()
        invariant
            i <= entries.len(),
            entries@ == all,
            keep == |e: WatchEntry| e.path@ != path@,
            kept@ == all.take(i as int).filter(keep),
        decreases entries.len() - i,
    {
        proof {
            seqs::filter_step(all, keep, i as int);
        }
        if !same_text(entries[i].path.as_str(), path) {
            kept.push(entries[i].clone());
        }
        i = i + 1;
    }
    *entries = kept;
    proof {
        seqs::filter_contents(all, keep);
        assert forall|k: int| 0 <= k < entries@.len() implies (#[trigger] entries@[k]).path@
            != path@ by {
            assert(entries@.contains(entries@[k]));
        }
    }
    true
}

/// Linking an album to a folder makes that folder the album's own, and asks for their comparison;
/// another album keeps the folder that it had. Cutting the links leaves the album without a folder,
/// and again no other changes.
pub proof fn links_concern_their_album_only(
    linked: &mut Vec<WatchEntry>,
    cut: &mut Vec<WatchEntry>,
    album_id: &str,
    album: &str,
    path: &str,
    rules: FolderRules,
    other: &str,
    request: SyncRequest,
    before: Option<WatchEntry>,
    own: Option<WatchEntry>,
    others: Option<WatchEntry>,
    after: Option<WatchEntry>,
    still: Option<WatchEntry>,
)
    requires
        other@ != album@,
        call_ensures(watch_entry_for_album, (other, &*old(linked)), before),
        call_ensures(link_album_to_path, (linked, album_id, album, path, rules), request),
        call_ensures(watch_entry_for_album, (album, &*final(linked)), own),
        call_ensures(watch_entry_for_album, (other, &*final(linked)), others),
        *old(cut) == *final(linked),
        call_ensures(unlink_album, (cut, album), ()),
        call_ensures(watch_entry_for_album, (album, &*final(cut)), after),
        call_ensures(watch_entry_for_album, (other, &*final(cut)), still),
    ensures
        own is Some && own->0.path@ == path@ && own->0.rules == rules && own->0.album_id is Some
            && own->0.album_id->0@ == album_id@,
        request.album_id@ == album_id@ && request.album_name@ == album@ && request.watch_path@
            == path@,
        others == before,
        after is None,
        still == before,
{
    linked_folder_is_found(
        old(linked)@,
        final(linked)@,
        path@,
        album_id@,
        album@,
        rules,
    );
    link_keeps_other_albums(old(linked)@, final(linked)@, album@, other@);
    unlinked_album_has_no_folder(old(cut)@, album@);
    others_survive(old(cut)@, album@, other@);
}

/// The folder of an album is the first watched one that is linked to an album of its name.
pub proof fn folder_of_an_album_is_the_first_linked(
    album: &str,
    entries: &Vec<WatchEntry>,
    found: Option<WatchEntry>,
    k: int,
)
    requires
        call_ensures(watch_entry_for_album, (album, entries), found),
        0 <= k < entries@.len(),
        entries@[k].album_name is Some && entries@[k].album_name->0@ == album@,
        forall|j: int|
            0 <= j < k ==> (#[trigger] entries@[j]).album_name is None || entries@[j].album_name->0@
                != album@,
    ensures
        found == Some(entries@[k]),
{
    first_linked(entries@, album@, k);
}

proof fn first_linked(entries: Seq<WatchEntry>, album: Seq<char>, k: int)
    requires
        0 <= k < entries.len(),
        is_linked_to(entries[k], album),
        forall|j: int| 0 <= j < k ==> !is_linked_to(#[trigger] entries[j], album),
    ensures
        linked_entry(entries, album) == Some(entries[k]),
    decreases entries.len(),
{
    if k > 0 {
        let rest = entries.drop_first();
        assert(!is_linked_to(entries[0], album));
        assert forall|j: int| 0 <= j < k - 1 implies !is_linked_to(#[trigger] rest[j], album) by {
            assert(rest[j] == entries[j + 1]);
        }
        first_linked(rest, album, k - 1);
        assert(linked_entry(entries, album) == linked_entry(rest, album));
    }
}

/// Choosing or dropping a folder for the backup touches no other: another watched folder stays as it
/// is, with its link and rules, and a folder that is chosen already keeps its own.
pub proof fn choosing_a_folder_touches_no_other(
    entries: &mut Vec<WatchEntry>,
    path: &str,
    selected: bool,
    rules: FolderRules,
    changed: bool,
    entry: WatchEntry,
)
    requires
        call_ensures(set_folder_selected, (entries, path, selected, rules), changed),
        entry.path@ != path@ || (selected && old(entries)@.contains(entry)),
    ensures
        final(entries)@.contains(entry) <==> old(entries)@.contains(entry),
{
    let before = old(entries)@;
    let after = final(entries)@;
    let pass = |e: WatchEntry| e.path@ == path@;
    if changed && selected {
        if before.contains(entry) {
            let i = before.index_of(entry);
            assert(after.drop_last()[i] == entry);
            assert(after[i] == entry);
        }
        if after.contains(entry) {
            let i = after.index_of(entry);
            if i < after.len() - 1 {
                assert(after.drop_last()[i] == entry);
                assert(before[i] == entry);
            } else {
                assert(entry.path@ == path@);
            }
        }
    } else if changed {
        seqs::filter_contents(before, |e: WatchEntry| e.path@ != path@);
    }
}

/// The dialog offers exactly what there is to do, and what is then done is what was picked of it.
pub proof fn sync_does_what_was_picked(
    diff: AlbumDiff,
    dialog: SyncDialog,
    chosen: ChosenDirections,
    done: Option<AlbumDiff>,
)
    requires
        call_ensures(sync_dialog, (&diff,), dialog),
        call_ensures(chosen_diff, (diff, chosen), done),
    ensures
        dialog is InSync <==> diff.to_upload@.len() == 0 && diff.to_download@.len() == 0
            && diff.to_delete_remote@.len() == 0 && diff.to_delete_local@.len() == 0,
        done is None <==> !chosen.upload && !chosen.download && !chosen.delete_remote
            && !chosen.delete_local,
        done matches Some(d) ==> {
            &&& chosen.upload ==> d.to_upload@ == diff.to_upload@
            &&& !chosen.upload ==> d.to_upload@.len() == 0
            &&& chosen.download ==> d.to_download@ == diff.to_download@
            &&& !chosen.download ==> d.to_download@.len() == 0
            &&& chosen.delete_remote ==> d.to_delete_remote@ == diff.to_delete_remote@
            &&& !chosen.delete_remote ==> d.to_delete_remote@.len() == 0
            &&& chosen.delete_local ==> d.to_delete_local@ == diff.to_delete_local@
            &&& !chosen.delete_local ==> d.to_delete_local@.len() == 0
        },
{
}

} // verus!
