//! Album and folder: what has to be uploaded, downloaded and deleted to bring them together.
use vstd::prelude::*;
use vstd::hash_map::StringHashMap;
use vstd::hash_set::StringHashSet;
use vstd::string::*;
use crate::api::LibraryAsset;
use crate::local_source::LocalAsset;
use crate::seqs;
use crate::sync_index::{migrate_renamed_record, SyncIndex, SyncRecord};
use crate::text;
use crate::text::{concat3, owned};

verus! {

/// Whether local files can be moved to the trash. While they cannot, nothing is deleted locally.
pub const ALBUM_TO_FOLDER_TRASH_AVAILABLE: bool = false;

/// Up to this many deletions are carried out at the first sight; more have to be confirmed.
pub const UNCONFIRMED_DELETIONS: usize = 5;

/// Which way a folder is synced.
#[derive(Clone, Copy, Debug, PartialEq, Eq, Structural)]
pub enum FolderSyncMethod {
    Full,
    UploadOnly,
    DownloadOnly,
}

/// The rules of a watched folder that bear on album sync.
#[derive(Clone, Copy, Debug, PartialEq, Eq, Structural)]
pub struct FolderRules {
    /// A file deleted from the folder leaves the album too.
    pub delete_folder_to_album: bool,
    /// An asset deleted from the album leaves the folder too.
    pub delete_album_to_folder: bool,
    pub sync_method: FolderSyncMethod,
}

/// A local file with the checksum of its content.
#[derive(Debug, PartialEq, Eq)]
pub struct LocalEntry {
    pub local: LocalAsset,
    pub checksum: String,
}

impl Clone for LocalEntry {
    fn clone(&self) -> (r: Self)
        ensures
            r == *self,
    {
        LocalEntry { local: self.local.clone(), checksum: self.checksum.clone() }
    }
}

/// What has to happen to bring an album and a folder together.
#[derive(Debug, PartialEq, Eq)]
pub struct AlbumDiff {
    pub to_upload: Vec<LocalEntry>,
    pub to_download: Vec<LibraryAsset>,
    pub to_delete_remote: Vec<LibraryAsset>,
    pub to_delete_local: Vec<LocalEntry>,
    /// How many album items could not be matched for want of a checksum.
    pub remote_unhashed: usize,
}

impl Default for AlbumDiff {
    fn default() -> (r: Self)
        ensures
            r.to_upload@.len() == 0,
            r.to_download@.len() == 0,
            r.to_delete_remote@.len() == 0,
            r.to_delete_local@.len() == 0,
            r.remote_unhashed == 0,
    {
        AlbumDiff {
            to_upload: Vec::new(),
            to_download: Vec::new(),
            to_delete_remote: Vec::new(),
            to_delete_local: Vec::new(),
            remote_unhashed: 0,
        }
    }
}

/// A record of the sync index whose path lies in the watched folder.
#[derive(Debug, PartialEq, Eq)]
pub struct FolderRecord {
    pub path: String,
    pub checksum: String,
    pub album_id: Option<String>,
    /// Something still exists at the path.
    pub on_disk: bool,
}

impl Clone for FolderRecord {
    fn clone(&self) -> (r: Self)
        ensures
            r == *self,
    {
        FolderRecord {
            path: self.path.clone(),
            checksum: self.checksum.clone(),
            album_id: self.album_id.clone(),
            on_disk: self.on_disk,
        }
    }
}

/// A file that was moved: its record goes from the old to the new path.
#[derive(Debug, PartialEq, Eq)]
pub struct Rename {
    pub old_path: String,
    pub new_path: String,
    pub checksum: String,
}

/// The asset has a checksum.
pub open spec fn is_hashed(asset: LibraryAsset) -> bool {
    asset.checksum matches Some(c) && c@.len() > 0
}

/// The asset has the given checksum.
pub open spec fn has_checksum(asset: LibraryAsset, checksum: Seq<char>) -> bool {
    is_hashed(asset) && asset.checksum->0@ == checksum
}

/// The album holds an asset with the given checksum.
pub open spec fn in_album(remote: Seq<LibraryAsset>, checksum: Seq<char>) -> bool {
    seqs::has(remote, |a: LibraryAsset| has_checksum(a, checksum))
}

/// The folder holds a file with the given checksum.
pub open spec fn in_folder(entries: Seq<LocalEntry>, checksum: Seq<char>) -> bool {
    seqs::has(entries, |e: LocalEntry| e.checksum@ == checksum)
}

/// The folder holds a file at the given path.
pub open spec fn at_path(entries: Seq<LocalEntry>, file: Seq<char>) -> bool {
    seqs::has(entries, |e: LocalEntry| e.local.path@ == file)
}

/// How many assets of the album have no checksum.
pub open spec fn unhashed_count(remote: Seq<LibraryAsset>) -> nat {
    remote.filter(|a: LibraryAsset| !is_hashed(a)).len()
}

/// An optional album id leaves room for the given album: it is absent or the same.
pub open spec fn album_agrees(recorded: Option<String>, album: Seq<char>) -> bool {
    recorded matches Some(id) ==> id@ == album
}

/// The record's file is gone from the folder: a record of this album whose path is neither among
/// the listed files nor on disk.
pub open spec fn is_orphan(
    record: FolderRecord,
    entries: Seq<LocalEntry>,
    album: Seq<char>,
) -> bool {
    !at_path(entries, record.path@) && !record.on_disk && album_agrees(record.album_id, album)
}

/// A file with the given checksum is gone from the folder.
pub open spec fn is_gone(
    records: Seq<FolderRecord>,
    entries: Seq<LocalEntry>,
    album: Seq<char>,
    checksum: Seq<char>,
) -> bool {
    seqs::has(
        records,
        |r: FolderRecord| is_orphan(r, entries, album) && r.checksum@ == checksum,
    )
}

/// The first path at which a file with the given checksum is gone.
pub open spec fn old_path_of(
    records: Seq<FolderRecord>,
    entries: Seq<LocalEntry>,
    album: Seq<char>,
    checksum: Seq<char>,
) -> Option<FolderRecord> {
    seqs::first_match(
        records,
        |r: FolderRecord| is_orphan(r, entries, album) && r.checksum@ == checksum,
    )
}

/// The asset has to be downloaded: the folder lacks it, and it was not just deleted there.
pub open spec fn wants_download(
    asset: LibraryAsset,
    rules: FolderRules,
    entries: Seq<LocalEntry>,
    records: Seq<FolderRecord>,
    album: Seq<char>,
) -> bool {
    &&& is_hashed(asset)
    &&& !in_folder(entries, asset.checksum->0@)
    &&& !(rules.delete_folder_to_album && is_gone(records, entries, album, asset.checksum->0@))
}

/// The file was synced to this album as it stands.
pub open spec fn was_synced(entry: LocalEntry, index: SyncIndex, album: Seq<char>) -> bool {
    index.record(entry.local.path@) matches Some(record) && record.checksum@ == entry.checksum@
        && album_agrees(record.album_id, album)
}

/// The file has to be uploaded. A file that was synced before and is no longer in the album is
/// offered again only in a sync that the user started, and only where every album item could be
/// matched.
pub open spec fn wants_upload(
    entry: LocalEntry,
    rules: FolderRules,
    manual: bool,
    remote: Seq<LibraryAsset>,
    index: SyncIndex,
    album: Seq<char>,
) -> bool {
    &&& !in_album(remote, entry.checksum@)
    &&& was_synced(entry, index, album) ==> unhashed_count(remote) == 0 && manual && !(
    rules.delete_album_to_folder && ALBUM_TO_FOLDER_TRASH_AVAILABLE)
}

/// The file has to be deleted from the folder: it was synced and has left the album.
pub open spec fn wants_local_deletion(
    entry: LocalEntry,
    rules: FolderRules,
    remote: Seq<LibraryAsset>,
    index: SyncIndex,
    album: Seq<char>,
) -> bool {
    &&& !in_album(remote, entry.checksum@)
    &&& was_synced(entry, index, album)
    &&& unhashed_count(remote) == 0
    &&& rules.delete_album_to_folder
    &&& ALBUM_TO_FOLDER_TRASH_AVAILABLE
}

/// The file at position `i` is a gone file under a new name: its content is in the album and gone
/// from another path, and no file before it took that path's record.
pub open spec fn is_rename(
    i: int,
    remote: Seq<LibraryAsset>,
    entries: Seq<LocalEntry>,
    records: Seq<FolderRecord>,
    album: Seq<char>,
) -> bool {
    &&& in_album(remote, entries[i].checksum@)
    &&& is_gone(records, entries, album, entries[i].checksum@)
    &&& !in_folder(entries.take(i), entries[i].checksum@)
}

/// The positions of the renamed files among the first `n`.
pub open spec fn rename_positions(
    n: int,
    remote: Seq<LibraryAsset>,
    entries: Seq<LocalEntry>,
    records: Seq<FolderRecord>,
    album: Seq<char>,
) -> Seq<int>
    decreases n,
{
    if n <= 0 {
        Seq::empty()
    } else {
        let front = rename_positions(n - 1, remote, entries, records, album);
        if is_rename(n - 1, remote, entries, records, album) {
            front.push(n - 1)
        } else {
            front
        }
    }
}

/// The rename moves the record of the first gone file to the file at position `i`.
pub open spec fn moves_record(
    rename: Rename,
    i: int,
    entries: Seq<LocalEntry>,
    records: Seq<FolderRecord>,
    album: Seq<char>,
) -> bool {
    &&& old_path_of(records, entries, album, entries[i].checksum@) matches Some(old)
        && rename.old_path@ == old.path@
    &&& rename.new_path@ == entries[i].local.path@
    &&& rename.checksum@ == entries[i].checksum@
}

/// The comparison of an album with a folder, before anything is deleted remotely.
#[derive(Debug, PartialEq, Eq)]
pub struct AlbumComparison {
    pub to_upload: Vec<LocalEntry>,
    pub to_download: Vec<LibraryAsset>,
    pub to_delete_local: Vec<LocalEntry>,
    pub renames: Vec<Rename>,
    pub remote_unhashed: usize,
}

/// The checksums of the local files.
fn folder_checksums(entries: &Vec<LocalEntry>) -> (r: StringHashSet)
    ensures
        forall|c: Seq<char>| #[trigger] r@.contains(c) <==> in_folder(entries@, c),
{
    let mut set: StringHashSet = StringHashSet::new();
    let mut i: usize = 0;
    assert(entries@.take(0) =~= Seq::<LocalEntry>::empty());
    while i < entries.len()
        invariant
            i <= entries.len(),
            forall|c: Seq<char>|
                #[trigger] set@.contains(c) <==> in_folder(entries@.take(i as int), c),
        decreases entries.len() - i,
    {
        proof {
            assert forall|c: Seq<char>| #[trigger]
                in_folder(entries@.take(i + 1), c) <==> in_folder(entries@.take(i as int), c)
                    || entries@[i as int].checksum@ == c by {
                seqs::has_step(entries@, |e: LocalEntry| e.checksum@ == c, i as int);
            }
        }
        let _fresh: bool = set.insert(entries[i].checksum.clone());
        i = i + 1;
    }
    assert(entries@.take(i as int) =~= entries@);
    set
}

/// The paths of the local files.
fn folder_paths(entries: &Vec<LocalEntry>) -> (r: StringHashSet)
    ensures
        forall|p: Seq<char>| #[trigger] r@.contains(p) <==> at_path(entries@, p),
{
    let mut set: StringHashSet = StringHashSet::new();
    let mut i: usize = 0;
    assert(entries@.take(0) =~= Seq::<LocalEntry>::empty());
    while i < entries.len()
        invariant
            i <= entries.len(),
            forall|p: Seq<char>|
                #[trigger] set@.contains(p) <==> at_path(entries@.take(i as int), p),
        decreases entries.len() - i,
    {
        proof {
            assert forall|p: Seq<char>| #[trigger]
                at_path(entries@.take(i + 1), p) <==> at_path(entries@.take(i as int), p)
                    || entries@[i as int].local.path@ == p by {
                seqs::has_step(entries@, |e: LocalEntry| e.local.path@ == p, i as int);
            }
        }
        let _fresh: bool = set.insert(entries[i].local.path.clone());
        i = i + 1;
    }
    assert(entries@.take(i as int) =~= entries@);
    set
}

/// Whether a record's file is gone from the folder.
fn orphaned(
    record: &FolderRecord,
    paths: &StringHashSet,
    album_id: &String,
    Ghost(entries): Ghost<Seq<LocalEntry>>,
) -> (r: bool)
    requires
        forall|p: Seq<char>| #[trigger] paths@.contains(p) <==> at_path(entries, p),
    ensures
        r == is_orphan(*record, entries, album_id@),
{
    if paths.contains(record.path.as_str()) || record.on_disk {
        return false;
    }
    match &record.album_id {
        Some(id) => *id == *album_id,
        None => true,
    }
}

/// For every checksum of a gone file the first path it is gone from.
fn gone_paths(
    records: &Vec<FolderRecord>,
    paths: &StringHashSet,
    album_id: &String,
    Ghost(entries): Ghost<Seq<LocalEntry>>,
) -> (r: StringHashMap<String>)
    requires
        forall|p: Seq<char>| #[trigger] paths@.contains(p) <==> at_path(entries, p),
    ensures
        forall|c: Seq<char>|
            #[trigger] r@.contains_key(c) <==> is_gone(records@, entries, album_id@, c),
        forall|c: Seq<char>|
            r@.contains_key(c) ==> (#[trigger] r@[c])@ == old_path_of(
                records@,
                entries,
                album_id@,
                c,
            )->0.path@,
{
    let mut map: StringHashMap<String> = StringHashMap::new();
    let mut i: usize = records.len();
    proof {
        assert forall|c: Seq<char>| old_path_of(
            records@.skip(i as int),
            entries,
            album_id@,
            c,
        ) is None by {
            seqs::first_match_ends(
                records@,
                |r: FolderRecord| is_orphan(r, entries, album_id@) && r.checksum@ == c,
            );
        }
    }
    while i > 0
        invariant
            i <= records.len(),
            forall|p: Seq<char>| #[trigger] paths@.contains(p) <==> at_path(entries, p),
            forall|c: Seq<char>|
                #[trigger] map@.contains_key(c) <==> old_path_of(
                    records@.skip(i as int),
                    entries,
                    album_id@,
                    c,
                ) is Some,
            forall|c: Seq<char>|
                map@.contains_key(c) ==> (#[trigger] map@[c])@ == old_path_of(
                    records@.skip(i as int),
                    entries,
                    album_id@,
                    c,
                )->0.path@,
        decreases i,
    {
        i = i - 1;
        let record: &FolderRecord = &records[i];
        proof {
            assert forall|c: Seq<char>| #[trigger]
                old_path_of(records@.skip(i as int), entries, album_id@, c) == (if is_orphan(
                    *record,
                    entries,
                    album_id@,
                ) && record.checksum@ == c {
                    Some(*record)
                } else {
                    old_path_of(records@.skip(i + 1), entries, album_id@, c)
                }) by {
                seqs::first_match_step(
                    records@,
                    |r: FolderRecord| is_orphan(r, entries, album_id@) && r.checksum@ == c,
                    i as int,
                );
            }
        }
        if orphaned(record, paths, album_id, Ghost(entries)) {
            map.insert(record.checksum.clone(), record.path.clone());
        }
    }
    proof {
        assert(records@.skip(0) =~= records@);
        assert forall|c: Seq<char>| #[trigger]
            map@.contains_key(c) <==> is_gone(records@, entries, album_id@, c) by {
            seqs::first_match_is_a_match(
                records@,
                |r: FolderRecord| is_orphan(r, entries, album_id@) && r.checksum@ == c,
            );
        }
    }
    map
}

/// For every checksum in the album the position of the first asset that has it.
fn album_positions(remote: &Vec<LibraryAsset>) -> (r: StringHashMap<usize>)
    ensures
        forall|c: Seq<char>| #[trigger] r@.contains_key(c) <==> in_album(remote@, c),
        forall|c: Seq<char>|
            r@.contains_key(c) ==> (#[trigger] r@[c]) < remote.len() && seqs::first_match(
                remote@,
                |a: LibraryAsset| has_checksum(a, c),
            ) == Some(remote@[r@[c] as int]),
{
    let mut map: StringHashMap<usize> = StringHashMap::new();
    let mut i: usize = remote.len();
    proof {
        assert forall|c: Seq<char>| first_with(remote@.skip(i as int), c) is None by {
            seqs::first_match_ends(remote@, |a: LibraryAsset| has_checksum(a, c));
        }
    }
    while i > 0
        invariant
            i <= remote.len(),
            forall|c: Seq<char>|
                #[trigger] map@.contains_key(c) <==> first_with(remote@.skip(i as int), c) is Some,
            forall|c: Seq<char>|
                map@.contains_key(c) ==> (#[trigger] map@[c]) < remote.len() && first_with(
                    remote@.skip(i as int),
                    c,
                ) == Some(remote@[map@[c] as int]),
        decreases i,
    {
        i = i - 1;
        proof {
            assert forall|c: Seq<char>| #[trigger]
                first_with(remote@.skip(i as int), c) == (if has_checksum(remote@[i as int], c) {
                    Some(remote@[i as int])
                } else {
                    first_with(remote@.skip(i + 1), c)
                }) by {
                seqs::first_match_step(
                    remote@,
                    |a: LibraryAsset| has_checksum(a, c),
                    i as int,
                );
            }
        }
        if let Some(c) = &remote[i].checksum {
            if !c.as_str().is_empty() {
                map.insert(c.clone(), i);
            }
        }
    }
    proof {
        assert(remote@.skip(0) =~= remote@);
        assert forall|c: Seq<char>| #[trigger]
            map@.contains_key(c) <==> in_album(remote@, c) by {
            seqs::first_match_is_a_match(remote@, |a: LibraryAsset| has_checksum(a, c));
        }
    }
    map
}

/// The first asset of the album with the given checksum.
pub open spec fn first_with(remote: Seq<LibraryAsset>, checksum: Seq<char>) -> Option<LibraryAsset> {
    seqs::first_match(remote, |a: LibraryAsset| has_checksum(a, checksum))
}

/// The assets to download, and how many could not be matched.
fn downloads(
    rules: &FolderRules,
    remote: &Vec<LibraryAsset>,
    checksums: &StringHashSet,
    gone: &StringHashMap<String>,
    Ghost(entries): Ghost<Seq<LocalEntry>>,
    Ghost(records): Ghost<Seq<FolderRecord>>,
    Ghost(album): Ghost<Seq<char>>,
) -> (r: (Vec<LibraryAsset>, usize))
    requires
        forall|c: Seq<char>| #[trigger] checksums@.contains(c) <==> in_folder(entries, c),
        forall|c: Seq<char>|
            #[trigger] gone@.contains_key(c) <==> is_gone(records, entries, album, c),
    ensures
        r.0@ == remote@.filter(
            |a: LibraryAsset| wants_download(a, *rules, entries, records, album),
        ),
        r.1 == unhashed_count(remote@),
{
    let ghost keep = |a: LibraryAsset| wants_download(a, *rules, entries, records, album);
    let ghost bare = |a: LibraryAsset| !is_hashed(a);
    let mut out: Vec<LibraryAsset> = Vec::new();
    let mut unhashed: usize = 0;
    let mut i: usize = 0;
    proof {
        seqs::filter_ends(remote@, keep);
        seqs::filter_ends(remote@, bare);
    }
    while i < remote.len()
        invariant
            i <= remote.len(),
            forall|c: Seq<char>| #[trigger] checksums@.contains(c) <==> in_folder(entries, c),
            forall|c: Seq<char>|
                #[trigger] gone@.contains_key(c) <==> is_gone(records, entries, album, c),
            keep == |a: LibraryAsset| wants_download(a, *rules, entries, records, album),
            bare == |a: LibraryAsset| !is_hashed(a),
            out@ == remote@.take(i as int).filter(keep),
            unhashed == remote@.take(i as int).filter(bare).len(),
            unhashed <= i,
        decreases remote.len() - i,
    {
        proof {
            seqs::filter_step(remote@, keep, i as int);
            seqs::filter_step(remote@, bare, i as int);
        }
        let asset: &LibraryAsset = &remote[i];
        let mut hashed: bool = false;
        if let Some(c) = &asset.checksum {
            if !c.as_str().is_empty() {
                hashed = true;
                if !checksums.contains(c.as_str()) && !(rules.delete_folder_to_album
                    && gone.contains_key(c.as_str())) {
                    out.push(asset.clone());
                }
            }
        }
        if !hashed {
            unhashed = unhashed + 1;
        }
        i = i + 1;
    }
    (out, unhashed)
}

/// Compares an album with the files of its folder.
///
/// `records` are the records of the sync index below the folder, `index` the whole index.
pub fn compare_album_with_folder(
    album_id: &str,
    rules: &FolderRules,
    manual_sync: bool,
    remote: &Vec<LibraryAsset>,
    entries: &Vec<LocalEntry>,
    records: &Vec<FolderRecord>,
    index: &SyncIndex,
) -> (r: AlbumComparison)
    ensures
        r.remote_unhashed == unhashed_count(remote@),
        r.to_download@ == remote@.filter(
            |a: LibraryAsset| wants_download(a, *rules, entries@, records@, album_id@),
        ),
        r.to_upload@ == entries@.filter(
            |e: LocalEntry| wants_upload(e, *rules, manual_sync, remote@, *index, album_id@),
        ),
        r.to_delete_local@ == entries@.filter(
            |e: LocalEntry| wants_local_deletion(e, *rules, remote@, *index, album_id@),
        ),
        r.renames@.len() == rename_positions(
            entries@.len() as int,
            remote@,
            entries@,
            records@,
            album_id@,
        ).len(),
        forall|k: int|
            0 <= k < r.renames@.len() ==> moves_record(
                #[trigger] r.renames@[k],
                rename_positions(
                    entries@.len() as int,
                    remote@,
                    entries@,
                    records@,
                    album_id@,
                )[k],
                entries@,
                records@,
                album_id@,
            ),
{
    let album: String = owned(album_id);
    let checksums: StringHashSet = folder_checksums(entries);
    let paths: StringHashSet = folder_paths(entries);
    let mut gone: StringHashMap<String> = gone_paths(records, &paths, &album, Ghost(entries@));
    let (to_download, remote_unhashed) = downloads(
        rules,
        remote,
        &checksums,
        &gone,
        Ghost(entries@),
        Ghost(records@),
        Ghost(album_id@),
    );
    let in_remote: StringHashMap<usize> = album_positions(remote);
    let known: StringHashMap<SyncRecord> = index.by_path();

    let ghost up = |e: LocalEntry|
        wants_upload(e, *rules, manual_sync, remote@, *index, album_id@);
    let ghost down = |e: LocalEntry| wants_local_deletion(e, *rules, remote@, *index, album_id@);
    let mut to_upload: Vec<LocalEntry> = Vec::new();
    let mut to_delete_local: Vec<LocalEntry> = Vec::new();
    let mut renames: Vec<Rename> = Vec::new();
    let mut i: usize = 0;
    proof {
        seqs::filter_ends(entries@, up);
        seqs::filter_ends(entries@, down);
        assert(entries@.take(0) =~= Seq::<LocalEntry>::empty());
    }
    while i < entries.len()
        invariant
            i <= entries.len(),
            album@ == album_id@,
            remote_unhashed == unhashed_count(remote@),
            up == |e: LocalEntry|
                wants_upload(e, *rules, manual_sync, remote@, *index, album_id@),
            down == |e: LocalEntry|
                wants_local_deletion(e, *rules, remote@, *index, album_id@),
            forall|c: Seq<char>| #[trigger] in_remote@.contains_key(c) <==> in_album(remote@, c),
            forall|p: Seq<char>| #[trigger] known@.contains_key(p) <==> index.record(p) is Some,
            forall|p: Seq<char>|
                known@.contains_key(p) ==> #[trigger] known@[p] == index.record(p)->0,
            forall|c: Seq<char>|
                #[trigger] gone@.contains_key(c) <==> is_gone(records@, entries@, album_id@, c)
                    && !(in_album(remote@, c) && in_folder(entries@.take(i as int), c)),
            forall|c: Seq<char>|
                gone@.contains_key(c) ==> (#[trigger] gone@[c])@ == old_path_of(
                    records@,
                    entries@,
                    album_id@,
                    c,
                )->0.path@,
            to_upload@ == entries@.take(i as int).filter(up),
            to_delete_local@ == entries@.take(i as int).filter(down),
            renames@.len() == rename_positions(
                i as int,
                remote@,
                entries@,
                records@,
                album_id@,
            ).len(),
            forall|k: int|
                0 <= k < renames@.len() ==> moves_record(
                    #[trigger] renames@[k],
                    rename_positions(i as int, remote@, entries@, records@, album_id@)[k],
                    entries@,
                    records@,
                    album_id@,
                ),
        decreases entries.len() - i,
    {
        let entry: &LocalEntry = &entries[i];
        proof {
            seqs::filter_step(entries@, up, i as int);
            seqs::filter_step(entries@, down, i as int);
            assert forall|c: Seq<char>| #[trigger]
                in_folder(entries@.take(i + 1), c) <==> in_folder(entries@.take(i as int), c)
                    || entry.checksum@ == c by {
                seqs::has_step(entries@, |e: LocalEntry| e.checksum@ == c, i as int);
            }
            seqs::first_match_is_a_match(
                records@,
                |r: FolderRecord|
                    is_orphan(r, entries@, album_id@) && r.checksum@ == entry.checksum@,
            );
        }
        if in_remote.contains_key(entry.checksum.as_str()) {
            let old: Option<String> = match gone.get(entry.checksum.as_str()) {
                Some(p) => Some(p.clone()),
                None => None,
            };
            if let Some(old_path) = old {
                gone.remove(entry.checksum.as_str());
                renames.push(
                    Rename {
                        old_path,
                        new_path: entry.local.path.clone(),
                        checksum: entry.checksum.clone(),
                    },
                );
            }
        } else {
            let synced: bool = match known.get(entry.local.path.as_str()) {
                Some(record) => record.checksum == entry.checksum && match &record.album_id {
                    Some(id) => *id == album,
                    None => true,
                },
                None => false,
            };
            if synced {
                if remote_unhashed == 0 {
                    if rules.delete_album_to_folder && ALBUM_TO_FOLDER_TRASH_AVAILABLE {
                        to_delete_local.push(entry.clone());
                    } else if manual_sync {
                        to_upload.push(entry.clone());
                    }
                }
            } else {
                to_upload.push(entry.clone());
            }
        }
        i = i + 1;
    }
    AlbumComparison { to_upload, to_download, to_delete_local, renames, remote_unhashed }
}

/// An asset with the given id is in the list.
pub open spec fn lists_id(assets: Seq<LibraryAsset>, id: Seq<char>) -> bool {
    seqs::has(assets, |a: LibraryAsset| a.id@ == id)
}

/// The assets to delete from the album for a list of records: for each gone file the first asset
/// with its content, no asset twice.
pub open spec fn deletions_for(
    records: Seq<FolderRecord>,
    remote: Seq<LibraryAsset>,
    entries: Seq<LocalEntry>,
    album: Seq<char>,
) -> Seq<LibraryAsset>
    decreases records.len(),
{
    if records.len() == 0 {
        Seq::empty()
    } else {
        let front = deletions_for(records.drop_last(), remote, entries, album);
        let record = records.last();
        match first_with(remote, record.checksum@) {
            Some(asset) => if is_orphan(record, entries, album) && !lists_id(front, asset.id@) {
                front.push(asset)
            } else {
                front
            },
            None => front,
        }
    }
}

/// The assets whose file is gone from the folder, where the folder's rules delete them.
///
/// `records` are the records below the folder once the renames of the comparison have been
/// carried out.
pub fn remote_deletions(
    album_id: &str,
    rules: &FolderRules,
    remote: &Vec<LibraryAsset>,
    entries: &Vec<LocalEntry>,
    records: &Vec<FolderRecord>,
) -> (r: Vec<LibraryAsset>)
    ensures
        rules.delete_folder_to_album ==> r@ == deletions_for(
            records@,
            remote@,
            entries@,
            album_id@,
        ),
        !rules.delete_folder_to_album ==> r@.len() == 0,
{
    let mut out: Vec<LibraryAsset> = Vec::new();
    if !rules.delete_folder_to_album {
        return out;
    }
    let album: String = owned(album_id);
    let paths: StringHashSet = folder_paths(entries);
    let in_remote: StringHashMap<usize> = album_positions(remote);
    let mut seen: StringHashSet = StringHashSet::new();
    let mut i: usize = 0;
    assert(records@.take(0) =~= Seq::<FolderRecord>::empty());
    while i < records.len()
        invariant
            i <= records.len(),
            album@ == album_id@,
            forall|p: Seq<char>| #[trigger] paths@.contains(p) <==> at_path(entries@, p),
            forall|c: Seq<char>| #[trigger] in_remote@.contains_key(c) <==> in_album(remote@, c),
            forall|c: Seq<char>|
                in_remote@.contains_key(c) ==> (#[trigger] in_remote@[c]) < remote.len()
                    && first_with(remote@, c) == Some(remote@[in_remote@[c] as int]),
            out@ == deletions_for(records@.take(i as int), remote@, entries@, album_id@),
            forall|id: Seq<char>| #[trigger] seen@.contains(id) <==> lists_id(out@, id),
        decreases records.len() - i,
    {
        let record: &FolderRecord = &records[i];
        proof {
            assert(records@.take(i + 1).drop_last() =~= records@.take(i as int));
            seqs::first_match_is_a_match(
                remote@,
                |a: LibraryAsset| has_checksum(a, record.checksum@),
            );
        }
        if orphaned(record, &paths, &album, Ghost(entries@)) {
            if let Some(at) = in_remote.get(record.checksum.as_str()) {
                let asset: &LibraryAsset = &remote[*at];
                if seen.insert(asset.id.clone()) {
                    let ghost before = out@;
                    out.push(asset.clone());
                    proof {
                        assert forall|id: Seq<char>| #[trigger]
                            lists_id(out@, id) <==> lists_id(before, id) || asset.id@ == id by {
                            let pass = |a: LibraryAsset| a.id@ == id;
                            seqs::has_step(out@, pass, before.len() as int);
                            assert(out@.take(before.len() as int) =~= before);
                            assert(out@.take(before.len() as int + 1) =~= out@);
                        }
                    }
                }
            }
        }
        i = i + 1;
    }
    assert(records@.take(i as int) =~= records@);
    out
}

/// The key under which the deletion of a local file is confirmed.
pub open spec fn local_key(album: Seq<char>, checksum: Seq<char>) -> Seq<char> {
    "local:"@ + album + ":"@ + checksum
}

/// The key under which the deletion of content from the album is confirmed.
pub open spec fn remote_key(album: Seq<char>, checksum: Seq<char>) -> Seq<char> {
    "remote:"@ + album + ":"@ + checksum
}

/// The key under which the deletion of an asset is confirmed: by content, else by id.
pub open spec fn asset_key(album: Seq<char>, asset: LibraryAsset) -> Seq<char> {
    match asset.checksum {
        Some(c) => remote_key(album, c@),
        None => "remote:"@ + album + ":id:"@ + asset.id@,
    }
}

fn key_text(kind: &str, album_id: &str, middle: &str, name: &str) -> (r: String)
    ensures
        r@ == kind@ + album_id@ + middle@ + name@,
{
    let mut out: String = concat3(kind, album_id, middle);
    out.append(name);
    out
}

/// The keys to confirm before local files are deleted: none for a small batch.
pub fn local_confirmation_keys(album_id: &str, entries: &Vec<LocalEntry>) -> (r: Vec<String>)
    ensures
        entries@.len() <= UNCONFIRMED_DELETIONS ==> r@.len() == 0,
        entries@.len() > UNCONFIRMED_DELETIONS ==> text::views(r@) == entries@.map_values(
            |e: LocalEntry| local_key(album_id@, e.checksum@),
        ),
{
    let mut out: Vec<String> = Vec::new();
    if entries.len() <= UNCONFIRMED_DELETIONS {
        return out;
    }
    let mut i: usize = 0;
    while i < entries.len()
        invariant
            i <= entries.len(),
            out.len() == i,
            forall|k: int|
                0 <= k < i ==> (#[trigger] out@[k])@ == local_key(album_id@, entries@[k].checksum@),
        decreases entries.len() - i,
    {
        out.push(key_text("local:", album_id, ":", entries[i].checksum.as_str()));
        i = i + 1;
    }
    assert(text::views(out@) =~= entries@.map_values(
        |e: LocalEntry| local_key(album_id@, e.checksum@),
    ));
    out
}

/// The keys to confirm before assets are deleted from the album: none for a small batch.
pub fn remote_confirmation_keys(album_id: &str, assets: &Vec<LibraryAsset>) -> (r: Vec<String>)
    ensures
        assets@.len() <= UNCONFIRMED_DELETIONS ==> r@.len() == 0,
        assets@.len() > UNCONFIRMED_DELETIONS ==> text::views(r@) == assets@.map_values(
            |a: LibraryAsset| asset_key(album_id@, a),
        ),
{
    let mut out: Vec<String> = Vec::new();
    if assets.len() <= UNCONFIRMED_DELETIONS {
        return out;
    }
    let mut i: usize = 0;
    while i < assets.len()
        invariant
            i <= assets.len(),
            out.len() == i,
            forall|k: int|
                0 <= k < i ==> (#[trigger] out@[k])@ == asset_key(album_id@, assets@[k]),
        decreases assets.len() - i,
    {
        let key: String = match &assets[i].checksum {
            Some(c) => key_text("remote:", album_id, ":", c.as_str()),
            None => key_text("remote:", album_id, ":id:", assets[i].id.as_str()),
        };
        out.push(key);
        i = i + 1;
    }
    assert(text::views(out@) =~= assets@.map_values(|a: LibraryAsset| asset_key(album_id@, a)));
    out
}

/// The items whose answer is yes; an item without an answer stays out.
pub open spec fn confirmed<T>(items: Seq<T>, answers: Seq<bool>) -> Seq<T>
    decreases items.len(),
{
    if items.len() == 0 {
        Seq::empty()
    } else {
        let front = confirmed(items.drop_last(), answers);
        let n = items.len() - 1;
        if n < answers.len() && answers[n] {
            front.push(items.last())
        } else {
            front
        }
    }
}

/// What is left of a batch of deletions: all of a small one, the confirmed part of a large one.
pub open spec fn after_confirmation<T>(items: Seq<T>, answers: Seq<bool>) -> Seq<T> {
    if items.len() <= UNCONFIRMED_DELETIONS {
        items
    } else {
        confirmed(items, answers)
    }
}

fn keep_confirmed<T: Clone>(items: Vec<T>, answers: &Vec<bool>) -> (r: Vec<T>)
    requires
        forall|a: T, b: T| call_ensures(T::clone, (&a,), b) ==> a == b,
    ensures
        r@ == after_confirmation(items@, answers@),
{
    if items.len() <= UNCONFIRMED_DELETIONS {
        return items;
    }
    let mut out: Vec<T> = Vec::new();
    let mut i: usize = 0;
    assert(items@.take(0) =~= Seq::<T>::empty());
    while i < items.len()
        invariant
            i <= items.len(),
            forall|a: T, b: T| call_ensures(T::clone, (&a,), b) ==> a == b,
            out@ == confirmed(items@.take(i as int), answers@),
        decreases items.len() - i,
    {
        assert(items@.take(i + 1).drop_last() =~= items@.take(i as int));
        if i < answers.len() && answers[i] {
            out.push(items[i].clone());
        }
        i = i + 1;
    }
    assert(items@.take(i as int) =~= items@);
    out
}

/// The local files of the folder that the index knows, by the key of their recorded content.
pub open spec fn recorded_keys(
    entries: Seq<LocalEntry>,
    index: SyncIndex,
    album: Seq<char>,
) -> Seq<Seq<char>>
    decreases entries.len(),
{
    if entries.len() == 0 {
        Seq::empty()
    } else {
        let front = recorded_keys(entries.drop_last(), index, album);
        match index.record(entries.last().local.path@) {
            Some(record) => front.push(remote_key(album, record.checksum@)),
            None => front,
        }
    }
}

/// The keys of the album's content, for local deletions that are no longer due.
pub open spec fn album_keys(remote: Seq<LibraryAsset>, album: Seq<char>) -> Seq<Seq<char>>
    decreases remote.len(),
{
    if remote.len() == 0 {
        Seq::empty()
    } else {
        let front = album_keys(remote.drop_last(), album);
        if is_hashed(remote.last()) {
            front.push(local_key(album, remote.last().checksum->0@))
        } else {
            front
        }
    }
}

/// The confirmations to forget: local deletions of content that is in the album, and album
/// deletions of content that is to be uploaded or that the index records at a listed path.
pub fn revived_keys(
    album_id: &str,
    remote: &Vec<LibraryAsset>,
    to_upload: &Vec<LocalEntry>,
    entries: &Vec<LocalEntry>,
    index: &SyncIndex,
) -> (r: Vec<String>)
    ensures
        text::views(r@) == album_keys(remote@, album_id@) + to_upload@.map_values(
            |e: LocalEntry| remote_key(album_id@, e.checksum@),
        ) + recorded_keys(entries@, *index, album_id@),
{
    let mut out: Vec<String> = Vec::new();
    let mut i: usize = 0;
    proof {
        assert(remote@.take(0) =~= Seq::<LibraryAsset>::empty());
        assert(text::views(out@) =~= Seq::<Seq<char>>::empty());
    }
    while i < remote.len()
        invariant
            i <= remote.len(),
            text::views(out@) == album_keys(remote@.take(i as int), album_id@),
        decreases remote.len() - i,
    {
        assert(remote@.take(i + 1).drop_last() =~= remote@.take(i as int));
        let ghost before = out@;
        if let Some(c) = &remote[i].checksum {
            if !c.as_str().is_empty() {
                let key: String = key_text("local:", album_id, ":", c.as_str());
                out.push(key);
                assert(text::views(out@) =~= text::views(before).push(key@));
            }
        }
        i = i + 1;
    }
    assert(remote@.take(i as int) =~= remote@);
    let ghost first = text::views(out@);
    let ghost ups = to_upload@.map_values(|e: LocalEntry| remote_key(album_id@, e.checksum@));
    let mut j: usize = 0;
    assert(first + ups.take(0) =~= first);
    while j < to_upload.len()
        invariant
            j <= to_upload.len(),
            ups == to_upload@.map_values(|e: LocalEntry| remote_key(album_id@, e.checksum@)),
            text::views(out@) == first + ups.take(j as int),
        decreases to_upload.len() - j,
    {
        let key: String = key_text("remote:", album_id, ":", to_upload[j].checksum.as_str());
        let ghost before = out@;
        out.push(key);
        proof {
            assert(text::views(out@) =~= text::views(before).push(key@));
            assert(ups.take(j + 1) =~= ups.take(j as int).push(key@));
            assert(first + ups.take(j + 1) =~= (first + ups.take(j as int)).push(key@));
        }
        j = j + 1;
    }
    assert(ups.take(j as int) =~= ups);
    let ghost second = first + ups;
    let known: StringHashMap<SyncRecord> = index.by_path();
    let mut k: usize = 0;
    proof {
        assert(entries@.take(0) =~= Seq::<LocalEntry>::empty());
        assert(second + Seq::<Seq<char>>::empty() =~= second);
    }
    while k < entries.len()
        invariant
            k <= entries.len(),
            forall|p: Seq<char>| #[trigger] known@.contains_key(p) <==> index.record(p) is Some,
            forall|p: Seq<char>|
                known@.contains_key(p) ==> #[trigger] known@[p] == index.record(p)->0,
            text::views(out@) == second + recorded_keys(
                entries@.take(k as int),
                *index,
                album_id@,
            ),
        decreases entries.len() - k,
    {
        assert(entries@.take(k + 1).drop_last() =~= entries@.take(k as int));
        let ghost before = out@;
        if let Some(record) = known.get(entries[k].local.path.as_str()) {
            let key: String = key_text("remote:", album_id, ":", record.checksum.as_str());
            out.push(key);
            proof {
                let tail = recorded_keys(entries@.take(k as int), *index, album_id@);
                assert(text::views(out@) =~= text::views(before).push(key@));
                assert(second + tail.push(key@) =~= (second + tail).push(key@));
            }
        }
        k = k + 1;
    }
    assert(entries@.take(k as int) =~= entries@);
    out
}

/// Puts the diff together: the comparison, the confirmed deletions, and the folder's direction.
///
/// The answers are those to the confirmation keys of the two lists of deletions.
pub fn finish_diff(
    rules: &FolderRules,
    comparison: AlbumComparison,
    to_delete_remote: Vec<LibraryAsset>,
    local_answers: &Vec<bool>,
    remote_answers: &Vec<bool>,
) -> (r: AlbumDiff)
    ensures
        r.to_upload@ == if rules.sync_method == FolderSyncMethod::DownloadOnly {
            Seq::empty()
        } else {
            comparison.to_upload@
        },
        r.to_download@ == if rules.sync_method == FolderSyncMethod::UploadOnly {
            Seq::empty()
        } else {
            comparison.to_download@
        },
        r.to_delete_local@ == after_confirmation(comparison.to_delete_local@, local_answers@),
        r.to_delete_remote@ == after_confirmation(to_delete_remote@, remote_answers@),
        r.remote_unhashed == comparison.remote_unhashed,
{
    let mut to_upload: Vec<LocalEntry> = comparison.to_upload;
    let mut to_download: Vec<LibraryAsset> = comparison.to_download;
    match rules.sync_method {
        FolderSyncMethod::UploadOnly => {
            to_download.clear();
        },
        FolderSyncMethod::DownloadOnly => {
            to_upload.clear();
        },
        FolderSyncMethod::Full => {},
    }
    AlbumDiff {
        to_upload,
        to_download,
        to_delete_remote: keep_confirmed(to_delete_remote, remote_answers),
        to_delete_local: keep_confirmed(comparison.to_delete_local, local_answers),
        remote_unhashed: comparison.remote_unhashed,
    }
}

/// Some rename starts at the given path.
pub open spec fn moved_away(renames: Seq<Rename>, file: Seq<char>) -> bool {
    seqs::has(renames, |m: Rename| m.old_path@ == file)
}

/// Some rename leads to the given path.
pub open spec fn moved_here(renames: Seq<Rename>, file: Seq<char>) -> bool {
    seqs::has(renames, |m: Rename| m.new_path@ == file)
}

/// The record names the album of a former record, or none where there was no former record.
pub open spec fn keeps_album(record: SyncRecord, former: Option<SyncRecord>) -> bool {
    match former {
        Some(was) => record.album_id == was.album_id && record.album_name == was.album_name,
        None => record.album_id is None && record.album_name is None,
    }
}

/// The record is the one that rename `j` leaves at a path: it has the content that was moved and,
/// unless an earlier rename touched the old path, the album recorded there.
pub open spec fn brought_by(
    before: SyncIndex,
    renames: Seq<Rename>,
    j: int,
    file: Seq<char>,
    record: SyncRecord,
) -> bool {
    &&& renames[j].new_path@ == file
    &&& renames[j].checksum@ == record.checksum@
    &&& !moved_away(renames.take(j), renames[j].old_path@) && !moved_here(
        renames.take(j),
        renames[j].old_path@,
    ) ==> keeps_album(record, before.record(renames[j].old_path@))
}

/// Some rename leaves the record at a path.
pub open spec fn brings(
    before: SyncIndex,
    renames: Seq<Rename>,
    file: Seq<char>,
    record: SyncRecord,
) -> bool {
    exists|j: int| 0 <= j < renames.len() && #[trigger] brought_by(before, renames, j, file, record)
}

/// How an index stands after a list of renames: paths that no rename touches keep their record,
/// a path that is only left has none, and a path that is only moved to records what was brought.
pub open spec fn is_renamed(before: SyncIndex, after: SyncIndex, renames: Seq<Rename>) -> bool {
    forall|p: Seq<char>|
        {
            &&& !moved_away(renames, p) && !moved_here(renames, p) ==> after.record(p)
                == before.record(p)
            &&& moved_away(renames, p) && !moved_here(renames, p) ==> after.record(p) is None
            &&& moved_here(renames, p) && !moved_away(renames, p) ==> (#[trigger] after.record(
                p,
            )) is Some && brings(before, renames, p, after.record(p)->0)
        }
}

proof fn rename_step(renames: Seq<Rename>, i: int, p: Seq<char>)
    requires
        0 <= i < renames.len(),
    ensures
        moved_away(renames.take(i + 1), p) <==> moved_away(renames.take(i), p)
            || renames[i].old_path@ == p,
        moved_here(renames.take(i + 1), p) <==> moved_here(renames.take(i), p)
            || renames[i].new_path@ == p,
{
    seqs::has_step(renames, |m: Rename| m.old_path@ == p, i);
    seqs::has_step(renames, |m: Rename| m.new_path@ == p, i);
}

proof fn one_rename_more(
    start: SyncIndex,
    before: SyncIndex,
    after: SyncIndex,
    renames: Seq<Rename>,
    i: int,
)
    requires
        0 <= i < renames.len(),
        is_renamed(start, before, renames.take(i)),
        after.record(renames[i].new_path@) matches Some(record) && record.checksum@
            == renames[i].checksum@ && keeps_album(record, before.record(renames[i].old_path@)),
        renames[i].old_path@ != renames[i].new_path@ ==> after.record(renames[i].old_path@) is None,
        forall|p: Seq<char>|
            p != renames[i].old_path@ && p != renames[i].new_path@ ==> #[trigger] after.record(p)
                == before.record(p),
    ensures
        is_renamed(start, after, renames.take(i + 1)),
{
    let few = renames.take(i);
    let all = renames.take(i + 1);
    assert forall|p: Seq<char>|
        {
            &&& !moved_away(all, p) && !moved_here(all, p) ==> after.record(p) == start.record(p)
            &&& moved_away(all, p) && !moved_here(all, p) ==> after.record(p) is None
            &&& moved_here(all, p) && !moved_away(all, p) ==> (#[trigger] after.record(p)) is Some
                && brings(start, all, p, after.record(p)->0)
        } by {
        rename_step(renames, i, p);
        let b = before.record(p);
        if moved_here(all, p) && !moved_away(all, p) {
            if renames[i].new_path@ == p {
                let old = before.record(renames[i].old_path@);
                assert(all.take(i) =~= few);
                assert(brought_by(start, all, i, p, after.record(p)->0));
            } else {
                let j = choose|j: int|
                    0 <= j < few.len() && #[trigger] brought_by(start, few, j, p, b->0);
                assert(all.take(j) =~= few.take(j));
                assert(all[j] == few[j]);
                assert(brought_by(start, all, j, p, after.record(p)->0));
            }
        }
    }
}

/// Carries out the renames of a comparison on the index, one after another.
pub fn apply_renames(index: &mut SyncIndex, renames: &Vec<Rename>)
    ensures
        is_renamed(*old(index), *final(index), renames@),
{
    let ghost start = *index;
    let mut i: usize = 0;
    assert(renames@.take(0) =~= Seq::<Rename>::empty());
    while i < renames.len()
        invariant
            i <= renames.len(),
            is_renamed(start, *index, renames@.take(i as int)),
        decreases renames.len() - i,
    {
        let ghost before = *index;
        let m: &Rename = &renames[i];
        migrate_renamed_record(
            index,
            m.old_path.as_str(),
            m.new_path.as_str(),
            m.checksum.as_str(),
        );
        proof {
            one_rename_more(start, before, *index, renames@, i as int);
        }
        i = i + 1;
    }
    assert(renames@.take(i as int) =~= renames@);
}

/// The records that no rename moved away.
fn unmoved_records(records: &Vec<FolderRecord>, renames: &Vec<Rename>) -> (r: Vec<FolderRecord>)
    ensures
        r@ == records@.filter(|r: FolderRecord| !moved_away(renames@, r.path@)),
{
    let mut gone: StringHashSet = StringHashSet::new();
    let mut i: usize = 0;
    assert(renames@.take(0) =~= Seq::<Rename>::empty());
    while i < renames.len()
        invariant
            i <= renames.len(),
            forall|p: Seq<char>|
                #[trigger] gone@.contains(p) <==> moved_away(renames@.take(i as int), p),
        decreases renames.len() - i,
    {
        proof {
            assert forall|p: Seq<char>| #[trigger]
                moved_away(renames@.take(i + 1), p) <==> moved_away(renames@.take(i as int), p)
                    || renames@[i as int].old_path@ == p by {
                seqs::has_step(renames@, |m: Rename| m.old_path@ == p, i as int);
            }
        }
        let _fresh: bool = gone.insert(renames[i].old_path.clone());
        i = i + 1;
    }
    assert(renames@.take(i as int) =~= renames@);
    let ghost keep = |r: FolderRecord| !moved_away(renames@, r.path@);
    let mut out: Vec<FolderRecord> = Vec::new();
    let mut j: usize = 0;
    proof {
        seqs::filter_ends(records@, keep);
    }
    while j < records.len()
        invariant
            j <= records.len(),
            forall|p: Seq<char>| #[trigger] gone@.contains(p) <==> moved_away(renames@, p),
            keep == |r: FolderRecord| !moved_away(renames@, r.path@),
            out@ == records@.take(j as int).filter(keep),
        decreases records.len() - j,
    {
        proof {
            seqs::filter_step(records@, keep, j as int);
        }
        if !gone.contains(records[j].path.as_str()) {
            out.push(records[j].clone());
        }
        j = j + 1;
    }
    out
}

/// For each key, whether it was asked for in an earlier run.
fn answers_for(keys: &Vec<String>, asked_before: &Vec<String>) -> (r: Vec<bool>)
    ensures
        r@ == text::views(keys@).map_values(|k: Seq<char>| text::views(asked_before@).contains(k)),
{
    let mut known: StringHashSet = StringHashSet::new();
    let mut i: usize = 0;
    while i < asked_before.len()
        invariant
            i <= asked_before.len(),
            forall|k: Seq<char>|
                #[trigger] known@.contains(k) <==> text::views(asked_before@).take(
                    i as int,
                ).contains(k),
        decreases asked_before.len() - i,
    {
        proof {
            let all = text::views(asked_before@);
            assert(all.take(i + 1) =~= all.take(i as int).push(asked_before@[i as int]@));
            assert forall|k: Seq<char>| #[trigger]
                all.take(i + 1).contains(k) <==> all.take(i as int).contains(k)
                    || asked_before@[i as int]@ == k by {
                if all.take(i as int).contains(k) {
                    let at = all.take(i as int).index_of(k);
                    assert(all.take(i + 1)[at] == k);
                }
                if all.take(i + 1).contains(k) {
                    let at = all.take(i + 1).index_of(k);
                    if at < i {
                        assert(all.take(i as int)[at] == k);
                    }
                }
                assert(all.take(i + 1)[i as int] == asked_before@[i as int]@);
            }
        }
        let _fresh: bool = known.insert(asked_before[i].clone());
        i = i + 1;
    }
    proof {
        assert(text::views(asked_before@).take(i as int) =~= text::views(asked_before@));
    }
    let mut out: Vec<bool> = Vec::new();
    let mut j: usize = 0;
    while j < keys.len()
        invariant
            j <= keys.len(),
            forall|k: Seq<char>|
                #[trigger] known@.contains(k) <==> text::views(asked_before@).contains(k),
            out.len() == j,
            forall|n: int|
                0 <= n < j ==> (#[trigger] out@[n]) == text::views(asked_before@).contains(
                    keys@[n]@,
                ),
        decreases keys.len() - j,
    {
        out.push(known.contains(keys[j].as_str()));
        j = j + 1;
    }
    assert(out@ =~= text::views(keys@).map_values(
        |k: Seq<char>| text::views(asked_before@).contains(k),
    ));
    out
}

/// The answers to a list of confirmation keys: yes to those asked for in an earlier run.
pub open spec fn answered(keys: Seq<Seq<char>>, asked_before: Seq<String>) -> Seq<bool> {
    keys.map_values(|k: Seq<char>| text::views(asked_before).contains(k))
}

/// The outcome of a diff: what to do, and what to remember for the next run.
#[derive(Debug, PartialEq, Eq)]
pub struct DiffOutcome {
    pub diff: AlbumDiff,
    /// The renames carried out on the index.
    pub renames: Vec<Rename>,
    /// The confirmations asked for in this run.
    pub asked: Vec<String>,
    /// The confirmations to forget.
    pub forgotten: Vec<String>,
}

/// Compares an album with a watched folder: carries out the renames on the index, and says what to
/// upload, download and delete.
///
/// `asked_before` are the confirmations that earlier runs asked for and that were not forgotten
/// since; a deletion out of a large batch happens only where its confirmation is among them.
pub fn diff_album_vs_folder(
    album_id: &str,
    rules: &FolderRules,
    manual_sync: bool,
    remote: &Vec<LibraryAsset>,
    entries: &Vec<LocalEntry>,
    records: &Vec<FolderRecord>,
    index: &mut SyncIndex,
    asked_before: &Vec<String>,
) -> (r: DiffOutcome)
    ensures
        ({
            let kept = records@.filter(|f: FolderRecord| !moved_away(r.renames@, f.path@));
            let downloads = remote@.filter(
                |a: LibraryAsset| wants_download(a, *rules, entries@, records@, album_id@),
            );
            let uploads = entries@.filter(
                |e: LocalEntry|
                    wants_upload(e, *rules, manual_sync, remote@, *old(index), album_id@),
            );
            let local = entries@.filter(
                |e: LocalEntry| wants_local_deletion(e, *rules, remote@, *old(index), album_id@),
            );
            let gone = if rules.delete_folder_to_album {
                deletions_for(kept, remote@, entries@, album_id@)
            } else {
                Seq::empty()
            };
            let local_keys = if local.len() > UNCONFIRMED_DELETIONS {
                local.map_values(|e: LocalEntry| local_key(album_id@, e.checksum@))
            } else {
                Seq::empty()
            };
            let gone_keys = if gone.len() > UNCONFIRMED_DELETIONS {
                gone.map_values(|a: LibraryAsset| asset_key(album_id@, a))
            } else {
                Seq::empty()
            };
            &&& r.diff.remote_unhashed == unhashed_count(remote@)
            &&& r.diff.to_download@ == if rules.sync_method == FolderSyncMethod::UploadOnly {
                Seq::empty()
            } else {
                downloads
            }
            &&& r.diff.to_upload@ == if rules.sync_method == FolderSyncMethod::DownloadOnly {
                Seq::empty()
            } else {
                uploads
            }
            &&& r.diff.to_delete_local@ == after_confirmation(
                local,
                answered(local_keys, asked_before@),
            )
            &&& r.diff.to_delete_remote@ == after_confirmation(
                gone,
                answered(gone_keys, asked_before@),
            )
            &&& text::views(r.asked@) == local_keys + gone_keys
            &&& text::views(r.forgotten@) == album_keys(remote@, album_id@) + uploads.map_values(
                |e: LocalEntry| remote_key(album_id@, e.checksum@),
            ) + recorded_keys(entries@, *final(index), album_id@)
        }),
        ({
            let positions = rename_positions(
                entries@.len() as int,
                remote@,
                entries@,
                records@,
                album_id@,
            );
            &&& r.renames@.len() == positions.len()
            &&& forall|k: int|
                0 <= k < positions.len() ==> moves_record(
                    #[trigger] r.renames@[k],
                    positions[k],
                    entries@,
                    records@,
                    album_id@,
                )
        }),
        is_renamed(*old(index), *final(index), r.renames@),
{
    let mut comparison: AlbumComparison = compare_album_with_folder(
        album_id,
        rules,
        manual_sync,
        remote,
        entries,
        records,
        index,
    );
    apply_renames(index, &comparison.renames);
    let kept: Vec<FolderRecord> = unmoved_records(records, &comparison.renames);
    let gone: Vec<LibraryAsset> = remote_deletions(album_id, rules, remote, entries, &kept);
    let local_keys: Vec<String> = local_confirmation_keys(album_id, &comparison.to_delete_local);
    let gone_keys: Vec<String> = remote_confirmation_keys(album_id, &gone);
    let local_answers: Vec<bool> = answers_for(&local_keys, asked_before);
    let gone_answers: Vec<bool> = answers_for(&gone_keys, asked_before);
    let forgotten: Vec<String> = revived_keys(
        album_id,
        remote,
        &comparison.to_upload,
        entries,
        index,
    );
    let mut renames: Vec<Rename> = Vec::new();
    let ghost moves = comparison.renames@;
    std::mem::swap(&mut renames, &mut comparison.renames);
    assert(renames@ == moves);
    let mut asked: Vec<String> = local_keys;
    let mut more: Vec<String> = gone_keys;
    proof {
        assert(local_keys@.len() == 0 ==> text::views(local_keys@) =~= Seq::<Seq<char>>::empty());
        assert(gone_keys@.len() == 0 ==> text::views(gone_keys@) =~= Seq::<Seq<char>>::empty());
    }
    asked.append(&mut more);
    assert(text::views(asked@) =~= text::views(local_keys@) + text::views(gone_keys@));
    let diff: AlbumDiff = finish_diff(rules, comparison, gone, &local_answers, &gone_answers);
    DiffOutcome { diff, renames, asked, forgotten }
}

/// Every deletion stems from a gone file: some record of the list is an orphan with its content.
proof fn deletion_has_a_record(
    records: Seq<FolderRecord>,
    remote: Seq<LibraryAsset>,
    entries: Seq<LocalEntry>,
    album: Seq<char>,
    asset: LibraryAsset,
)
    requires
        deletions_for(records, remote, entries, album).contains(asset),
    ensures
        is_hashed(asset),
        remote.contains(asset),
        is_gone(records, entries, album, asset.checksum->0@),
    decreases records.len(),
{
    let front = records.drop_last();
    let before = deletions_for(front, remote, entries, album);
    let here = deletions_for(records, remote, entries, album);
    let k = here.index_of(asset);
    let record = records.last();
    if k < before.len() {
        assert(before[k] == asset);
        deletion_has_a_record(front, remote, entries, album, asset);
        let pass = |r: FolderRecord|
            is_orphan(r, entries, album) && r.checksum@ == asset.checksum->0@;
        let i = choose|i: int| 0 <= i < front.len() && pass(#[trigger] front[i]);
        assert(records[i] == front[i]);
        assert(pass(records[i]));
    } else {
        seqs::first_match_is_a_match(remote, |a: LibraryAsset| has_checksum(a, record.checksum@));
        let pass = |r: FolderRecord|
            is_orphan(r, entries, album) && r.checksum@ == asset.checksum->0@;
        assert(pass(records[records.len() - 1]));
    }
}

/// What is downloaded is never deleted from the album in the same run: no asset to download has
/// the content of an asset to delete. `kept` are the records that the renames leave.
pub proof fn downloads_are_not_deleted(
    rules: FolderRules,
    remote: Seq<LibraryAsset>,
    entries: Seq<LocalEntry>,
    records: Seq<FolderRecord>,
    kept: Seq<FolderRecord>,
    album: Seq<char>,
    fetched: LibraryAsset,
    deleted: LibraryAsset,
)
    requires
        rules.delete_folder_to_album,
        forall|r: FolderRecord| kept.contains(r) ==> records.contains(r),
        wants_download(fetched, rules, entries, records, album),
        deletions_for(kept, remote, entries, album).contains(deleted),
    ensures
        fetched.checksum->0@ != deleted.checksum->0@,
        fetched != deleted,
{
    deletion_has_a_record(kept, remote, entries, album, deleted);
    let c = deleted.checksum->0@;
    let pass = |r: FolderRecord| is_orphan(r, entries, album) && r.checksum@ == c;
    let i = choose|i: int| 0 <= i < kept.len() && pass(#[trigger] kept[i]);
    assert(kept.contains(kept[i]));
    let k = records.index_of(kept[i]);
    assert(pass(records[k]));
    assert(is_gone(records, entries, album, c));
}

/// No file is deleted from the folder while local files cannot be moved to the trash.
pub proof fn nothing_is_deleted_locally(
    rules: FolderRules,
    remote: Seq<LibraryAsset>,
    entries: Seq<LocalEntry>,
    index: SyncIndex,
    album: Seq<char>,
)
    ensures
        entries.filter(
            |e: LocalEntry| wants_local_deletion(e, rules, remote, index, album),
        ).len() == 0,
{
    seqs::filter_none(
        entries,
        |e: LocalEntry| wants_local_deletion(e, rules, remote, index, album),
    );
}

/// No asset is deleted from the album twice in one run.
pub proof fn deletions_are_distinct(
    records: Seq<FolderRecord>,
    remote: Seq<LibraryAsset>,
    entries: Seq<LocalEntry>,
    album: Seq<char>,
)
    ensures
        forall|i: int, j: int|
            0 <= i < j < deletions_for(records, remote, entries, album).len() ==> (
            #[trigger] deletions_for(records, remote, entries, album)[i]).id@ != (
            #[trigger] deletions_for(records, remote, entries, album)[j]).id@,
    decreases records.len(),
{
    if records.len() > 0 {
        let front = records.drop_last();
        deletions_are_distinct(front, remote, entries, album);
        let before = deletions_for(front, remote, entries, album);
        let here = deletions_for(records, remote, entries, album);
        assert forall|i: int, j: int| 0 <= i < j < here.len() implies (#[trigger] here[i]).id@ != (
        #[trigger] here[j]).id@ by {
            if j == before.len() {
                let pass = |a: LibraryAsset| a.id@ == here[j].id@;
                assert(!seqs::has(before, pass));
                assert(here[i] == before[i]);
                assert(!pass(before[i]));
            } else {
                assert(here[i] == before[i] && here[j] == before[j]);
            }
        }
    }
}

/// A folder and an album with the same content, nothing gone and nothing unmatched, are in sync:
/// there is nothing to upload, to download, to delete or to rename.
pub proof fn same_content_is_in_sync(
    rules: FolderRules,
    manual: bool,
    remote: Seq<LibraryAsset>,
    entries: Seq<LocalEntry>,
    records: Seq<FolderRecord>,
    index: SyncIndex,
    album: Seq<char>,
)
    requires
        forall|i: int|
            0 <= i < remote.len() ==> is_hashed(#[trigger] remote[i]) && in_folder(
                entries,
                remote[i].checksum->0@,
            ),
        forall|i: int|
            0 <= i < entries.len() ==> in_album(remote, (#[trigger] entries[i]).checksum@),
        forall|i: int|
            0 <= i < records.len() ==> !is_orphan(#[trigger] records[i], entries, album),
    ensures
        unhashed_count(remote) == 0,
        remote.filter(
            |a: LibraryAsset| wants_download(a, rules, entries, records, album),
        ).len() == 0,
        entries.filter(
            |e: LocalEntry| wants_upload(e, rules, manual, remote, index, album),
        ).len() == 0,
        entries.filter(
            |e: LocalEntry| wants_local_deletion(e, rules, remote, index, album),
        ).len() == 0,
        deletions_for(records, remote, entries, album).len() == 0,
        rename_positions(entries.len() as int, remote, entries, records, album).len() == 0,
{
    seqs::filter_none(remote, |a: LibraryAsset| !is_hashed(a));
    seqs::filter_none(
        remote,
        |a: LibraryAsset| wants_download(a, rules, entries, records, album),
    );
    seqs::filter_none(
        entries,
        |e: LocalEntry| wants_upload(e, rules, manual, remote, index, album),
    );
    seqs::filter_none(
        entries,
        |e: LocalEntry| wants_local_deletion(e, rules, remote, index, album),
    );
    no_orphan_no_deletion(records, remote, entries, album);
    no_orphan_no_rename(entries.len() as int, remote, entries, records, album);
}

proof fn no_orphan_no_deletion(
    records: Seq<FolderRecord>,
    remote: Seq<LibraryAsset>,
    entries: Seq<LocalEntry>,
    album: Seq<char>,
)
    requires
        forall|i: int|
            0 <= i < records.len() ==> !is_orphan(#[trigger] records[i], entries, album),
    ensures
        deletions_for(records, remote, entries, album).len() == 0,
    decreases records.len(),
{
    if records.len() > 0 {
        assert(!is_orphan(records[records.len() - 1], entries, album));
        no_orphan_no_deletion(records.drop_last(), remote, entries, album);
    }
}

proof fn no_orphan_no_rename(
    n: int,
    remote: Seq<LibraryAsset>,
    entries: Seq<LocalEntry>,
    records: Seq<FolderRecord>,
    album: Seq<char>,
)
    requires
        0 <= n <= entries.len(),
        forall|i: int|
            0 <= i < records.len() ==> !is_orphan(#[trigger] records[i], entries, album),
    ensures
        rename_positions(n, remote, entries, records, album).len() == 0,
    decreases n,
{
    if n > 0 {
        no_orphan_no_rename(n - 1, remote, entries, records, album);
    }
}

/// Some asset of the album has the content: its checksum is the given one, and not empty.
pub open spec fn album_has(remote: Seq<LibraryAsset>, checksum: Seq<char>) -> bool {
    exists|a: int|
        0 <= a < remote.len() && (#[trigger] remote[a]).checksum is Some
            && remote[a].checksum->0@ == checksum && checksum.len() > 0
}

/// Some file of the folder has the content.
pub open spec fn folder_has(entries: Seq<LocalEntry>, checksum: Seq<char>) -> bool {
    exists|e: int| 0 <= e < entries.len() && (#[trigger] entries[e]).checksum@ == checksum
}

/// The file that a record tells of has left the folder: nothing is at its path, neither listed nor on
/// disk, and it belonged to the album, or to none.
pub open spec fn has_left(
    record: FolderRecord,
    entries: Seq<LocalEntry>,
    album: Seq<char>,
) -> bool {
    &&& forall|e: int|
        0 <= e < entries.len() ==> (#[trigger] entries[e]).local.path@ != record.path@
    &&& !record.on_disk
    &&& record.album_id is None || record.album_id->0@ == album
}

/// A file with the content has left the folder.
pub open spec fn content_has_left(
    records: Seq<FolderRecord>,
    entries: Seq<LocalEntry>,
    album: Seq<char>,
    checksum: Seq<char>,
) -> bool {
    exists|k: int|
        0 <= k < records.len() && (#[trigger] records[k]).checksum@ == checksum && has_left(
            records[k],
            entries,
            album,
        )
}

/// The index says of the file, as it stands, that it is synced to the album, or to none.
pub open spec fn is_on_record(entry: LocalEntry, index: SyncIndex, album: Seq<char>) -> bool {
    &&& index.record(entry.local.path@) is Some
    &&& index.record(entry.local.path@)->0.checksum@ == entry.checksum@
    &&& index.record(entry.local.path@)->0.album_id is None || index.record(
        entry.local.path@,
    )->0.album_id->0@ == album
}

proof fn same_album_contents(remote: Seq<LibraryAsset>, checksum: Seq<char>)
    ensures
        in_album(remote, checksum) <==> album_has(remote, checksum),
{
    let pass = |a: LibraryAsset| has_checksum(a, checksum);
    if in_album(remote, checksum) {
        let a = choose|a: int| 0 <= a < remote.len() && pass(#[trigger] remote[a]);
        assert(remote[a].checksum->0@ == checksum);
    }
    if album_has(remote, checksum) {
        let a = choose|a: int|
            0 <= a < remote.len() && (#[trigger] remote[a]).checksum is Some
                && remote[a].checksum->0@ == checksum && checksum.len() > 0;
        assert(pass(remote[a]));
    }
}

proof fn same_folder_contents(entries: Seq<LocalEntry>, checksum: Seq<char>)
    ensures
        in_folder(entries, checksum) <==> folder_has(entries, checksum),
{
    let pass = |e: LocalEntry| e.checksum@ == checksum;
    if in_folder(entries, checksum) {
        let e = choose|e: int| 0 <= e < entries.len() && pass(#[trigger] entries[e]);
        assert(entries[e].checksum@ == checksum);
    }
    if folder_has(entries, checksum) {
        let e = choose|e: int|
            0 <= e < entries.len() && (#[trigger] entries[e]).checksum@ == checksum;
        assert(pass(entries[e]));
    }
}

proof fn same_departure(record: FolderRecord, entries: Seq<LocalEntry>, album: Seq<char>)
    ensures
        is_orphan(record, entries, album) <==> has_left(record, entries, album),
{
    let pass = |e: LocalEntry| e.local.path@ == record.path@;
    if is_orphan(record, entries, album) {
        assert forall|e: int| 0 <= e < entries.len() implies (#[trigger] entries[e]).local.path@
            != record.path@ by {
            assert(!pass(entries[e]));
        }
    }
    if has_left(record, entries, album) && at_path(entries, record.path@) {
        let e = choose|e: int| 0 <= e < entries.len() && pass(#[trigger] entries[e]);
        assert(entries[e].local.path@ == record.path@);
    }
}

proof fn same_content_departure(
    records: Seq<FolderRecord>,
    entries: Seq<LocalEntry>,
    album: Seq<char>,
    checksum: Seq<char>,
)
    ensures
        is_gone(records, entries, album, checksum) <==> content_has_left(
            records,
            entries,
            album,
            checksum,
        ),
{
    let pass = |r: FolderRecord| is_orphan(r, entries, album) && r.checksum@ == checksum;
    if is_gone(records, entries, album, checksum) {
        let k = choose|k: int| 0 <= k < records.len() && pass(#[trigger] records[k]);
        same_departure(records[k], entries, album);
        assert(records[k].checksum@ == checksum);
    }
    if content_has_left(records, entries, album, checksum) {
        let k = choose|k: int|
            0 <= k < records.len() && (#[trigger] records[k]).checksum@ == checksum && has_left(
                records[k],
                entries,
                album,
            );
        same_departure(records[k], entries, album);
        assert(pass(records[k]));
    }
}

proof fn all_hashed(remote: Seq<LibraryAsset>)
    ensures
        unhashed_count(remote) == 0 <==> forall|a: int|
            0 <= a < remote.len() ==> (#[trigger] remote[a]).checksum is Some
                && remote[a].checksum->0@.len() > 0,
{
    let bare = |a: LibraryAsset| !is_hashed(a);
    seqs::filter_contents(remote, bare);
    if unhashed_count(remote) == 0 {
        assert forall|a: int| 0 <= a < remote.len() implies (#[trigger] remote[a]).checksum is Some
            && remote[a].checksum->0@.len() > 0 by {
            assert(remote.contains(remote[a]));
            if bare(remote[a]) {
                assert(remote.filter(bare).contains(remote[a]));
            }
        }
    }
    if forall|a: int|
        0 <= a < remote.len() ==> (#[trigger] remote[a]).checksum is Some
            && remote[a].checksum->0@.len() > 0 {
        seqs::filter_none(remote, bare);
    }
}

/// What is uploaded, as a relation of the folder, the album and the index: a file that the folder
/// holds and whose content the album lacks. An automatic sync uploads all of these but those that
/// the index has on record as synced to the album as they stand; a sync that the user started
/// uploads these too, unless some asset of the album has no checksum.
pub open spec fn uploads_are_right(
    uploads: Seq<LocalEntry>,
    manual: bool,
    remote: Seq<LibraryAsset>,
    entries: Seq<LocalEntry>,
    index: SyncIndex,
    album: Seq<char>,
) -> bool {
    &&& forall|u: int|
        0 <= u < uploads.len() ==> entries.contains(#[trigger] uploads[u]) && !album_has(
            remote,
            uploads[u].checksum@,
        )
    &&& !manual ==> forall|u: int|
        0 <= u < uploads.len() ==> !is_on_record(#[trigger] uploads[u], index, album)
    &&& forall|e: int|
        0 <= e < entries.len() && !album_has(remote, (#[trigger] entries[e]).checksum@)
            && !is_on_record(entries[e], index, album) ==> uploads.contains(entries[e])
    &&& (exists|a: int|
        0 <= a < remote.len() && ((#[trigger] remote[a]).checksum is None
            || remote[a].checksum->0@.len() == 0)) ==> forall|u: int|
        0 <= u < uploads.len() ==> !is_on_record(#[trigger] uploads[u], index, album)
    &&& manual && (forall|a: int|
        0 <= a < remote.len() ==> (#[trigger] remote[a]).checksum is Some
            && remote[a].checksum->0@.len() > 0) ==> forall|e: int|
        0 <= e < entries.len() && !album_has(remote, (#[trigger] entries[e]).checksum@)
            ==> uploads.contains(entries[e])
}

proof fn uploads_follow(
    rules: FolderRules,
    manual: bool,
    remote: Seq<LibraryAsset>,
    entries: Seq<LocalEntry>,
    index: SyncIndex,
    album: Seq<char>,
)
    ensures
        uploads_are_right(
            entries.filter(|e: LocalEntry| wants_upload(e, rules, manual, remote, index, album)),
            manual,
            remote,
            entries,
            index,
            album,
        ),
{
    let keep = |e: LocalEntry| wants_upload(e, rules, manual, remote, index, album);
    let uploads = entries.filter(keep);
    seqs::filter_contents(entries, keep);
    all_hashed(remote);
    assert forall|e: LocalEntry| #[trigger] keep(e) <==> !album_has(remote, e.checksum@) && (
    is_on_record(e, index, album) ==> unhashed_count(remote) == 0 && manual) by {
        same_album_contents(remote, e.checksum@);
    }
    assert forall|u: int| 0 <= u < uploads.len() implies entries.contains(#[trigger] uploads[u])
        && keep(uploads[u]) by {
        assert(uploads.contains(uploads[u]));
    }
    assert forall|e: int| 0 <= e < entries.len() && keep(#[trigger] entries[e]) implies
        uploads.contains(entries[e]) by {
        assert(entries.contains(entries[e]));
    }
}

/// What is downloaded, as a relation of the folder, the album and the records: every asset with a
/// checksum whose content the folder lacks, and no other; where files deleted from the folder leave
/// the album too, not those whose file has left the folder.
pub open spec fn downloads_are_right(
    downloads: Seq<LibraryAsset>,
    mirrors_deletions: bool,
    remote: Seq<LibraryAsset>,
    entries: Seq<LocalEntry>,
    records: Seq<FolderRecord>,
    album: Seq<char>,
) -> bool {
    &&& forall|d: int|
        0 <= d < downloads.len() ==> {
            &&& remote.contains(#[trigger] downloads[d])
            &&& downloads[d].checksum is Some && downloads[d].checksum->0@.len() > 0
            &&& !folder_has(entries, downloads[d].checksum->0@)
            &&& mirrors_deletions ==> !content_has_left(
                records,
                entries,
                album,
                downloads[d].checksum->0@,
            )
        }
    &&& forall|a: int|
        0 <= a < remote.len() && (#[trigger] remote[a]).checksum is Some
            && remote[a].checksum->0@.len() > 0 && !folder_has(entries, remote[a].checksum->0@) && (
        mirrors_deletions ==> !content_has_left(records, entries, album, remote[a].checksum->0@))
            ==> downloads.contains(remote[a])
}

proof fn downloads_follow(
    rules: FolderRules,
    remote: Seq<LibraryAsset>,
    entries: Seq<LocalEntry>,
    records: Seq<FolderRecord>,
    album: Seq<char>,
)
    ensures
        downloads_are_right(
            remote.filter(|a: LibraryAsset| wants_download(a, rules, entries, records, album)),
            rules.delete_folder_to_album,
            remote,
            entries,
            records,
            album,
        ),
{
    let keep = |a: LibraryAsset| wants_download(a, rules, entries, records, album);
    let downloads = remote.filter(keep);
    seqs::filter_contents(remote, keep);
    assert forall|d: int| 0 <= d < downloads.len() implies remote.contains(
        #[trigger] downloads[d],
    ) && keep(downloads[d]) by {
        assert(downloads.contains(downloads[d]));
    }
    assert forall|a: LibraryAsset| #[trigger] keep(a) implies !folder_has(entries, a.checksum->0@)
        && (rules.delete_folder_to_album ==> !content_has_left(
        records,
        entries,
        album,
        a.checksum->0@,
    )) by {
        same_folder_contents(entries, a.checksum->0@);
        same_content_departure(records, entries, album, a.checksum->0@);
    }
    assert forall|a: int|
        0 <= a < remote.len() && (#[trigger] remote[a]).checksum is Some
            && remote[a].checksum->0@.len() > 0 && !folder_has(entries, remote[a].checksum->0@) && (
        rules.delete_folder_to_album ==> !content_has_left(
            records,
            entries,
            album,
            remote[a].checksum->0@,
        )) implies downloads.contains(remote[a]) by {
        same_folder_contents(entries, remote[a].checksum->0@);
        same_content_departure(records, entries, album, remote[a].checksum->0@);
        assert(remote.contains(remote[a]));
        assert(keep(remote[a]));
    }
}

/// A comparison uploads and downloads what the folder, the album and the records call for, and
/// deletes nothing from the folder.
pub proof fn comparison_uploads_and_downloads_what_is_missing(
    album_id: &str,
    rules: &FolderRules,
    manual: bool,
    remote: &Vec<LibraryAsset>,
    entries: &Vec<LocalEntry>,
    records: &Vec<FolderRecord>,
    index: &SyncIndex,
    r: AlbumComparison,
)
    requires
        call_ensures(
            compare_album_with_folder,
            (album_id, rules, manual, remote, entries, records, index),
            r,
        ),
    ensures
        uploads_are_right(r.to_upload@, manual, remote@, entries@, *index, album_id@),
        downloads_are_right(
            r.to_download@,
            rules.delete_folder_to_album,
            remote@,
            entries@,
            records@,
            album_id@,
        ),
        r.to_delete_local@.len() == 0,
{
    uploads_follow(*rules, manual, remote@, entries@, *index, album_id@);
    downloads_follow(*rules, remote@, entries@, records@, album_id@);
    nothing_is_deleted_locally(*rules, remote@, entries@, *index, album_id@);
}

/// An automatic sync never uploads a file that the index has on record, as it stands, as synced to
/// the album: what the user removed from the album is not put back.
pub proof fn automatic_sync_puts_nothing_back(
    album_id: &str,
    rules: &FolderRules,
    remote: &Vec<LibraryAsset>,
    entries: &Vec<LocalEntry>,
    records: &Vec<FolderRecord>,
    index: &mut SyncIndex,
    asked_before: &Vec<String>,
    r: DiffOutcome,
)
    requires
        call_ensures(
            diff_album_vs_folder,
            (album_id, rules, false, remote, entries, records, index, asked_before),
            r,
        ),
    ensures
        forall|u: int|
            0 <= u < r.diff.to_upload@.len() ==> {
                let upload = #[trigger] r.diff.to_upload@[u];
                match old(index).record(upload.local.path@) {
                    Some(record) => record.checksum@ != upload.checksum@ || (
                    record.album_id matches Some(id) && id@ != album_id@),
                    None => true,
                }
            },
{
    uploads_follow(*rules, false, remote@, entries@, *old(index), album_id@);
}

/// A sync uploads and downloads what the folder, the album and the records call for, in the
/// directions that the folder allows, and deletes nothing from the folder.
pub proof fn sync_moves_what_is_missing(
    album_id: &str,
    rules: &FolderRules,
    manual: bool,
    remote: &Vec<LibraryAsset>,
    entries: &Vec<LocalEntry>,
    records: &Vec<FolderRecord>,
    index: &mut SyncIndex,
    asked_before: &Vec<String>,
    r: DiffOutcome,
)
    requires
        call_ensures(
            diff_album_vs_folder,
            (album_id, rules, manual, remote, entries, records, index, asked_before),
            r,
        ),
    ensures
        rules.sync_method == FolderSyncMethod::DownloadOnly ==> r.diff.to_upload@.len() == 0,
        rules.sync_method == FolderSyncMethod::UploadOnly ==> r.diff.to_download@.len() == 0,
        rules.sync_method != FolderSyncMethod::DownloadOnly ==> uploads_are_right(
            r.diff.to_upload@,
            manual,
            remote@,
            entries@,
            *old(index),
            album_id@,
        ),
        rules.sync_method != FolderSyncMethod::UploadOnly ==> downloads_are_right(
            r.diff.to_download@,
            rules.delete_folder_to_album,
            remote@,
            entries@,
            records@,
            album_id@,
        ),
        r.diff.to_delete_local@.len() == 0,
{
    uploads_follow(*rules, manual, remote@, entries@, *old(index), album_id@);
    downloads_follow(*rules, remote@, entries@, records@, album_id@);
    nothing_is_deleted_locally(*rules, remote@, entries@, *old(index), album_id@);
}

/// The renames of a sync: each leads from the path of a record whose file has left the folder to a
/// listed file with the same content, which the album has. No content is renamed twice, and none
/// that could be is passed over.
pub open spec fn renames_are_right(
    renames: Seq<Rename>,
    remote: Seq<LibraryAsset>,
    entries: Seq<LocalEntry>,
    records: Seq<FolderRecord>,
    album: Seq<char>,
) -> bool {
    &&& forall|m: int|
        0 <= m < renames.len() ==> {
            &&& album_has(remote, (#[trigger] renames[m]).checksum@)
            &&& is_listed(entries, renames[m].new_path@, renames[m].checksum@)
            &&& is_left_behind(records, entries, album, renames[m].old_path@, renames[m].checksum@)
        }
    &&& forall|m: int, n: int|
        0 <= m < n < renames.len() ==> (#[trigger] renames[m]).checksum@ != (
        #[trigger] renames[n]).checksum@
    &&& forall|e: int|
        0 <= e < entries.len() && album_has(remote, (#[trigger] entries[e]).checksum@)
            && content_has_left(records, entries, album, entries[e].checksum@) ==> is_renamed_to(
            renames,
            entries[e].checksum@,
        )
}

/// A file with the content is listed at the path.
pub open spec fn is_listed(entries: Seq<LocalEntry>, file: Seq<char>, checksum: Seq<char>) -> bool {
    exists|e: int|
        0 <= e < entries.len() && (#[trigger] entries[e]).local.path@ == file
            && entries[e].checksum@ == checksum
}

/// A record of the content is at the path, and its file has left the folder.
pub open spec fn is_left_behind(
    records: Seq<FolderRecord>,
    entries: Seq<LocalEntry>,
    album: Seq<char>,
    file: Seq<char>,
    checksum: Seq<char>,
) -> bool {
    exists|k: int|
        0 <= k < records.len() && (#[trigger] records[k]).path@ == file && records[k].checksum@
            == checksum && has_left(records[k], entries, album)
}

/// Some rename carries the content.
pub open spec fn is_renamed_to(renames: Seq<Rename>, checksum: Seq<char>) -> bool {
    exists|m: int| 0 <= m < renames.len() && (#[trigger] renames[m]).checksum@ == checksum
}

proof fn positions_are_renames(
    n: int,
    remote: Seq<LibraryAsset>,
    entries: Seq<LocalEntry>,
    records: Seq<FolderRecord>,
    album: Seq<char>,
)
    requires
        0 <= n <= entries.len(),
    ensures
        ({
            let found = rename_positions(n, remote, entries, records, album);
            &&& forall|k: int|
                0 <= k < found.len() ==> 0 <= #[trigger] found[k] < n && is_rename(
                    found[k],
                    remote,
                    entries,
                    records,
                    album,
                )
            &&& forall|k: int, l: int|
                0 <= k < l < found.len() ==> #[trigger] found[k] < #[trigger] found[l]
            &&& forall|e: int|
                0 <= e < n && #[trigger] is_rename(e, remote, entries, records, album)
                    ==> found.contains(e)
        }),
    decreases n,
{
    if n > 0 {
        let before = rename_positions(n - 1, remote, entries, records, album);
        let found = rename_positions(n, remote, entries, records, album);
        positions_are_renames(n - 1, remote, entries, records, album);
        assert forall|e: int|
            0 <= e < n && #[trigger] is_rename(e, remote, entries, records, album) implies
            found.contains(e) by {
            if e < n - 1 {
                assert(before.contains(e));
                let k = before.index_of(e);
                assert(found[k] == e);
            } else {
                assert(found[before.len() as int] == e);
            }
        }
    }
}

proof fn first_left_behind(
    records: Seq<FolderRecord>,
    entries: Seq<LocalEntry>,
    album: Seq<char>,
    checksum: Seq<char>,
) -> (k: int)
    requires
        old_path_of(records, entries, album, checksum) is Some,
    ensures
        0 <= k < records.len(),
        old_path_of(records, entries, album, checksum) == Some(records[k]),
        is_orphan(records[k], entries, album),
        records[k].checksum@ == checksum,
    decreases records.len(),
{
    if is_orphan(records[0], entries, album) && records[0].checksum@ == checksum {
        0
    } else {
        let rest = records.drop_first();
        assert(old_path_of(records, entries, album, checksum) == old_path_of(
            rest,
            entries,
            album,
            checksum,
        ));
        let k = first_left_behind(rest, entries, album, checksum);
        assert(rest[k] == records[k + 1]);
        k + 1
    }
}

/// The first listed file with the content of a listed file.
proof fn first_listed(entries: Seq<LocalEntry>, n: int, checksum: Seq<char>) -> (e: int)
    requires
        0 <= n < entries.len(),
        entries[n].checksum@ == checksum,
    ensures
        0 <= e <= n,
        entries[e].checksum@ == checksum,
        !in_folder(entries.take(e), checksum),
    decreases n,
{
    let pass = |x: LocalEntry| x.checksum@ == checksum;
    if in_folder(entries.take(n), checksum) {
        let e = choose|e: int|
            0 <= e < entries.take(n).len() && pass(#[trigger] entries.take(n)[e]);
        assert(entries.take(n)[e] == entries[e]);
        first_listed(entries, e, checksum)
    } else {
        n
    }
}

/// A sync renames what was moved within the folder, and the index follows: the record of the old
/// path is gone, that of the new path has the content, and any other path keeps its record.
pub proof fn sync_follows_moved_files(
    album_id: &str,
    rules: &FolderRules,
    manual: bool,
    remote: &Vec<LibraryAsset>,
    entries: &Vec<LocalEntry>,
    records: &Vec<FolderRecord>,
    index: &mut SyncIndex,
    asked_before: &Vec<String>,
    r: DiffOutcome,
    file: Seq<char>,
)
    requires
        call_ensures(
            diff_album_vs_folder,
            (album_id, rules, manual, remote, entries, records, index, asked_before),
            r,
        ),
    ensures
        renames_are_right(r.renames@, remote@, entries@, records@, album_id@),
        (exists|m: int| 0 <= m < r.renames@.len() && (#[trigger] r.renames@[m]).old_path@ == file)
            ==> final(index).record(file) is None,
        (exists|m: int| 0 <= m < r.renames@.len() && (#[trigger] r.renames@[m]).new_path@ == file)
            ==> final(index).record(file) is Some && is_renamed_to(
            r.renames@,
            final(index).record(file)->0.checksum@,
        ),
        (forall|m: int|
            0 <= m < r.renames@.len() ==> (#[trigger] r.renames@[m]).old_path@ != file
                && r.renames@[m].new_path@ != file) ==> final(index).record(file) == old(
            index,
        ).record(file),
{
    let renames = r.renames@;
    let album = album_id@;
    let n = entries@.len() as int;
    let found = rename_positions(n, remote@, entries@, records@, album);
    positions_are_renames(n, remote@, entries@, records@, album);
    assert forall|m: int| 0 <= m < renames.len() implies {
        &&& album_has(remote@, (#[trigger] renames[m]).checksum@)
        &&& is_listed(entries@, renames[m].new_path@, renames[m].checksum@)
        &&& is_left_behind(records@, entries@, album, renames[m].old_path@, renames[m].checksum@)
    } by {
        let e = found[m];
        let c = entries@[e].checksum@;
        assert(moves_record(renames[m], e, entries@, records@, album));
        same_album_contents(remote@, c);
        assert(entries@[e].local.path@ == renames[m].new_path@);
        let k = first_left_behind(records@, entries@, album, c);
        same_departure(records@[k], entries@, album);
        assert(records@[k].path@ == renames[m].old_path@);
    }
    assert forall|m: int, l: int| 0 <= m < l < renames.len() implies (
    #[trigger] renames[m]).checksum@ != (#[trigger] renames[l]).checksum@ by {
        let a = found[m];
        let b = found[l];
        assert(a < b);
        assert(moves_record(renames[m], a, entries@, records@, album));
        assert(moves_record(renames[l], b, entries@, records@, album));
        let pass = |x: LocalEntry| x.checksum@ == entries@[b].checksum@;
        assert(entries@.take(b)[a] == entries@[a]);
        if renames[m].checksum@ == renames[l].checksum@ {
            assert(pass(entries@.take(b)[a]));
        }
    }
    assert forall|e: int|
        0 <= e < entries@.len() && album_has(remote@, (#[trigger] entries@[e]).checksum@)
            && content_has_left(records@, entries@, album, entries@[e].checksum@) implies
        is_renamed_to(renames, entries@[e].checksum@) by {
        let c = entries@[e].checksum@;
        let first = first_listed(entries@, e, c);
        same_album_contents(remote@, c);
        same_content_departure(records@, entries@, album, c);
        assert(is_rename(first, remote@, entries@, records@, album));
        assert(found.contains(first));
        let m = found.index_of(first);
        assert(moves_record(renames[m], found[m], entries@, records@, album));
        assert(renames[m].checksum@ == c);
    }
    let away = |m: Rename| m.old_path@ == file;
    let here = |m: Rename| m.new_path@ == file;
    assert(moved_away(renames, file) <==> exists|m: int|
        0 <= m < renames.len() && (#[trigger] renames[m]).old_path@ == file) by {
        if moved_away(renames, file) {
            let m = choose|m: int| 0 <= m < renames.len() && away(#[trigger] renames[m]);
            assert(renames[m].old_path@ == file);
        }
        if exists|m: int| 0 <= m < renames.len() && (#[trigger] renames[m]).old_path@ == file {
            let m = choose|m: int|
                0 <= m < renames.len() && (#[trigger] renames[m]).old_path@ == file;
            assert(away(renames[m]));
        }
    }
    assert(moved_here(renames, file) <==> exists|m: int|
        0 <= m < renames.len() && (#[trigger] renames[m]).new_path@ == file) by {
        if moved_here(renames, file) {
            let m = choose|m: int| 0 <= m < renames.len() && here(#[trigger] renames[m]);
            assert(renames[m].new_path@ == file);
        }
        if exists|m: int| 0 <= m < renames.len() && (#[trigger] renames[m]).new_path@ == file {
            let m = choose|m: int|
                0 <= m < renames.len() && (#[trigger] renames[m]).new_path@ == file;
            assert(here(renames[m]));
        }
    }
    if moved_away(renames, file) && moved_here(renames, file) {
        let m = choose|m: int| 0 <= m < renames.len() && (#[trigger] renames[m]).old_path@ == file;
        let l = choose|l: int| 0 <= l < renames.len() && (#[trigger] renames[l]).new_path@ == file;
        assert(is_left_behind(records@, entries@, album, file, renames[m].checksum@));
        assert(is_listed(entries@, file, renames[l].checksum@));
        let k = choose|k: int|
            0 <= k < records@.len() && (#[trigger] records@[k]).path@ == file
                && records@[k].checksum@ == renames[m].checksum@ && has_left(
                records@[k],
                entries@,
                album,
            );
        let e = choose|e: int|
            0 <= e < entries@.len() && (#[trigger] entries@[e]).local.path@ == file
                && entries@[e].checksum@ == renames[l].checksum@;
        assert(entries@[e].local.path@ != records@[k].path@);
    }
    if moved_here(renames, file) {
        assert(brings(*old(index), renames, file, final(index).record(file)->0));
        let j = choose|j: int|
            0 <= j < renames.len() && #[trigger] brought_by(
                *old(index),
                renames,
                j,
                file,
                final(index).record(file)->0,
            );
        assert(renames[j].checksum@ == final(index).record(file)->0.checksum@);
    }
}

/// Asset `a` is the first of the album with the content.
pub open spec fn is_first_of(remote: Seq<LibraryAsset>, a: int, checksum: Seq<char>) -> bool {
    &&& 0 <= a < remote.len()
    &&& remote[a].checksum is Some && remote[a].checksum->0@ == checksum && checksum.len() > 0
    &&& forall|b: int|
        0 <= b < a ==> (#[trigger] remote[b]).checksum is None || remote[b].checksum->0@ != checksum
}

/// The file of record `k` has left the folder, and no rename took its place.
pub open spec fn is_deleted_file(
    records: Seq<FolderRecord>,
    k: int,
    entries: Seq<LocalEntry>,
    renames: Seq<Rename>,
    album: Seq<char>,
) -> bool {
    &&& 0 <= k < records.len()
    &&& has_left(records[k], entries, album)
    &&& forall|m: int|
        0 <= m < renames.len() ==> (#[trigger] renames[m]).old_path@ != records[k].path@
}

proof fn first_with_is_first(remote: Seq<LibraryAsset>, a: int, checksum: Seq<char>)
    requires
        is_first_of(remote, a, checksum),
    ensures
        first_with(remote, checksum) == Some(remote[a]),
    decreases remote.len(),
{
    if a > 0 {
        let rest = remote.drop_first();
        assert(remote[0].checksum is None || remote[0].checksum->0@ != checksum);
        assert forall|b: int| 0 <= b < a - 1 implies (#[trigger] rest[b]).checksum is None
            || rest[b].checksum->0@ != checksum by {
            assert(rest[b] == remote[b + 1]);
        }
        assert(is_first_of(rest, a - 1, checksum));
        first_with_is_first(rest, a - 1, checksum);
        assert(first_with(remote, checksum) == first_with(rest, checksum));
    }
}

proof fn deleted_asset_is_listed(
    records: Seq<FolderRecord>,
    remote: Seq<LibraryAsset>,
    entries: Seq<LocalEntry>,
    album: Seq<char>,
    k: int,
    a: int,
) -> (x: int)
    requires
        0 <= k < records.len(),
        is_orphan(records[k], entries, album),
        is_first_of(remote, a, records[k].checksum@),
    ensures
        0 <= x < deletions_for(records, remote, entries, album).len(),
        deletions_for(records, remote, entries, album)[x].id@ == remote[a].id@,
    decreases records.len(),
{
    let front = records.drop_last();
    let before = deletions_for(front, remote, entries, album);
    let here = deletions_for(records, remote, entries, album);
    if k < front.len() {
        let x = deleted_asset_is_listed(front, remote, entries, album, k, a);
        assert(here[x] == before[x]);
        x
    } else {
        first_with_is_first(remote, a, records[k].checksum@);
        if lists_id(before, remote[a].id@) {
            let pass = |y: LibraryAsset| y.id@ == remote[a].id@;
            let x = choose|x: int| 0 <= x < before.len() && pass(#[trigger] before[x]);
            assert(here[x] == before[x]);
            x
        } else {
            before.len() as int
        }
    }
}

proof fn confirmed_items<T>(items: Seq<T>, answers: Seq<bool>)
    requires
        answers.len() == items.len(),
    ensures
        forall|x: T| #[trigger]
            confirmed(items, answers).contains(x) ==> exists|n: int|
                0 <= n < items.len() && #[trigger] items[n] == x && answers[n],
        forall|n: int|
            0 <= n < items.len() && answers[n] ==> confirmed(items, answers).contains(
                #[trigger] items[n],
            ),
    decreases items.len(),
{
    confirmed_front(items, answers, items.len() as int);
    assert(items.take(items.len() as int) =~= items);
}

proof fn confirmed_front<T>(items: Seq<T>, answers: Seq<bool>, n: int)
    requires
        answers.len() == items.len(),
        0 <= n <= items.len(),
    ensures
        forall|x: T| #[trigger]
            confirmed(items.take(n), answers).contains(x) ==> exists|k: int|
                0 <= k < n && #[trigger] items[k] == x && answers[k],
        forall|k: int|
            0 <= k < n && answers[k] ==> confirmed(items.take(n), answers).contains(
                #[trigger] items[k],
            ),
    decreases n,
{
    if n > 0 {
        let before = confirmed(items.take(n - 1), answers);
        let here = confirmed(items.take(n), answers);
        confirmed_front(items, answers, n - 1);
        assert(items.take(n).drop_last() =~= items.take(n - 1));
        assert forall|x: T| #[trigger] here.contains(x) implies exists|k: int|
            0 <= k < n && #[trigger] items[k] == x && answers[k] by {
            let p = here.index_of(x);
            if p < before.len() {
                assert(before[p] == x);
                assert(before.contains(x));
                let k = choose|k: int| 0 <= k < n - 1 && #[trigger] items[k] == x && answers[k];
                assert(items[k] == x);
            } else {
                assert(items[n - 1] == x);
            }
        }
        assert forall|k: int| 0 <= k < n && answers[k] implies here.contains(
            #[trigger] items[k],
        ) by {
            if k < n - 1 {
                assert(before.contains(items[k]));
                let p = before.index_of(items[k]);
                assert(here[p] == items[k]);
            } else {
                assert(here[before.len() as int] == items[k]);
            }
        }
    }
}

/// Assets leave the album only where the folder's rules say so, and only for a file that has left the
/// folder without being renamed: each deleted asset has the content of such a file, and none is
/// deleted twice. Up to five deletions happen at once; of more only those asked for in an earlier
/// run, and all of them are asked for now.
pub proof fn sync_deletes_what_left_the_folder(
    album_id: &str,
    rules: &FolderRules,
    manual: bool,
    remote: &Vec<LibraryAsset>,
    entries: &Vec<LocalEntry>,
    records: &Vec<FolderRecord>,
    index: &mut SyncIndex,
    asked_before: &Vec<String>,
    r: DiffOutcome,
    k: int,
    a: int,
)
    requires
        call_ensures(
            diff_album_vs_folder,
            (album_id, rules, manual, remote, entries, records, index, asked_before),
            r,
        ),
    ensures
        !rules.delete_folder_to_album ==> r.diff.to_delete_remote@.len() == 0 && r.asked@.len() == 0,
        r.diff.to_delete_remote@.len() > 5 ==> r.asked@.len() > 5,
        r.asked@.len() > 0 ==> r.asked@.len() > 5,
        forall|x: int|
            0 <= x < r.diff.to_delete_remote@.len() ==> {
                let asset = #[trigger] r.diff.to_delete_remote@[x];
                &&& remote@.contains(asset)
                &&& asset.checksum is Some
                &&& content_is_deleted(
                    records@,
                    entries@,
                    r.renames@,
                    album_id@,
                    asset.checksum->0@,
                )
                &&& r.asked@.len() > 0 ==> text::views(asked_before@).contains(
                    "remote:"@ + album_id@ + ":"@ + asset.checksum->0@,
                )
            },
        rules.delete_folder_to_album && is_deleted_file(
            records@,
            k,
            entries@,
            r.renames@,
            album_id@,
        ) && is_first_of(remote@, a, records@[k].checksum@) && (forall|b: int|
            0 <= b < remote@.len() && b != a ==> (#[trigger] remote@[b]).id@ != remote@[a].id@)
            ==> {
            let key = "remote:"@ + album_id@ + ":"@ + records@[k].checksum@;
            &&& r.asked@.len() == 0 ==> r.diff.to_delete_remote@.contains(remote@[a])
            &&& r.asked@.len() > 0 ==> text::views(r.asked@).contains(key)
            &&& r.asked@.len() > 0 && text::views(asked_before@).contains(key)
                ==> r.diff.to_delete_remote@.contains(remote@[a])
        },
        forall|x: int, y: int|
            0 <= x < y < r.diff.to_delete_remote@.len() && r.asked@.len() == 0 ==> (
            #[trigger] r.diff.to_delete_remote@[x]).id@ != (
            #[trigger] r.diff.to_delete_remote@[y]).id@,
{
    let album = album_id@;
    let renames = r.renames@;
    let unmoved = |f: FolderRecord| !moved_away(renames, f.path@);
    let kept = records@.filter(unmoved);
    let gone = if rules.delete_folder_to_album {
        deletions_for(kept, remote@, entries@, album)
    } else {
        Seq::empty()
    };
    let keys = if gone.len() > UNCONFIRMED_DELETIONS {
        gone.map_values(|x: LibraryAsset| asset_key(album, x))
    } else {
        Seq::empty()
    };
    let answers = answered(keys, asked_before@);
    let deleted = r.diff.to_delete_remote@;
    nothing_is_deleted_locally(*rules, remote@, entries@, *old(index), album);
    seqs::filter_contents(records@, unmoved);
    deletions_are_distinct(kept, remote@, entries@, album);
    assert(text::views(r.asked@) =~= keys);
    assert(r.asked@.len() == text::views(r.asked@).len());
    assert(deleted == after_confirmation(gone, answers));
    assert(forall|n: int| 0 <= n < keys.len() ==> #[trigger] keys[n] == asset_key(album, gone[n]));
    assert(forall|n: int|
        0 <= n < keys.len() ==> #[trigger] answers[n] == text::views(asked_before@).contains(
            keys[n],
        ));
    if gone.len() > UNCONFIRMED_DELETIONS {
        confirmed_items(gone, answers);
        confirmed_is_shorter(gone, answers);
    }
    assert forall|x: int| 0 <= x < deleted.len() implies {
        let asset = #[trigger] deleted[x];
        &&& remote@.contains(asset)
        &&& asset.checksum is Some
        &&& content_is_deleted(records@, entries@, renames, album, asset.checksum->0@)
        &&& r.asked@.len() > 0 ==> text::views(asked_before@).contains(
            "remote:"@ + album + ":"@ + asset.checksum->0@,
        )
    } by {
        let asset = deleted[x];
        assert(deleted.contains(asset));
        if gone.len() > UNCONFIRMED_DELETIONS {
            let n = choose|n: int|
                0 <= n < gone.len() && #[trigger] gone[n] == asset && answers[n];
            assert(keys[n] == asset_key(album, asset));
        }
        assert(gone.contains(asset));
        deletion_has_a_record(kept, remote@, entries@, album, asset);
        let c = asset.checksum->0@;
        let pass = |f: FolderRecord| is_orphan(f, entries@, album) && f.checksum@ == c;
        let i = choose|i: int| 0 <= i < kept.len() && pass(#[trigger] kept[i]);
        assert(kept.contains(kept[i]));
        let f = kept[i];
        assert(records@.contains(f) && unmoved(f));
        let j = records@.index_of(f);
        assert(records@[j] == f);
        same_departure(records@[j], entries@, album);
        stays_in_place(renames, records@[j].path@);
        assert(is_deleted_file(records@, j, entries@, renames, album));
    }
    if rules.delete_folder_to_album && is_deleted_file(records@, k, entries@, renames, album)
        && is_first_of(remote@, a, records@[k].checksum@) && (forall|b: int|
        0 <= b < remote@.len() && b != a ==> (#[trigger] remote@[b]).id@ != remote@[a].id@) {
        let f = records@[k];
        same_departure(f, entries@, album);
        stays_in_place(renames, f.path@);
        assert(records@.contains(f));
        assert(kept.contains(f));
        let j = kept.index_of(f);
        let x = deleted_asset_is_listed(kept, remote@, entries@, album, j, a);
        assert(gone.contains(gone[x]));
        deletion_has_a_record(kept, remote@, entries@, album, gone[x]);
        let y = remote@.index_of(gone[x]);
        assert(remote@[y] == gone[x]);
        assert(y == a);
        if gone.len() > UNCONFIRMED_DELETIONS {
            assert(keys[x] == asset_key(album, remote@[a]));
            assert(keys.contains(keys[x]));
        }
    }
}

/// The content is that of a file that has left the folder, and that no rename took the place of.
pub open spec fn content_is_deleted(
    records: Seq<FolderRecord>,
    entries: Seq<LocalEntry>,
    renames: Seq<Rename>,
    album: Seq<char>,
    checksum: Seq<char>,
) -> bool {
    exists|k: int|
        records[k].checksum@ == checksum && #[trigger] is_deleted_file(
            records,
            k,
            entries,
            renames,
            album,
        )
}

proof fn stays_in_place(renames: Seq<Rename>, file: Seq<char>)
    ensures
        !moved_away(renames, file) <==> forall|m: int|
            0 <= m < renames.len() ==> (#[trigger] renames[m]).old_path@ != file,
{
    let away = |m: Rename| m.old_path@ == file;
    if moved_away(renames, file) {
        let m = choose|m: int| 0 <= m < renames.len() && away(#[trigger] renames[m]);
        assert(renames[m].old_path@ == file);
    } else {
        assert forall|m: int| 0 <= m < renames.len() implies (#[trigger] renames[m]).old_path@
            != file by {
            assert(!away(renames[m]));
        }
    }
}

proof fn confirmed_is_shorter<T>(items: Seq<T>, answers: Seq<bool>)
    ensures
        confirmed(items, answers).len() <= items.len(),
    decreases items.len(),
{
    if items.len() > 0 {
        confirmed_is_shorter(items.drop_last(), answers);
    }
}

/// A deletion that was asked for is forgotten once what it concerned is back: a local one of content
/// that the album has, and one from the album of content that is uploaded.
pub proof fn sync_forgets_what_is_back(
    album_id: &str,
    rules: &FolderRules,
    manual: bool,
    remote: &Vec<LibraryAsset>,
    entries: &Vec<LocalEntry>,
    records: &Vec<FolderRecord>,
    index: &mut SyncIndex,
    asked_before: &Vec<String>,
    r: DiffOutcome,
    a: int,
    u: int,
)
    requires
        call_ensures(
            diff_album_vs_folder,
            (album_id, rules, manual, remote, entries, records, index, asked_before),
            r,
        ),
    ensures
        0 <= a < remote@.len() && remote@[a].checksum is Some && remote@[a].checksum->0@.len() > 0
            ==> text::views(r.forgotten@).contains(
            "local:"@ + album_id@ + ":"@ + remote@[a].checksum->0@,
        ),
        0 <= u < r.diff.to_upload@.len() ==> text::views(r.forgotten@).contains(
            "remote:"@ + album_id@ + ":"@ + r.diff.to_upload@[u].checksum@,
        ),
{
    let album = album_id@;
    let first = album_keys(remote@, album);
    let uploads = entries@.filter(
        |e: LocalEntry| wants_upload(e, *rules, manual, remote@, *old(index), album),
    );
    let second = uploads.map_values(|e: LocalEntry| remote_key(album, e.checksum@));
    let third = recorded_keys(entries@, *final(index), album);
    let all = text::views(r.forgotten@);
    assert(all == first + second + third);
    if 0 <= a < remote@.len() && remote@[a].checksum is Some && remote@[a].checksum->0@.len() > 0 {
        let k = album_key_is_listed(remote@, album, a);
        assert(all[k] == first[k]);
    }
    if 0 <= u < r.diff.to_upload@.len() {
        assert(r.diff.to_upload@ == uploads);
        assert(all[first.len() + u] == second[u]);
    }
}

proof fn album_key_is_listed(remote: Seq<LibraryAsset>, album: Seq<char>, a: int) -> (k: int)
    requires
        0 <= a < remote.len(),
        is_hashed(remote[a]),
    ensures
        0 <= k < album_keys(remote, album).len(),
        album_keys(remote, album)[k] == local_key(album, remote[a].checksum->0@),
    decreases remote.len(),
{
    let front = remote.drop_last();
    if a < front.len() {
        album_key_is_listed(front, album, a)
    } else {
        album_keys(front, album).len() as int
    }
}

} // verus!
