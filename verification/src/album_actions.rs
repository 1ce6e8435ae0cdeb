//! Carrying out an album diff: checksums, upload tasks, destinations, outcomes.
use vstd::prelude::*;
use vstd::string::*;
use crate::album_sync::LocalEntry;
use crate::api::LibraryAsset;
use crate::local_source::LocalAsset;
use crate::path;
use crate::path::{extension, file_stem, join_path, path_starts_with};
use crate::seqs;
use crate::sync_index::SyncTarget;
use crate::text;
use crate::text::{concat2, number, owned, same_text};

verus! {

/// The page to fetch after `page`: the next one while the server has more.
pub fn next_page(page: u32, has_more: bool) -> (r: Option<u32>)
    requires
        page < u32::MAX,
    ensures
        r == if has_more {
            Some((page + 1) as u32)
        } else {
            None
        },
{
    if has_more {
        Some(page + 1)
    } else {
        None
    }
}

/// The files that lie under a folder.
pub fn files_under(locals: &Vec<LocalAsset>, folder: &str) -> (r: Vec<LocalAsset>)
    ensures
        r@ == locals@.filter(|a: LocalAsset| path::lies_under(a.path@, folder@)),
{
    let ghost keep = |a: LocalAsset| path::lies_under(a.path@, folder@);
    let mut out: Vec<LocalAsset> = Vec::new();
    let mut i: usize = 0;
    proof {
        seqs::filter_ends(locals@, keep);
    }
    while i < locals.len()
        invariant
            i <= locals.len(),
            keep == |a: LocalAsset| path::lies_under(a.path@, folder@),
            out@ == locals@.take(i as int).filter(keep),
        decreases locals.len() - i,
    {
        proof {
            seqs::filter_step(locals@, keep, i as int);
        }
        if path_starts_with(locals[i].path.as_str(), folder) {
            out.push(locals[i].clone());
        }
        i = i + 1;
    }
    out
}

/// The entry pairs the file with the checksum.
pub open spec fn pairs(entry: LocalEntry, file: LocalAsset, checksum: Option<String>) -> bool {
    entry.local == file && checksum == Some(entry.checksum)
}

/// The positions below `n` whose checksum is known, in order; with `known` false the others.
pub open spec fn positions(checksums: Seq<Option<String>>, n: int, known: bool) -> Seq<int>
    decreases n,
{
    if n <= 0 {
        Seq::empty()
    } else {
        let front = positions(checksums, n - 1, known);
        if (checksums[n - 1] is Some) == known {
            front.push(n - 1)
        } else {
            front
        }
    }
}

/// Separates the files whose checksum is known from those that have to be hashed.
///
/// `fresh` holds for each file the checksum that the index still vouches for.
pub fn split_by_checksum(locals: &Vec<LocalAsset>, fresh: &Vec<Option<String>>) -> (r: (
    Vec<LocalEntry>,
    Vec<LocalAsset>,
))
    requires
        locals.len() == fresh.len(),
    ensures
        ({
            let known = positions(fresh@, fresh@.len() as int, true);
            &&& r.0@.len() == known.len()
            &&& forall|k: int|
                0 <= k < known.len() ==> pairs(
                    #[trigger] r.0@[k],
                    locals@[known[k]],
                    fresh@[known[k]],
                )
        }),
        r.1@ == positions(fresh@, fresh@.len() as int, false).map_values(|i: int| locals@[i]),
{
    let mut known: Vec<LocalEntry> = Vec::new();
    let mut rest: Vec<LocalAsset> = Vec::new();
    let mut i: usize = 0;
    assert(rest@ =~= positions(fresh@, 0, false).map_values(|i: int| locals@[i]));
    while i < locals.len()
        invariant
            i <= locals.len(),
            locals.len() == fresh.len(),
            known@.len() == positions(fresh@, i as int, true).len(),
            forall|k: int|
                0 <= k < known@.len() ==> pairs(
                    #[trigger] known@[k],
                    locals@[positions(fresh@, i as int, true)[k]],
                    fresh@[positions(fresh@, i as int, true)[k]],
                ),
            rest@ == positions(fresh@, i as int, false).map_values(|i: int| locals@[i]),
        decreases locals.len() - i,
    {
        match &fresh[i] {
            Some(c) => {
                known.push(LocalEntry { local: locals[i].clone(), checksum: c.clone() });
            },
            None => {
                rest.push(locals[i].clone());
            },
        }
        i = i + 1;
        assert(rest@ =~= positions(fresh@, i as int, false).map_values(|i: int| locals@[i]));
    }
    (known, rest)
}

/// The files of a folder with their checksums: first those the index vouched for, then those that
/// were hashed now. A file that could not be hashed (its entry in `hashed` is `None`) is left out.
pub fn resolve_local_checksums(
    known: Vec<LocalEntry>,
    to_hash: &Vec<LocalAsset>,
    hashed: &Vec<Option<String>>,
) -> (r: Vec<LocalEntry>)
    requires
        to_hash.len() == hashed.len(),
    ensures
        ({
            let done = positions(hashed@, hashed@.len() as int, true);
            &&& r@.len() == known@.len() + done.len()
            &&& r@.take(known@.len() as int) == known@
            &&& forall|k: int|
                0 <= k < done.len() ==> pairs(
                    #[trigger] r@[known@.len() + k],
                    to_hash@[done[k]],
                    hashed@[done[k]],
                )
        }),
{
    let (mut done, _rest) = split_by_checksum(to_hash, hashed);
    let ghost more = done@;
    let mut out: Vec<LocalEntry> = known;
    out.append(&mut done);
    proof {
        assert(out@ =~= known@ + more);
        assert(out@.take(known@.len() as int) =~= known@);
        assert forall|k: int| 0 <= k < more.len() implies pairs(
            #[trigger] out@[known@.len() + k],
            to_hash@[positions(hashed@, hashed@.len() as int, true)[k]],
            hashed@[positions(hashed@, hashed@.len() as int, true)[k]],
        ) by {
            assert(out@[known@.len() + k] == more[k]);
        }
    }
    out
}

/// Whether a watched folder uploads sidecar files.
#[derive(Debug, PartialEq, Eq)]
pub struct SidecarSetting {
    pub path: String,
    pub enabled: bool,
}

/// The setting of the first watched folder with the given path; the general setting where there
/// is none.
pub open spec fn sidecar_setting(
    settings: Seq<SidecarSetting>,
    folder: Seq<char>,
    general: bool,
) -> bool {
    match seqs::first_match(settings, |s: SidecarSetting| s.path@ == folder) {
        Some(s) => s.enabled,
        None => general,
    }
}

/// Whether the uploads from a folder carry their sidecar files.
pub fn sidecars_wanted(settings: &Vec<SidecarSetting>, folder: &str, general: bool) -> (r: bool)
    ensures
        r == sidecar_setting(settings@, folder@, general),
{
    let ghost pass = |s: SidecarSetting| s.path@ == folder@;
    let mut i: usize = 0;
    proof {
        seqs::first_match_ends(settings@, pass);
    }
    while i < settings.len()
        invariant
            i <= settings.len(),
            pass == |s: SidecarSetting| s.path@ == folder@,
            seqs::first_match(settings@, pass) == seqs::first_match(settings@.skip(i as int), pass),
        decreases settings.len() - i,
    {
        proof {
            seqs::first_match_step(settings@, pass, i as int);
        }
        if same_text(settings[i].path.as_str(), folder) {
            return settings[i].enabled;
        }
        i = i + 1;
    }
    proof {
        seqs::first_match_ends(settings@, pass);
    }
    general
}

/// One file for the upload queue.
#[derive(Debug, PartialEq, Eq)]
pub struct FileTask {
    pub path: String,
    pub watch_path: String,
    pub checksum: String,
    pub album_id: Option<String>,
    pub album_name: Option<String>,
    pub reassociate_only: bool,
    pub skip_album: bool,
    pub sidecar_path: Option<String>,
}

/// The upload task of a file: into the album, with its sidecar where the folder wants sidecars.
pub fn upload_task(
    entry: &LocalEntry,
    watch_path: &str,
    album_id: &str,
    album_name: &str,
    with_sidecar: bool,
    sidecar: Option<String>,
) -> (r: FileTask)
    ensures
        r.path@ == entry.local.path@,
        r.watch_path@ == watch_path@,
        r.checksum@ == entry.checksum@,
        r.album_id matches Some(id) && id@ == album_id@,
        r.album_name matches Some(name) && name@ == album_name@,
        !r.reassociate_only,
        !r.skip_album,
        r.sidecar_path == if with_sidecar {
            sidecar
        } else {
            None
        },
{
    FileTask {
        path: entry.local.path.clone(),
        watch_path: owned(watch_path),
        checksum: entry.checksum.clone(),
        album_id: Some(owned(album_id)),
        album_name: Some(owned(album_name)),
        reassociate_only: false,
        skip_album: false,
        sidecar_path: if with_sidecar {
            sidecar
        } else {
            None
        },
    }
}

/// How many of the outcomes are successes.
pub open spec fn successes(outcomes: Seq<bool>) -> nat {
    outcomes.filter(|ok: bool| ok).len()
}

/// The successes and the failures of a batch.
pub fn tally(outcomes: &Vec<bool>) -> (r: (usize, usize))
    ensures
        r.0 == successes(outcomes@),
        r.0 + r.1 == outcomes@.len(),
{
    let ghost yes = |ok: bool| ok;
    let mut ok: usize = 0;
    let mut i: usize = 0;
    proof {
        seqs::filter_ends(outcomes@, yes);
    }
    while i < outcomes.len()
        invariant
            i <= outcomes.len(),
            yes == |ok: bool| ok,
            ok == outcomes@.take(i as int).filter(yes).len(),
            ok <= i,
        decreases outcomes.len() - i,
    {
        proof {
            seqs::filter_step(outcomes@, yes, i as int);
        }
        if outcomes[i] {
            ok = ok + 1;
        }
        i = i + 1;
    }
    (ok, outcomes.len() - ok)
}

/// The name under which an asset is stored: the safe form of its file name, else its id.
pub fn download_name(safe_name: Option<String>, asset_id: &str) -> (r: String)
    ensures
        r@ == match safe_name {
            Some(name) => name@,
            None => asset_id@,
        },
{
    match safe_name {
        Some(name) => name,
        None => owned(asset_id),
    }
}

/// What the index records of a downloaded asset: nothing where the asset has no checksum.
pub fn download_record(
    asset: &LibraryAsset,
    album_id: &Option<String>,
    album_name: &Option<String>,
) -> (r: Option<(String, SyncTarget)>)
    ensures
        r is Some <==> asset.checksum is Some,
        r matches Some((checksum, target)) ==> Some(checksum) == asset.checksum && target.album_id
            == *album_id && target.album_name == *album_name,
{
    match &asset.checksum {
        Some(c) => Some(
            (
                c.clone(),
                SyncTarget { album_name: album_name.clone(), album_id: album_id.clone() },
            ),
        ),
        None => None,
    }
}

/// The label of a group of album downloads.
pub fn download_group_label(count: usize) -> (r: String)
    ensures
        r@ == text::decimal(count as nat) + " album item(s)"@,
{
    concat2(number(count as u64).as_str(), " album item(s)")
}

/// The asset belongs to other albums too.
pub open spec fn is_elsewhere(count: Option<u32>) -> bool {
    count matches Some(n) && n > 1
}

/// The ids at the positions below `n` whose asset is in other albums too; with `elsewhere` false
/// the others.
pub open spec fn ids_by_membership(
    assets: Seq<LibraryAsset>,
    counts: Seq<Option<u32>>,
    n: int,
    elsewhere: bool,
) -> Seq<Seq<char>>
    decreases n,
{
    if n <= 0 {
        Seq::empty()
    } else {
        let front = ids_by_membership(assets, counts, n - 1, elsewhere);
        if is_elsewhere(counts[n - 1]) == elsewhere {
            front.push(assets[n - 1].id@)
        } else {
            front
        }
    }
}

/// Splits the assets to delete into those to trash and those to take out of the album only.
///
/// `counts` holds for each asset in how many albums it is, where the server could say. An asset in
/// more than one album is only unlinked; one in a single album, or in an unknown number, is
/// trashed.
pub fn split_remote_deletions(assets: &Vec<LibraryAsset>, counts: &Vec<Option<u32>>) -> (r: (
    Vec<String>,
    Vec<String>,
))
    requires
        assets.len() == counts.len(),
    ensures
        text::views(r.0@) == ids_by_membership(assets@, counts@, assets@.len() as int, false),
        text::views(r.1@) == ids_by_membership(assets@, counts@, assets@.len() as int, true),
        r.0@.len() + r.1@.len() == assets@.len(),
{
    let mut to_trash: Vec<String> = Vec::new();
    let mut to_unlink: Vec<String> = Vec::new();
    let mut i: usize = 0;
    proof {
        assert(text::views(to_trash@) =~= Seq::<Seq<char>>::empty());
        assert(text::views(to_unlink@) =~= Seq::<Seq<char>>::empty());
    }
    while i < assets.len()
        invariant
            i <= assets.len(),
            assets.len() == counts.len(),
            text::views(to_trash@) == ids_by_membership(assets@, counts@, i as int, false),
            text::views(to_unlink@) == ids_by_membership(assets@, counts@, i as int, true),
            to_trash@.len() + to_unlink@.len() == i,
        decreases assets.len() - i,
    {
        let id: String = assets[i].id.clone();
        let elsewhere: bool = match counts[i] {
            Some(n) => n > 1,
            None => false,
        };
        if elsewhere {
            assert(text::views(to_unlink@.push(id)) =~= text::views(to_unlink@).push(id@));
            to_unlink.push(id);
        } else {
            assert(text::views(to_trash@.push(id)) =~= text::views(to_trash@).push(id@));
            to_trash.push(id);
        }
        i = i + 1;
    }
    (to_trash, to_unlink)
}

/// How many assets left the album, given which of the two requests succeeded. A request for an
/// empty list is not made and counts for nothing.
pub fn remote_deletion_count(
    trashed: usize,
    trash_succeeded: bool,
    unlinked: usize,
    unlink_succeeded: bool,
) -> (r: usize)
    requires
        trashed + unlinked <= usize::MAX,
    ensures
        r == (if trash_succeeded {
            trashed as int
        } else {
            0
        }) + (if unlink_succeeded {
            unlinked as int
        } else {
            0
        }),
{
    let mut ok: usize = 0;
    if trashed > 0 && trash_succeeded {
        ok = ok + trashed;
    }
    if unlinked > 0 && unlink_succeeded {
        ok = ok + unlinked;
    }
    ok
}

/// The outcome of the deletion of local files: none is deleted and none fails while they cannot
/// be moved to the trash.
pub fn execute_local_deletions(_entries: &Vec<LocalEntry>) -> (r: (usize, usize))
    ensures
        r == (0usize, 0usize),
{
    (0, 0)
}

/// The last attempt at a free name.
pub const LAST_ATTEMPT: u32 = 999;

/// The name of the `n`-th attempt: the stem, the number in brackets, the extension.
pub open spec fn numbered_name(stem: Seq<char>, ext: Seq<char>, n: nat) -> Seq<char> {
    if ext.len() == 0 {
        stem + " ("@ + text::decimal(n) + ")"@
    } else {
        stem + " ("@ + text::decimal(n) + ")."@ + ext
    }
}

/// The stem of a file name; "download" where it has none.
pub open spec fn stem_or_default(filename: Seq<char>) -> Seq<char> {
    match path::stem_of(filename) {
        Some(stem) => stem,
        None => "download"@,
    }
}

/// The extension of a file name; empty where it has none.
pub open spec fn extension_or_empty(filename: Seq<char>) -> Seq<char> {
    match path::extension_of(filename) {
        Some(ext) => ext,
        None => Seq::empty(),
    }
}

/// The `n`-th attempt at a destination: the safe name itself, then numbered names.
pub open spec fn destination_attempt(
    folder: Seq<char>,
    safe_name: Option<String>,
    filename: Seq<char>,
    n: nat,
) -> Seq<char> {
    if n == 0 {
        path::joined_path(
            folder,
            match safe_name {
                Some(name) => name@,
                None => "download"@,
            },
        )
    } else {
        path::joined_path(
            folder,
            numbered_name(stem_or_default(filename), extension_or_empty(filename), n),
        )
    }
}

/// The name of the `n`-th attempt.
pub fn numbered(stem: &str, ext: &str, n: u32) -> (r: String)
    ensures
        r@ == numbered_name(stem@, ext@, n as nat),
{
    let mut out: String = concat2(stem, " (");
    out.append(number(n as u64).as_str());
    if ext.is_empty() {
        out.append(")");
    } else {
        out.append(").");
        out.append(ext);
    }
    out
}

/// Whether the list holds a text.
pub fn lists_text(texts: &Vec<String>, wanted: &str) -> (r: bool)
    ensures
        r == text::views(texts@).contains(wanted@),
{
    let mut i: usize = 0;
    while i < texts.len()
        invariant
            i <= texts.len(),
            forall|k: int| 0 <= k < i ==> (#[trigger] texts@[k])@ != wanted@,
        decreases texts.len() - i,
    {
        if same_text(texts[i].as_str(), wanted) {
            assert(text::views(texts@)[i as int] == wanted@);
            return true;
        }
        i = i + 1;
    }
    proof {
        if text::views(texts@).contains(wanted@) {
            let k = text::views(texts@).index_of(wanted@);
            assert(texts@[k]@ == wanted@);
        }
    }
    false
}

/// A path below `folder` that nothing exists at: the first free attempt, or the last one where
/// none of them is free. `existing` are the paths that exist.
pub fn unique_destination(
    folder: &str,
    safe_name: Option<String>,
    filename: &str,
    existing: &Vec<String>,
) -> (r: String)
    ensures
        ({
            let taken = text::views(existing@);
            exists|n: nat|
                n <= LAST_ATTEMPT && r@ == #[trigger] destination_attempt(
                    folder@,
                    safe_name,
                    filename@,
                    n,
                ) && (!taken.contains(r@) || n == LAST_ATTEMPT) && forall|m: nat|
                    m < n ==> taken.contains(
                        #[trigger] destination_attempt(folder@, safe_name, filename@, m),
                    )
        }),
{
    let first: String = match &safe_name {
        Some(name) => join_path(folder, name.as_str()),
        None => join_path(folder, "download"),
    };
    assert(first@ == destination_attempt(folder@, safe_name, filename@, 0));
    if !lists_text(existing, first.as_str()) {
        return first;
    }
    let stem: String = match file_stem(filename) {
        Some(s) => s,
        None => owned("download"),
    };
    let ext: String = match extension(filename) {
        Some(e) => e,
        None => String::new(),
    };
    assert(ext@ =~= extension_or_empty(filename@));
    let mut n: u32 = 1;
    let mut candidate: String = first;
    while n <= LAST_ATTEMPT
        invariant
            1 <= n <= LAST_ATTEMPT + 1,
            stem@ == stem_or_default(filename@),
            ext@ == extension_or_empty(filename@),
            candidate@ == destination_attempt(folder@, safe_name, filename@, (n - 1) as nat),
            forall|m: nat|
                m < n ==> text::views(existing@).contains(
                    #[trigger] destination_attempt(folder@, safe_name, filename@, m),
                ),
        decreases LAST_ATTEMPT + 1 - n,
    {
        candidate = join_path(folder, numbered(stem.as_str(), ext.as_str(), n).as_str());
        assert(candidate@ == destination_attempt(folder@, safe_name, filename@, n as nat));
        if !lists_text(existing, candidate.as_str()) {
            return candidate;
        }
        n = n + 1;
    }
    assert(candidate@ == destination_attempt(folder@, safe_name, filename@, LAST_ATTEMPT as nat));
    candidate
}

/// What a progress report changes: the item's total, where it becomes known, and its bytes.
#[derive(Clone, Copy, Debug, PartialEq, Eq, Structural)]
pub struct ProgressUpdate {
    pub set_total: Option<u64>,
    pub bytes_done: u64,
}

/// What a progress report changes. The total is taken over only while none is known: `known_total`
/// is the registered one, zero where there is none.
pub fn album_download_progress(
    known_total: u64,
    bytes_done: u64,
    total_bytes: Option<u64>,
) -> (r: ProgressUpdate)
    ensures
        r.bytes_done == bytes_done,
        r.set_total == if known_total == 0 {
            total_bytes
        } else {
            None
        },
{
    ProgressUpdate {
        set_total: if known_total == 0 {
            total_bytes
        } else {
            None
        },
        bytes_done,
    }
}

/// Numbered names of one stem and extension differ where their numbers do.
pub proof fn attempts_are_distinct(stem: Seq<char>, ext: Seq<char>, n: nat, m: nat)
    requires
        n != m,
    ensures
        numbered_name(stem, ext, n) != numbered_name(stem, ext, m),
{
    let head = stem + " ("@;
    let tail = if ext.len() == 0 {
        ")"@
    } else {
        ")."@ + ext
    };
    let a = numbered_name(stem, ext, n);
    let b = numbered_name(stem, ext, m);
    assert(a =~= head + text::decimal(n) + tail);
    assert(b =~= head + text::decimal(m) + tail);
    if a == b {
        assert(text::decimal(n).len() == text::decimal(m).len());
        assert(a.subrange(head.len() as int, a.len() - tail.len()) =~= text::decimal(n));
        assert(b.subrange(head.len() as int, b.len() - tail.len()) =~= text::decimal(m));
        text::decimal_is_injective(n, m);
    }
}

/// An asset that leaves the album is trashed unless it is in other albums too; then it is only taken
/// out of this one. Every asset is dealt with one way.
pub proof fn shared_assets_are_only_unlinked(
    assets: &Vec<LibraryAsset>,
    counts: &Vec<Option<u32>>,
    r: (Vec<String>, Vec<String>),
    a: int,
)
    requires
        assets@.len() == counts@.len(),
        call_ensures(split_remote_deletions, (assets, counts), r),
        0 <= a < assets@.len(),
    ensures
        counts@[a] is Some && counts@[a]->0 >= 2 ==> text::views(r.1@).contains(assets@[a].id@),
        counts@[a] is None || counts@[a]->0 <= 1 ==> text::views(r.0@).contains(assets@[a].id@),
        r.0@.len() + r.1@.len() == assets@.len(),
{
    let n = assets@.len() as int;
    let elsewhere = is_elsewhere(counts@[a]);
    let k = place_by_membership(assets@, counts@, n, a);
    let ids = ids_by_membership(assets@, counts@, n, elsewhere);
    assert(ids.contains(ids[k]));
}

proof fn place_by_membership(
    assets: Seq<LibraryAsset>,
    counts: Seq<Option<u32>>,
    n: int,
    a: int,
) -> (k: int)
    requires
        0 <= a < n <= assets.len(),
        assets.len() == counts.len(),
    ensures
        0 <= k < ids_by_membership(assets, counts, n, is_elsewhere(counts[a])).len(),
        ids_by_membership(assets, counts, n, is_elsewhere(counts[a]))[k] == assets[a].id@,
    decreases n,
{
    let elsewhere = is_elsewhere(counts[a]);
    if a < n - 1 {
        place_by_membership(assets, counts, n - 1, a)
    } else {
        ids_by_membership(assets, counts, n - 1, elsewhere).len() as int
    }
}

/// A download never takes the path of an existing file, unless that path and all numbered ones are
/// taken.
pub proof fn download_takes_a_free_path(
    folder: &str,
    safe_name: Option<String>,
    filename: &str,
    existing: &Vec<String>,
    r: String,
)
    requires
        call_ensures(unique_destination, (folder, safe_name, filename, existing), r),
        safe_name is Some,
    ensures
        ({
            let taken = text::views(existing@);
            let plain = path::joined_path(folder@, safe_name->0@);
            &&& !taken.contains(plain) ==> r@ == plain
            &&& taken.contains(r@) ==> taken.contains(plain) && forall|m: nat|
                1 <= m < 999 ==> taken.contains(
                    path::joined_path(
                        folder@,
                        #[trigger] numbered_name(
                            stem_or_default(filename@),
                            extension_or_empty(filename@),
                            m,
                        ),
                    ),
                )
        }),
{
    let taken = text::views(existing@);
    let n = choose|n: nat|
        n <= LAST_ATTEMPT && r@ == #[trigger] destination_attempt(
            folder@,
            safe_name,
            filename@,
            n,
        ) && (!taken.contains(r@) || n == LAST_ATTEMPT) && forall|m: nat|
            m < n ==> taken.contains(
                #[trigger] destination_attempt(folder@, safe_name, filename@, m),
            );
    if n > 0 {
        assert(taken.contains(destination_attempt(folder@, safe_name, filename@, 0)));
    }
    if taken.contains(r@) {
        assert forall|m: nat| 1 <= m < 999 implies taken.contains(
            path::joined_path(
                folder@,
                #[trigger] numbered_name(
                    stem_or_default(filename@),
                    extension_or_empty(filename@),
                    m,
                ),
            ),
        ) by {
            assert(taken.contains(destination_attempt(folder@, safe_name, filename@, m)));
        }
    }
}

/// A file is uploaded as it stands, into the album, with its sidecar exactly where the folder wants
/// sidecars.
pub proof fn upload_goes_into_the_album(
    entry: &LocalEntry,
    watch_path: &str,
    album_id: &str,
    album_name: &str,
    with_sidecar: bool,
    sidecar: Option<String>,
    task: FileTask,
)
    requires
        call_ensures(
            upload_task,
            (entry, watch_path, album_id, album_name, with_sidecar, sidecar),
            task,
        ),
    ensures
        task.path@ == entry.local.path@ && task.checksum@ == entry.checksum@,
        task.album_id is Some && task.album_id->0@ == album_id@,
        task.album_name is Some && task.album_name->0@ == album_name@,
        task.sidecar_path is Some ==> with_sidecar && task.sidecar_path == sidecar,
        with_sidecar ==> task.sidecar_path == sidecar,
        !task.skip_album && !task.reassociate_only,
{
}

} // verus!
