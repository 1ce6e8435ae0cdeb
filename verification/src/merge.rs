//! Pages of the photo grid: remote assets together with the local files they do not cover.
use vstd::prelude::*;
use vstd::hash_map::StringHashMap;
use vstd::hash_set::StringHashSet;
use vstd::string::*;
use crate::api::LibraryAsset;
use crate::checksum;
use crate::checksum::immich_checksum_to_hex;
use crate::local_source;
use crate::local_source::{filter_by_filename, synthetic_id, LocalAsset, LOCAL_ID_PREFIX};
use crate::order;
use crate::order::{refs_sorted_by_keys, Descending};
use crate::seqs;
use crate::sync_index;
use crate::sync_index::{SyncIndex, SyncRecord};
use crate::text;
use crate::text::owned;

verus! {

/// A page of assets and whether more follow, or the reason why there is none.
pub type PageResult = Result<(Vec<LibraryAsset>, bool), String>;

/// The row stands for the local file.
pub open spec fn is_row_of(row: LibraryAsset, local: LocalAsset) -> bool {
    &&& row.id@ == LOCAL_ID_PREFIX@ + local.path@
    &&& row.filename@ == local.filename@
    &&& row.mime_type@ == local.mime@
    &&& row.created_at@ == local.created_at@
    &&& row.asset_type@ == local.asset_type@
    &&& row.thumbhash is None
    &&& row.width is None
    &&& row.height is None
    &&& row.checksum is None
    &&& row.exif_info is None
}

/// The row of a local file.
pub fn local_to_library_asset(local: &LocalAsset) -> (r: LibraryAsset)
    ensures
        is_row_of(r, *local),
{
    LibraryAsset {
        id: synthetic_id(local),
        filename: local.filename.clone(),
        mime_type: local.mime.clone(),
        created_at: local.created_at.clone(),
        asset_type: owned(local.asset_type),
        thumbhash: None,
        width: None,
        height: None,
        checksum: None,
        exif_info: None,
    }
}

/// The rows stand for the local files, one by one.
pub open spec fn are_rows_of(rows: Seq<LibraryAsset>, locals: Seq<LocalAsset>) -> bool {
    &&& rows.len() == locals.len()
    &&& forall|i: int| 0 <= i < rows.len() ==> is_row_of(#[trigger] rows[i], locals[i])
}

/// The rows of a list of local files.
pub fn local_rows(locals: &Vec<LocalAsset>) -> (r: Vec<LibraryAsset>)
    ensures
        are_rows_of(r@, locals@),
{
    let mut out: Vec<LibraryAsset> = Vec::new();
    let mut i: usize = 0;
    while i < locals.len()
        invariant
            i <= locals.len(),
            out.len() == i,
            forall|k: int| 0 <= k < i ==> is_row_of(#[trigger] out@[k], locals@[k]),
        decreases locals.len() - i,
    {
        out.push(local_to_library_asset(&locals[i]));
        i = i + 1;
    }
    out
}

/// The asset's content is recorded in the index at the given path.
pub open spec fn is_synced_at(asset: LibraryAsset, index: SyncIndex, file: Seq<char>) -> bool {
    &&& asset.checksum is Some
    &&& checksum::hex_of_checksum(asset.checksum->0@) matches Some(hex) && sync_index::path_of(
        index.entries@,
        hex,
    ) == Some(file)
}

/// The file at the given path is the local copy of one of the assets.
pub open spec fn covers(assets: Seq<LibraryAsset>, index: SyncIndex, file: Seq<char>) -> bool {
    seqs::has(assets, |a: LibraryAsset| is_synced_at(a, index, file))
}

/// The paths of the local copies of the assets.
fn synced_paths(assets: &Vec<LibraryAsset>, index: &SyncIndex) -> (r: StringHashSet)
    ensures
        forall|p: Seq<char>| #[trigger] r@.contains(p) <==> covers(assets@, *index, p),
{
    let by_checksum: StringHashMap<String> = index.by_checksum();
    let mut set: StringHashSet = StringHashSet::new();
    let mut i: usize = 0;
    assert(assets@.take(0) =~= Seq::<LibraryAsset>::empty());
    while i < assets.len()
        invariant
            i <= assets.len(),
            forall|c: Seq<char>|
                #[trigger] by_checksum@.contains_key(c) <==> sync_index::path_of(index.entries@, c)
                    is Some,
            forall|c: Seq<char>|
                by_checksum@.contains_key(c) ==> (#[trigger] by_checksum@[c])@
                    == sync_index::path_of(index.entries@, c)->0,
            forall|p: Seq<char>|
                #[trigger] set@.contains(p) <==> covers(assets@.take(i as int), *index, p),
        decreases assets.len() - i,
    {
        let ghost asset = assets@[i as int];
        proof {
            assert forall|p: Seq<char>| #[trigger]
                covers(assets@.take(i + 1), *index, p) <==> covers(
                    assets@.take(i as int),
                    *index,
                    p,
                ) || is_synced_at(asset, *index, p) by {
                seqs::has_step(assets@, |a: LibraryAsset| is_synced_at(a, *index, p), i as int);
            }
        }
        if let Some(c) = &assets[i].checksum {
            if let Some(hex) = immich_checksum_to_hex(c.as_str()) {
                if let Some(file) = by_checksum.get(hex.as_str()) {
                    let _fresh: bool = set.insert(file.clone());
                }
            }
        }
        i = i + 1;
    }
    assert(assets@.take(i as int) =~= assets@);
    set
}

/// The local files that none of the remote assets covers.
pub open spec fn uncovered(
    locals: Seq<LocalAsset>,
    remote: Seq<LibraryAsset>,
    index: SyncIndex,
) -> Seq<LocalAsset> {
    locals.filter(|l: LocalAsset| !covers(remote, index, l.path@))
}

fn uncovered_files(
    locals: &Vec<LocalAsset>,
    remote: &Vec<LibraryAsset>,
    index: &SyncIndex,
) -> (r: Vec<LocalAsset>)
    ensures
        r@ == uncovered(locals@, remote@, *index),
{
    let synced: StringHashSet = synced_paths(remote, index);
    let ghost keep = |l: LocalAsset| !covers(remote@, *index, l.path@);
    let mut out: Vec<LocalAsset> = Vec::new();
    let mut i: usize = 0;
    proof {
        seqs::filter_ends(locals@, keep);
    }
    while i < locals.len()
        invariant
            i <= locals.len(),
            forall|p: Seq<char>| #[trigger] synced@.contains(p) <==> covers(remote@, *index, p),
            keep == |l: LocalAsset| !covers(remote@, *index, l.path@),
            out@ == locals@.take(i as int).filter(keep),
        decreases locals.len() - i,
    {
        proof {
            seqs::filter_step(locals@, keep, i as int);
        }
        if !synced.contains(locals[i].path.as_str()) {
            out.push(locals[i].clone());
        }
        i = i + 1;
    }
    out
}

/// The rows of the local files, then the remote assets.
pub open spec fn is_unified_page(
    page: Seq<LibraryAsset>,
    locals: Seq<LocalAsset>,
    remote: Seq<LibraryAsset>,
) -> bool {
    &&& page.len() == locals.len() + remote.len()
    &&& are_rows_of(page.take(locals.len() as int), locals)
    &&& page.skip(locals.len() as int) == remote
}

/// The local files a unified search lists: those whose name matches, where there is a query.
pub open spec fn searched(locals: Seq<LocalAsset>, query: Option<Seq<char>>) -> Seq<LocalAsset> {
    match query {
        None => locals,
        Some(q) => if text::trimmed(q).len() == 0 {
            locals
        } else {
            locals.filter(|a: LocalAsset| local_source::name_matches(a, q))
        },
    }
}

/// A page of the unified view: on the first page the local files that no remote asset of the page
/// covers stand in front; further pages, and errors, are handed on.
pub fn merge_unified_page(
    remote: PageResult,
    page: u32,
    locals: Vec<LocalAsset>,
    index: &SyncIndex,
    query: Option<&str>,
) -> (r: PageResult)
    ensures
        remote is Err ==> r == remote,
        remote is Ok && page > 1 ==> r == remote,
        remote is Ok && page <= 1 ==> {
            let wanted = searched(
                locals@,
                match query {
                    Some(q) => Some(q@),
                    None => None,
                },
            );
            r matches Ok((rows, has_more)) && has_more == remote->Ok_0.1 && is_unified_page(
                rows@,
                uncovered(wanted, remote->Ok_0.0@, *index),
                remote->Ok_0.0@,
            )
        },
{
    match remote {
        Err(e) => Err(e),
        Ok((assets, has_more)) => {
            if page > 1 {
                return Ok((assets, has_more));
            }
            let wanted: Vec<LocalAsset> = match query {
                Some(q) => filter_by_filename(locals, q),
                None => locals,
            };
            let shown: Vec<LocalAsset> = uncovered_files(&wanted, &assets, index);
            let mut rows: Vec<LibraryAsset> = local_rows(&shown);
            let ghost front = rows@;
            let ghost back = assets@;
            let mut rest: Vec<LibraryAsset> = assets;
            rows.append(&mut rest);
            proof {
                assert(rows@ =~= front + back);
                assert(rows@.take(shown@.len() as int) =~= front);
                assert(rows@.skip(shown@.len() as int) =~= back);
            }
            Ok((rows, has_more))
        },
    }
}

/// A page of the unified view of an album: as [`merge_unified_page`], with the files of the folder
/// linked to the album, if one is.
pub fn merge_album_unified_page(
    remote: PageResult,
    page: u32,
    linked_files: Option<Vec<LocalAsset>>,
    index: &SyncIndex,
) -> (r: PageResult)
    ensures
        remote is Err ==> r == remote,
        remote is Ok && page > 1 ==> r == remote,
        remote is Ok && page <= 1 ==> {
            let files = match linked_files {
                Some(list) => list@,
                None => Seq::empty(),
            };
            r matches Ok((rows, has_more)) && has_more == remote->Ok_0.1 && is_unified_page(
                rows@,
                uncovered(files, remote->Ok_0.0@, *index),
                remote->Ok_0.0@,
            )
        },
{
    let files: Vec<LocalAsset> = match linked_files {
        Some(list) => list,
        None => Vec::new(),
    };
    merge_unified_page(remote, page, files, index, None)
}

/// The newest first, by the creation time as text.
pub open spec fn newest_first() -> spec_fn(LibraryAsset, LibraryAsset) -> bool {
    |a: LibraryAsset, b: LibraryAsset| text::text_le(b.created_at@, a.created_at@)
}

/// The gallery file is not backed up: the index has no record of it and no asset of the page covers
/// it.
pub open spec fn is_unbacked(
    local: LocalAsset,
    remote: Seq<LibraryAsset>,
    index: SyncIndex,
) -> bool {
    index.record(local.path@) is None && !covers(remote, index, local.path@)
}

/// The assets, newest first, those of the same time as they stood.
pub fn sorted_newest_first(assets: &Vec<LibraryAsset>) -> (r: Vec<LibraryAsset>)
    ensures
        r@ == order::stable_sort(assets@, newest_first()),
{
    let mut refs: Vec<&LibraryAsset> = Vec::new();
    let mut keys: Vec<Descending<String>> = Vec::new();
    let mut i: usize = 0;
    while i < assets.len()
        invariant
            i <= assets.len(),
            refs.len() == i,
            keys.len() == i,
            forall|k: int| 0 <= k < i ==> *(#[trigger] refs@[k]) == assets@[k],
            forall|k: int| 0 <= k < i ==> (#[trigger] keys@[k]).key@ == assets@[k].created_at@,
        decreases assets.len() - i,
    {
        refs.push(&assets[i]);
        keys.push(Descending { key: assets[i].created_at.clone() });
        i = i + 1;
    }
    assert(order::behind(refs@) =~= assets@);
    let sorted: Vec<&LibraryAsset> = refs_sorted_by_keys(&refs, &keys, Ghost(newest_first()));
    let mut out: Vec<LibraryAsset> = Vec::new();
    let mut j: usize = 0;
    while j < sorted.len()
        invariant
            j <= sorted.len(),
            out@ == order::behind(sorted@).take(j as int),
        decreases sorted.len() - j,
    {
        let ghost all = order::behind(sorted@);
        assert(all.take(j + 1) =~= all.take(j as int).push(*sorted@[j as int]));
        out.push(sorted[j].clone());
        j = j + 1;
    }
    assert(order::behind(sorted@).take(j as int) =~= order::behind(sorted@));
    out
}

/// A page of the galleries view: on the first page the remote assets and the rows of the gallery
/// files that are not backed up, together newest first; further pages, and errors, are handed on.
pub fn merge_galleries_page(
    remote: PageResult,
    page: u32,
    locals: Vec<LocalAsset>,
    index: &SyncIndex,
) -> (r: PageResult)
    ensures
        remote is Err ==> r == remote,
        remote is Ok && page > 1 ==> r == remote,
        remote is Ok && page <= 1 ==> {
            let unbacked = locals@.filter(
                |l: LocalAsset| is_unbacked(l, remote->Ok_0.0@, *index),
            );
            r matches Ok((rows, has_more)) && has_more == remote->Ok_0.1 && exists|
                local_part: Seq<LibraryAsset>,
            |
                #[trigger] are_rows_of(local_part, unbacked) && rows@ == order::stable_sort(
                    remote->Ok_0.0@ + local_part,
                    newest_first(),
                )
        },
{
    match remote {
        Err(e) => Err(e),
        Ok((assets, has_more)) => {
            if page > 1 {
                return Ok((assets, has_more));
            }
            let ghost front = assets@;
            let synced: StringHashSet = synced_paths(&assets, index);
            let recorded: StringHashMap<SyncRecord> = index.by_path();
            let ghost keep = |l: LocalAsset| is_unbacked(l, front, *index);
            let mut unbacked: Vec<LocalAsset> = Vec::new();
            let mut i: usize = 0;
            proof {
                seqs::filter_ends(locals@, keep);
            }
            while i < locals.len()
                invariant
                    i <= locals.len(),
                    forall|p: Seq<char>|
                        #[trigger] synced@.contains(p) <==> covers(front, *index, p),
                    forall|p: Seq<char>|
                        #[trigger] recorded@.contains_key(p) <==> index.record(p) is Some,
                    keep == |l: LocalAsset| is_unbacked(l, front, *index),
                    unbacked@ == locals@.take(i as int).filter(keep),
                decreases locals.len() - i,
            {
                proof {
                    seqs::filter_step(locals@, keep, i as int);
                }
                if !recorded.contains_key(locals[i].path.as_str()) && !synced.contains(
                    locals[i].path.as_str(),
                ) {
                    unbacked.push(locals[i].clone());
                }
                i = i + 1;
            }
            let mut rows: Vec<LibraryAsset> = local_rows(&unbacked);
            let ghost local_part = rows@;
            let mut merged: Vec<LibraryAsset> = assets;
            merged.append(&mut rows);
            assert(merged@ =~= front + local_part);
            assert(are_rows_of(local_part, unbacked@));
            Ok((sorted_newest_first(&merged), has_more))
        },
    }
}

/// The order "newest first" compares any two assets, and consistently.
pub proof fn newest_first_is_a_ranking()
    ensures
        order::is_ranking(newest_first()),
{
    let le = newest_first();
    assert forall|a: LibraryAsset, b: LibraryAsset| #[trigger] le(a, b) || #[trigger] le(b, a) by {
        text::text_le_total(a.created_at@, b.created_at@);
    }
    assert forall|a: LibraryAsset, b: LibraryAsset, c: LibraryAsset|
        #[trigger] le(a, b) && #[trigger] le(b, c) implies le(a, c) by {
        text::text_le_transitive(c.created_at@, b.created_at@, a.created_at@);
    }
}

/// A unified page lists every remote asset, and no local file that one of them covers: the two
/// copies of a photo never stand in it together.
pub proof fn unified_page_lists_no_photo_twice(
    page: Seq<LibraryAsset>,
    locals: Seq<LocalAsset>,
    remote: Seq<LibraryAsset>,
    index: SyncIndex,
    asset: LibraryAsset,
    file: Seq<char>,
)
    requires
        is_unified_page(page, uncovered(locals, remote, index), remote),
    ensures
        remote.contains(asset) ==> page.contains(asset),
        covers(remote, index, file) ==> forall|i: int|
            0 <= i < uncovered(locals, remote, index).len() ==> (#[trigger] page[i]).id@
                != LOCAL_ID_PREFIX@ + file,
{
    let shown = uncovered(locals, remote, index);
    let n = shown.len() as int;
    if remote.contains(asset) {
        let i = remote.index_of(asset);
        assert(page.skip(n)[i] == asset);
        assert(page[n + i] == asset);
    }
    if covers(remote, index, file) {
        assert forall|i: int| 0 <= i < n implies (#[trigger] page[i]).id@ != LOCAL_ID_PREFIX@
            + file by {
            assert(page.take(n)[i] == page[i]);
            seqs::filter_contents(locals, |l: LocalAsset| !covers(remote, index, l.path@));
            assert(shown.contains(shown[i]));
            let p = LOCAL_ID_PREFIX@;
            assert((p + shown[i].path@).skip(p.len() as int) =~= shown[i].path@);
            assert((p + file).skip(p.len() as int) =~= file);
        }
    }
}

/// A galleries page keeps every remote asset and every row of an unbacked file, adds nothing, and
/// is in newest-first order.
pub proof fn galleries_page_keeps_everything(
    remote: Seq<LibraryAsset>,
    local_part: Seq<LibraryAsset>,
)
    ensures
        ({
            let rows = order::stable_sort(remote + local_part, newest_first());
            &&& rows.len() == remote.len() + local_part.len()
            &&& forall|a: LibraryAsset|
                rows.contains(a) <==> remote.contains(a) || local_part.contains(a)
            &&& forall|i: int, j: int|
                0 <= i < j < rows.len() ==> text::text_le(
                    (#[trigger] rows[j]).created_at@,
                    (#[trigger] rows[i]).created_at@,
                )
        }),
{
    let all = remote + local_part;
    newest_first_is_a_ranking();
    order::sort_keeps_elements(all, newest_first());
    let rows = order::stable_sort(all, newest_first());
    assert forall|a: LibraryAsset|
        rows.contains(a) <==> remote.contains(a) || local_part.contains(a) by {
        if remote.contains(a) {
            assert(all[remote.index_of(a)] == a);
        }
        if local_part.contains(a) {
            assert(all[remote.len() + local_part.index_of(a)] == a);
        }
        if all.contains(a) {
            let i = all.index_of(a);
            if i < remote.len() {
                assert(remote[i] == a);
            } else {
                assert(local_part[i - remote.len()] == a);
            }
        }
    }
}

/// Entry `k` of the index is the first that records the content of an asset: the hexadecimal digits
/// of the bytes that the asset's Base64 checksum stands for.
pub open spec fn records_content(asset: LibraryAsset, index: SyncIndex, k: int) -> bool {
    &&& 0 <= k < index.entries@.len()
    &&& asset.checksum matches Some(c) && checksum::base64_bytes(c@) matches Some(bytes)
        && checksum::writes_bytes(index.entries@[k].record.checksum@, bytes)
    &&& forall|m: int|
        0 <= m < k ==> (#[trigger] index.entries@[m]).record.checksum@
            != index.entries@[k].record.checksum@
}

proof fn path_of_first(entries: Seq<sync_index::SyncEntry>, text: Seq<char>) -> (k: int)
    ensures
        sync_index::path_of(entries, text) is Some ==> 0 <= k < entries.len()
            && entries[k].record.checksum@ == text && sync_index::path_of(entries, text) == Some(
            entries[k].path@,
        ) && forall|m: int| 0 <= m < k ==> (#[trigger] entries[m]).record.checksum@ != text,
        sync_index::path_of(entries, text) is None ==> forall|m: int|
            0 <= m < entries.len() ==> (#[trigger] entries[m]).record.checksum@ != text,
    decreases entries.len(),
{
    if entries.len() == 0 {
        0
    } else {
        let front = entries.drop_last();
        let k = path_of_first(front, text);
        if sync_index::path_of(front, text) is Some {
            assert forall|m: int| 0 <= m < k implies (#[trigger] entries[m]).record.checksum@
                != text by {
                assert(front[m] == entries[m]);
            }
            k
        } else {
            assert forall|m: int| 0 <= m < entries.len() - 1 implies (
            #[trigger] entries[m]).record.checksum@ != text by {
                assert(front[m] == entries[m]);
            }
            entries.len() - 1
        }
    }
}

/// A file is covered exactly where the first entry with the content of some asset is at its path.
proof fn covered_where_recorded(assets: Seq<LibraryAsset>, index: SyncIndex, file: Seq<char>)
    ensures
        covers(assets, index, file) <==> is_copy_of_one(file, assets, index),
{
    let pass = |a: LibraryAsset| is_synced_at(a, index, file);
    if covers(assets, index, file) {
        let a = choose|a: int| 0 <= a < assets.len() && pass(#[trigger] assets[a]);
        let bytes = checksum::base64_bytes(assets[a].checksum->0@)->0;
        checksum::hex_writes_bytes(bytes);
        let k = path_of_first(index.entries@, checksum::hex(bytes));
        assert(records_content(assets[a], index, k));
    }
    if is_copy_of_one(file, assets, index) {
        let (a, k) = choose|a: int, k: int|
            0 <= a < assets.len() && #[trigger] records_content(assets[a], index, k)
                && index.entries@[k].path@ == file;
        let bytes = checksum::base64_bytes(assets[a].checksum->0@)->0;
        let text = index.entries@[k].record.checksum@;
        checksum::hex_writes_bytes(bytes);
        checksum::bytes_are_written_one_way(text, checksum::hex(bytes), bytes);
        let first = path_of_first(index.entries@, text);
        assert(index.entries@[k].record.checksum@ == text);
        assert(first == k) by {
            if first < k {
                assert(index.entries@[first].record.checksum@ != text);
            } else if k < first {
                assert(index.entries@[k].record.checksum@ != text);
            }
        }
        assert(pass(assets[a]));
    }
}

proof fn prefix_tells_paths_apart(a: Seq<char>, b: Seq<char>)
    requires
        LOCAL_ID_PREFIX@ + a == LOCAL_ID_PREFIX@ + b,
    ensures
        a == b,
{
    let p = LOCAL_ID_PREFIX@;
    assert((p + a).skip(p.len() as int) =~= a);
    assert((p + b).skip(p.len() as int) =~= b);
}

/// The first page of the unified view ends with the server's assets as they came. Every row before
/// them stands for a local file whose name contains the query, trimmed and without regard to case,
/// where there is one; and no such row is the copy of an asset of the page, that is a file at which
/// the index first records the hexadecimal digits of the bytes of the asset's Base64 checksum.
pub proof fn unified_page_shows_photos_once(
    assets: Vec<LibraryAsset>,
    more: bool,
    page: u32,
    locals: Vec<LocalAsset>,
    index: &SyncIndex,
    query: Option<&str>,
    r: PageResult,
)
    requires
        page <= 1,
        call_ensures(merge_unified_page, (Ok((assets, more)), page, locals, index, query), r),
    ensures
        r is Ok,
        r->Ok_0.1 == more,
        unified_rows_are_right(
            r->Ok_0.0@,
            assets@,
            locals@,
            *index,
            match query {
                Some(q) => Some(q@),
                None => None,
            },
        ),
{
    let rows = r->Ok_0.0@;
    let typed = match query {
        Some(q) => Some(q@),
        None => None,
    };
    let wanted = searched(locals@, typed);
    assert(is_unified_page(rows, uncovered(wanted, assets@, *index), assets@));
    searched_files(locals@, typed);
    unified_rows(rows, assets@, locals@, wanted, *index, typed);
}

/// The first page of an album's unified view ends with the server's assets as they came. The rows
/// before them stand for files of the linked folder, and none of them is the copy of an asset of
/// the page.
pub proof fn album_page_shows_photos_once(
    assets: Vec<LibraryAsset>,
    more: bool,
    page: u32,
    files: Vec<LocalAsset>,
    index: &SyncIndex,
    r: PageResult,
)
    requires
        page <= 1,
        call_ensures(
            merge_album_unified_page,
            (Ok((assets, more)), page, Some(files), index),
            r,
        ),
    ensures
        r is Ok,
        r->Ok_0.1 == more,
        unified_rows_are_right(r->Ok_0.0@, assets@, files@, *index, None),
{
    let rows = r->Ok_0.0@;
    assert(is_unified_page(rows, uncovered(files@, assets@, *index), assets@));
    unified_rows(rows, assets@, files@, files@, *index, None);
}

/// The name of a file contains the query, trimmed and without regard to case; any name where there is
/// no query, or a blank one.
pub open spec fn is_searched_for(file: LocalAsset, query: Option<Seq<char>>) -> bool {
    query matches Some(q) ==> text::trimmed(q).len() == 0 || text::occurs_in(
        text::lowered(file.filename@),
        text::lowered(text::trimmed(q)),
    )
}

/// The files a search lists are those whose name contains the text.
pub proof fn searched_files(locals: Seq<LocalAsset>, query: Option<Seq<char>>)
    ensures
        forall|l: LocalAsset| #[trigger]
            searched(locals, query).contains(l) <==> locals.contains(l) && is_searched_for(
                l,
                query,
            ),
{
    if let Some(q) = query {
        seqs::filter_contents(locals, |a: LocalAsset| local_source::name_matches(a, q));
    }
}

/// The row stands for one of the files.
pub open spec fn stands_for_one(
    row: LibraryAsset,
    files: Seq<LocalAsset>,
    query: Option<Seq<char>>,
) -> bool {
    exists|f: int|
        0 <= f < files.len() && row.id@ == LOCAL_ID_PREFIX@ + (#[trigger] files[f]).path@
            && row.filename@ == files[f].filename@ && row.mime_type@ == files[f].mime@
            && row.created_at@ == files[f].created_at@ && row.asset_type@ == files[f].asset_type@
            && is_searched_for(files[f], query)
}

/// One of the first `n` rows has the id of the file.
pub open spec fn has_row_of(rows: Seq<LibraryAsset>, n: int, file: LocalAsset) -> bool {
    exists|i: int| 0 <= i < n && (#[trigger] rows[i]).id@ == LOCAL_ID_PREFIX@ + file.path@
}

/// The file is the copy of one of the assets: the index first records the asset's content at it.
pub open spec fn is_copy_of_one(
    file: Seq<char>,
    assets: Seq<LibraryAsset>,
    index: SyncIndex,
) -> bool {
    exists|a: int, k: int|
        0 <= a < assets.len() && #[trigger] records_content(assets[a], index, k)
            && index.entries@[k].path@ == file
}

/// What the rows of a unified page have to be, whatever makes them: see
/// [`unified_page_shows_photos_once`].
pub open spec fn unified_rows_are_right(
    rows: Seq<LibraryAsset>,
    assets: Seq<LibraryAsset>,
    locals: Seq<LocalAsset>,
    index: SyncIndex,
    query: Option<Seq<char>>,
) -> bool {
    let n = rows.len() - assets.len();
    &&& n >= 0
    &&& forall|j: int| 0 <= j < assets.len() ==> rows[n + j] == #[trigger] assets[j]
    &&& forall|i: int| 0 <= i < n ==> stands_for_one(#[trigger] rows[i], locals, query)
    &&& forall|i: int, file: Seq<char>|
        0 <= i < n && #[trigger] is_copy_of_one(file, assets, index) ==> (
        #[trigger] rows[i]).id@ != LOCAL_ID_PREFIX@ + file
    &&& forall|f: int|
        0 <= f < locals.len() && is_searched_for(#[trigger] locals[f], query) && !is_copy_of_one(
            locals[f].path@,
            assets,
            index,
        ) ==> has_row_of(rows, n, locals[f])
}

proof fn unified_rows(
    rows: Seq<LibraryAsset>,
    assets: Seq<LibraryAsset>,
    locals: Seq<LocalAsset>,
    wanted: Seq<LocalAsset>,
    index: SyncIndex,
    query: Option<Seq<char>>,
)
    requires
        is_unified_page(rows, uncovered(wanted, assets, index), assets),
        forall|l: LocalAsset|
            #[trigger] wanted.contains(l) <==> locals.contains(l) && is_searched_for(l, query),
    ensures
        unified_rows_are_right(rows, assets, locals, index, query),
{
    let shown = uncovered(wanted, assets, index);
    let n = rows.len() - assets.len();
    assert(n == shown.len());
    seqs::filter_contents(wanted, |l: LocalAsset| !covers(assets, index, l.path@));
    assert forall|j: int| 0 <= j < assets.len() implies rows[n + j] == #[trigger] assets[j] by {
        assert(rows.skip(n)[j] == rows[n + j]);
    }
    assert forall|i: int| 0 <= i < n implies stands_for_one(
        #[trigger] rows[i],
        locals,
        query,
    ) by {
        assert(rows.take(n)[i] == rows[i]);
        assert(is_row_of(rows.take(n)[i], shown[i]));
        assert(shown.contains(shown[i]));
        assert(wanted.contains(shown[i]));
        let f = locals.index_of(shown[i]);
        assert(locals[f] == shown[i]);
    }
    assert forall|i: int, file: Seq<char>|
        0 <= i < n && #[trigger] is_copy_of_one(file, assets, index) implies (
    #[trigger] rows[i]).id@ != LOCAL_ID_PREFIX@ + file by {
        assert(rows.take(n)[i] == rows[i]);
        assert(is_row_of(rows.take(n)[i], shown[i]));
        assert(shown.contains(shown[i]));
        covered_where_recorded(assets, index, file);
        if rows[i].id@ == LOCAL_ID_PREFIX@ + file {
            prefix_tells_paths_apart(shown[i].path@, file);
        }
    }
    assert forall|f: int|
        0 <= f < locals.len() && is_searched_for(#[trigger] locals[f], query) && !is_copy_of_one(
            locals[f].path@,
            assets,
            index,
        ) implies has_row_of(rows, n, locals[f]) by {
        let l = locals[f];
        assert(locals.contains(l));
        assert(wanted.contains(l));
        covered_where_recorded(assets, index, l.path@);
        assert(shown.contains(l));
        let i = shown.index_of(l);
        assert(rows.take(n)[i] == rows[i]);
        assert(is_row_of(rows.take(n)[i], shown[i]));
    }
}

/// A file of the galleries is on no side but the local one: the index has no entry at its path, and
/// it is the copy of none of the assets.
pub open spec fn is_only_local(
    file: LocalAsset,
    assets: Seq<LibraryAsset>,
    index: SyncIndex,
) -> bool {
    &&& forall|k: int|
        0 <= k < index.entries@.len() ==> (#[trigger] index.entries@[k]).path@ != file.path@
    &&& !is_copy_of_one(file.path@, assets, index)
}

proof fn unrecorded_path(entries: Seq<sync_index::SyncEntry>, file: Seq<char>)
    ensures
        sync_index::record_of(entries, file) is None <==> forall|k: int|
            0 <= k < entries.len() ==> (#[trigger] entries[k]).path@ != file,
    decreases entries.len(),
{
    if entries.len() > 0 {
        let front = entries.drop_last();
        unrecorded_path(front, file);
        if sync_index::record_of(entries, file) is None {
            assert forall|k: int| 0 <= k < entries.len() implies (#[trigger] entries[k]).path@
                != file by {
                if k < front.len() {
                    assert(front[k] == entries[k]);
                }
            }
        } else if sync_index::record_of(front, file) is Some {
            let k = choose|k: int| 0 <= k < front.len() && (#[trigger] front[k]).path@ == file;
            assert(entries[k].path@ == file);
        } else {
            assert(entries[entries.len() - 1].path@ == file);
        }
    }
}

/// The first page of the galleries holds the server's assets and the rows of the gallery files that
/// are only local, each once and nothing else, the newest first by creation time.
pub proof fn galleries_page_shows_photos_once(
    assets: Vec<LibraryAsset>,
    more: bool,
    page: u32,
    locals: Vec<LocalAsset>,
    index: &SyncIndex,
    r: PageResult,
)
    requires
        page <= 1,
        call_ensures(merge_galleries_page, (Ok((assets, more)), page, locals, index), r),
    ensures
        r is Ok,
        r->Ok_0.1 == more,
        ({
            let rows = r->Ok_0.0@;
            let only_local = locals@.filter(|l: LocalAsset| is_only_local(l, assets@, *index));
            &&& rows.len() == assets@.len() + only_local.len()
            &&& forall|i: int, j: int|
                0 <= i < j < rows.len() ==> text::text_le(
                    (#[trigger] rows[j]).created_at@,
                    (#[trigger] rows[i]).created_at@,
                )
            &&& forall|a: int| 0 <= a < assets@.len() ==> rows.contains(#[trigger] assets@[a])
            &&& forall|f: int|
                0 <= f < only_local.len() ==> has_row_of(
                    rows,
                    rows.len() as int,
                    #[trigger] only_local[f],
                )
            &&& forall|i: int|
                0 <= i < rows.len() ==> assets@.contains(#[trigger] rows[i]) || stands_for_one(
                    rows[i],
                    only_local,
                    None,
                )
        }),
{
    let rows = r->Ok_0.0@;
    let unbacked = locals@.filter(|l: LocalAsset| is_unbacked(l, assets@, *index));
    let only_local = locals@.filter(|l: LocalAsset| is_only_local(l, assets@, *index));
    assert(only_local == unbacked) by {
        let a = |l: LocalAsset| is_unbacked(l, assets@, *index);
        let b = |l: LocalAsset| is_only_local(l, assets@, *index);
        assert forall|l: LocalAsset| #[trigger] a(l) == b(l) by {
            unrecorded_path(index.entries@, l.path@);
            covered_where_recorded(assets@, *index, l.path@);
        }
        assert(a =~= b);
    }
    let local_part = choose|local_part: Seq<LibraryAsset>| #[trigger]
        are_rows_of(local_part, unbacked) && rows == order::stable_sort(
            assets@ + local_part,
            newest_first(),
        );
    let all = assets@ + local_part;
    galleries_page_keeps_everything(assets@, local_part);
    assert forall|a: int| 0 <= a < assets@.len() implies rows.contains(#[trigger] assets@[a]) by {
        assert(assets@.contains(assets@[a]));
    }
    assert forall|f: int| 0 <= f < only_local.len() implies has_row_of(
        rows,
        rows.len() as int,
        #[trigger] only_local[f],
    ) by {
        assert(local_part.contains(local_part[f]));
        assert(is_row_of(local_part[f], unbacked[f]));
        let i = rows.index_of(local_part[f]);
        assert(rows[i] == local_part[f]);
    }
    assert forall|i: int| 0 <= i < rows.len() implies assets@.contains(#[trigger] rows[i])
        || stands_for_one(rows[i], only_local, None) by {
        assert(rows.contains(rows[i]));
        if !assets@.contains(rows[i]) {
            let f = local_part.index_of(rows[i]);
            assert(is_row_of(local_part[f], unbacked[f]));
            assert(only_local[f].path@ == unbacked[f].path@);
        }
    }
}

/// Later pages, and errors, are handed on as they came.
pub proof fn later_pages_are_handed_on(
    remote: PageResult,
    page: u32,
    locals: Vec<LocalAsset>,
    files: Option<Vec<LocalAsset>>,
    index: &SyncIndex,
    query: Option<&str>,
    unified: PageResult,
    galleries: PageResult,
    album: PageResult,
)
    requires
        remote is Err || page >= 2,
        call_ensures(merge_unified_page, (remote, page, locals, index, query), unified),
        call_ensures(merge_galleries_page, (remote, page, locals, index), galleries),
        call_ensures(merge_album_unified_page, (remote, page, files, index), album),
    ensures
        unified == remote,
        galleries == remote,
        album == remote,
{
}

/// An asset is synced at a path exactly where the first entry with its content is there.
pub proof fn synced_where_recorded(asset: LibraryAsset, index: SyncIndex, file: Seq<char>)
    ensures
        is_synced_at(asset, index, file) <==> is_copy_of_one(file, seq![asset], index),
{
    let one = seq![asset];
    let pass = |a: LibraryAsset| is_synced_at(a, index, file);
    covered_where_recorded(one, index, file);
    if is_synced_at(asset, index, file) {
        assert(pass(one[0]));
    }
    if covers(one, index, file) {
        let a = choose|a: int| 0 <= a < one.len() && pass(#[trigger] one[a]);
        assert(one[a] == asset);
    }
}

} // verus!
