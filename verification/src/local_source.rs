//! Files of the watched folders: which are listed, and how they are described.
use vstd::prelude::*;
use vstd::hash_set::StringHashSet;
use vstd::string::*;
use crate::path;
use crate::path::{extension, file_name, normal_path};
use crate::seqs;
use crate::sync_index::SyncIndex;
use crate::text;
use crate::text::{begins_with, concat2, contains_text, lower, lowercase, owned, same_text, trim};

verus! {

/// The prefix of the row id of a file that is not on the server.
pub const LOCAL_ID_PREFIX: &'static str = "local::";

/// The badge of a file that is only on disk.
pub const LOCAL_ONLY: u32 = 1;

/// The badge of a file that is on disk and on the server.
pub const ON_BOTH_SIDES: u32 = 2;

/// A single file of the watched folders.
#[derive(Debug, PartialEq, Eq)]
pub struct LocalAsset {
    /// Absolute path on disk.
    pub path: String,
    /// Display name.
    pub filename: String,
    /// MIME type, derived from the extension.
    pub mime: String,
    /// "IMAGE" or "VIDEO".
    pub asset_type: &'static str,
    /// Modification time as RFC 3339 text.
    pub created_at: String,
}

impl Clone for LocalAsset {
    fn clone(&self) -> (r: Self)
        ensures
            r == *self,
    {
        LocalAsset {
            path: self.path.clone(),
            filename: self.filename.clone(),
            mime: self.mime.clone(),
            asset_type: self.asset_type,
            created_at: self.created_at.clone(),
        }
    }
}

/// The MIME type for a lower-case extension.
pub open spec fn mime_of(extension: Option<Seq<char>>) -> Seq<char> {
    match extension {
        None => "application/octet-stream"@,
        Some(e) => {
            if e == "avif"@ {
                "image/avif"@
            } else if e == "bmp"@ {
                "image/bmp"@
            } else if e == "gif"@ {
                "image/gif"@
            } else if e == "heic"@ {
                "image/heic"@
            } else if e == "heif"@ || e == "hif"@ {
                "image/heif"@
            } else if e == "jpe"@ || e == "jpeg"@ || e == "jpg"@ || e == "insp"@ || e == "mpo"@ {
                "image/jpeg"@
            } else if e == "jp2"@ {
                "image/jp2"@
            } else if e == "jxl"@ {
                "image/jxl"@
            } else if e == "png"@ {
                "image/png"@
            } else if e == "psd"@ {
                "image/vnd.adobe.photoshop"@
            } else if e == "svg"@ {
                "image/svg+xml"@
            } else if e == "tif"@ || e == "tiff"@ {
                "image/tiff"@
            } else if e == "webp"@ {
                "image/webp"@
            } else if e == "3gp"@ || e == "3gpp"@ {
                "video/3gpp"@
            } else if e == "avi"@ {
                "video/x-msvideo"@
            } else if e == "flv"@ {
                "video/x-flv"@
            } else if e == "insv"@ || e == "mp4"@ {
                "video/mp4"@
            } else if e == "m2t"@ || e == "m2ts"@ || e == "mts"@ || e == "ts"@ {
                "video/mp2t"@
            } else if e == "m4v"@ {
                "video/x-m4v"@
            } else if e == "mkv"@ {
                "video/x-matroska"@
            } else if e == "mpe"@ || e == "mpeg"@ || e == "mpg"@ {
                "video/mpeg"@
            } else if e == "mov"@ {
                "video/quicktime"@
            } else if e == "mxf"@ {
                "application/mxf"@
            } else if e == "vob"@ {
                "video/dvd"@
            } else if e == "webm"@ {
                "video/webm"@
            } else if e == "wmv"@ {
                "video/x-ms-wmv"@
            } else {
                "image/x-raw"@
            }
        },
    }
}

/// The MIME type for a lower-case extension.
pub fn mime_for_lower_extension(extension: Option<&str>) -> (r: &'static str)
    ensures
        r@ == mime_of(
            match extension {
                None => None,
                Some(e) => Some(e@),
            },
        ),
{
    match extension {
        None => "application/octet-stream",
        Some(e) => {
            if same_text(e, "avif") {
                "image/avif"
            } else if same_text(e, "bmp") {
                "image/bmp"
            } else if same_text(e, "gif") {
                "image/gif"
            } else if same_text(e, "heic") {
                "image/heic"
            } else if same_text(e, "heif") || same_text(e, "hif") {
                "image/heif"
            } else if same_text(e, "jpe") || same_text(e, "jpeg") || same_text(e, "jpg")
                || same_text(e, "insp") || same_text(e, "mpo") {
                "image/jpeg"
            } else if same_text(e, "jp2") {
                "image/jp2"
            } else if same_text(e, "jxl") {
                "image/jxl"
            } else if same_text(e, "png") {
                "image/png"
            } else if same_text(e, "psd") {
                "image/vnd.adobe.photoshop"
            } else if same_text(e, "svg") {
                "image/svg+xml"
            } else if same_text(e, "tif") || same_text(e, "tiff") {
                "image/tiff"
            } else if same_text(e, "webp") {
                "image/webp"
            } else if same_text(e, "3gp") || same_text(e, "3gpp") {
                "video/3gpp"
            } else if same_text(e, "avi") {
                "video/x-msvideo"
            } else if same_text(e, "flv") {
                "video/x-flv"
            } else if same_text(e, "insv") || same_text(e, "mp4") {
                "video/mp4"
            } else if same_text(e, "m2t") || same_text(e, "m2ts") || same_text(e, "mts")
                || same_text(e, "ts") {
                "video/mp2t"
            } else if same_text(e, "m4v") {
                "video/x-m4v"
            } else if same_text(e, "mkv") {
                "video/x-matroska"
            } else if same_text(e, "mpe") || same_text(e, "mpeg") || same_text(e, "mpg") {
                "video/mpeg"
            } else if same_text(e, "mov") {
                "video/quicktime"
            } else if same_text(e, "mxf") {
                "application/mxf"
            } else if same_text(e, "vob") {
                "video/dvd"
            } else if same_text(e, "webm") {
                "video/webm"
            } else if same_text(e, "wmv") {
                "video/x-ms-wmv"
            } else {
                "image/x-raw"
            }
        },
    }
}

/// The extension of a path in lower case.
pub open spec fn lower_extension(file: Seq<char>) -> Option<Seq<char>> {
    match path::extension_of(file) {
        None => None,
        Some(e) => Some(text::lowercase_of(e)),
    }
}

/// The MIME type of a file, by its extension alone.
pub fn mime_for_extension(file: &str) -> (r: &'static str)
    ensures
        r@ == mime_of(lower_extension(file@)),
{
    match extension(file) {
        None => mime_for_lower_extension(None),
        Some(e) => {
            let small: String = lowercase(e.as_str());
            mime_for_lower_extension(Some(small.as_str()))
        },
    }
}

/// "VIDEO" for a video MIME type, else "IMAGE".
pub open spec fn bucket_of(mime: Seq<char>) -> Seq<char> {
    if "video/"@.is_prefix_of(mime) {
        "VIDEO"@
    } else {
        "IMAGE"@
    }
}

/// The kind of asset a MIME type stands for.
pub fn asset_type_for_mime(mime: &str) -> (r: &'static str)
    ensures
        r@ == bucket_of(mime@),
{
    if begins_with(mime, "video/") {
        "VIDEO"
    } else {
        "IMAGE"
    }
}

/// The asset describes a file that was last changed at the given time.
pub open spec fn describes(asset: LocalAsset, file: Seq<char>, modified: Seq<char>) -> bool {
    &&& path::name_of(file) == Some(asset.filename@)
    &&& asset.path@ == file
    &&& asset.mime@ == mime_of(lower_extension(file))
    &&& asset.asset_type@ == bucket_of(asset.mime@)
    &&& asset.created_at@ == modified
}

/// Describes a file; a path without a file name, or a file whose metadata could not be read
/// (`modified` is `None`), is no asset.
pub fn build_asset(file: &str, modified: Option<String>) -> (r: Option<LocalAsset>)
    ensures
        r is Some <==> path::name_of(file@) is Some && modified is Some,
        r matches Some(asset) ==> describes(asset, file@, modified->0@),
{
    match (file_name(file), modified) {
        (Some(filename), Some(created_at)) => {
            let mime: &'static str = mime_for_extension(file);
            let asset_type: &'static str = asset_type_for_mime(mime);
            Some(LocalAsset { path: owned(file), filename, mime: owned(mime), asset_type, created_at })
        },
        _ => None,
    }
}

/// One file a walk of the watched folders came upon.
#[derive(Debug, PartialEq, Eq)]
pub struct FoundFile {
    pub path: String,
    /// The path with every link resolved, where that could be done.
    pub canonical: Option<String>,
    /// The extension is one of a supported medium.
    pub supported: bool,
    /// The file is a partial download or the like.
    pub temporary: bool,
    /// The rules of the watched folder admit the file.
    pub admitted: bool,
    /// The modification time, where the metadata could be read.
    pub modified: Option<String>,
}

/// The path by which a file is recognised when it is found a second time.
pub open spec fn identity(file: FoundFile) -> Seq<char> {
    path::normal_form(
        match file.canonical {
            Some(c) => c@,
            None => file.path@,
        },
    )
}

/// The file is a medium that the folder's rules admit.
pub open spec fn is_wanted(file: FoundFile) -> bool {
    file.supported && !file.temporary && file.admitted
}

/// A wanted file with the given identity is among the first ones.
pub open spec fn found_before(files: Seq<FoundFile>, identity_text: Seq<char>) -> bool {
    seqs::has(files, |f: FoundFile| is_wanted(f) && identity(f) == identity_text)
}

/// The positions of the files that are listed: wanted, not found before, and readable.
pub open spec fn listed(files: Seq<FoundFile>) -> Seq<FoundFile>
    decreases files.len(),
{
    if files.len() == 0 {
        Seq::empty()
    } else {
        let front = files.drop_last();
        let file = files.last();
        if is_wanted(file) && !found_before(front, identity(file)) && path::name_of(file.path@)
            is Some && file.modified is Some {
            listed(front).push(file)
        } else {
            listed(front)
        }
    }
}

/// The assets of a walk, each file once, in the order in which they were found.
pub fn select_local_files(files: &Vec<FoundFile>) -> (r: Vec<LocalAsset>)
    ensures
        r@.len() == listed(files@).len(),
        forall|i: int|
            0 <= i < r@.len() ==> describes(
                #[trigger] r@[i],
                listed(files@)[i].path@,
                listed(files@)[i].modified->0@,
            ),
{
    let mut out: Vec<LocalAsset> = Vec::new();
    let mut seen: StringHashSet = StringHashSet::new();
    let mut i: usize = 0;
    assert(files@.take(0) =~= Seq::<FoundFile>::empty());
    while i < files.len()
        invariant
            i <= files.len(),
            out@.len() == listed(files@.take(i as int)).len(),
            forall|k: int|
                0 <= k < out@.len() ==> describes(
                    #[trigger] out@[k],
                    listed(files@.take(i as int))[k].path@,
                    listed(files@.take(i as int))[k].modified->0@,
                ),
            forall|id: Seq<char>|
                #[trigger] seen@.contains(id) <==> found_before(files@.take(i as int), id),
        decreases files.len() - i,
    {
        let ghost front = files@.take(i as int);
        let ghost next = files@.take(i + 1);
        let file: &FoundFile = &files[i];
        proof {
            assert(next.drop_last() =~= front);
            assert(next.last() == *file);
            assert forall|id: Seq<char>| #[trigger]
                found_before(next, id) <==> found_before(front, id) || (is_wanted(*file)
                    && identity(*file) == id) by {
                seqs::has_step(files@, |f: FoundFile| is_wanted(f) && identity(f) == id, i as int);
            }
        }
        if file.supported && !file.temporary && file.admitted {
            let key: String = match &file.canonical {
                Some(c) => normal_path(c.as_str()),
                None => normal_path(file.path.as_str()),
            };
            if seen.insert(key) {
                let modified: Option<String> = file.modified.clone();
                if let Some(asset) = build_asset(file.path.as_str(), modified) {
                    out.push(asset);
                }
            }
        }
        i = i + 1;
    }
    assert(files@.take(i as int) =~= files@);
    out
}

/// The asset's name contains the query, trimmed and without regard to ASCII case.
pub open spec fn name_matches(asset: LocalAsset, query: Seq<char>) -> bool {
    text::occurs_in(text::lowered(asset.filename@), text::lowered(text::trimmed(query)))
}

/// The assets whose name contains the query; a blank query keeps them all.
pub fn filter_by_filename(items: Vec<LocalAsset>, query: &str) -> (r: Vec<LocalAsset>)
    ensures
        text::trimmed(query@).len() == 0 ==> r@ == items@,
        text::trimmed(query@).len() != 0 ==> r@ == items@.filter(
            |a: LocalAsset| name_matches(a, query@),
        ),
{
    let needle: String = lower(trim(query).as_str());
    if needle.as_str().is_empty() {
        return items;
    }
    let ghost keep = |a: LocalAsset| name_matches(a, query@);
    let mut out: Vec<LocalAsset> = Vec::new();
    let mut i: usize = 0;
    proof {
        seqs::filter_ends(items@, keep);
    }
    while i < items.len()
        invariant
            i <= items.len(),
            needle@ == text::lowered(text::trimmed(query@)),
            keep == |a: LocalAsset| name_matches(a, query@),
            out@ == items@.take(i as int).filter(keep),
        decreases items.len() - i,
    {
        proof {
            seqs::filter_step(items@, keep, i as int);
        }
        if contains_text(lower(items[i].filename.as_str()).as_str(), needle.as_str()) {
            out.push(items[i].clone());
        }
        i = i + 1;
    }
    out
}

/// The sync badge of a file: on both sides where its path is recorded as synced, else local only.
pub fn local_sync_state(idx: &SyncIndex, file: &str) -> (r: u32)
    ensures
        r == if idx.record(file@) is Some {
            ON_BOTH_SIDES
        } else {
            LOCAL_ONLY
        },
{
    if idx.stored_checksum(file).is_some() {
        ON_BOTH_SIDES
    } else {
        LOCAL_ONLY
    }
}

/// The row id of a file that is not on the server.
pub fn synthetic_id(asset: &LocalAsset) -> (r: String)
    ensures
        r@ == LOCAL_ID_PREFIX@ + asset.path@,
{
    concat2(LOCAL_ID_PREFIX, asset.path.as_str())
}

/// Whether a row id is that of a file that is not on the server.
pub fn is_local_id(id: &str) -> (r: bool)
    ensures
        r == LOCAL_ID_PREFIX@.is_prefix_of(id@),
{
    begins_with(id, LOCAL_ID_PREFIX)
}

/// Two files have the same row id only where they have the same path, and every such id is
/// recognised as that of a local file.
pub proof fn row_ids_tell_files_apart(a: LocalAsset, b: LocalAsset)
    ensures
        LOCAL_ID_PREFIX@ + a.path@ == LOCAL_ID_PREFIX@ + b.path@ <==> a.path@ == b.path@,
        LOCAL_ID_PREFIX@.is_prefix_of(LOCAL_ID_PREFIX@ + a.path@),
{
    let p = LOCAL_ID_PREFIX@;
    assert((p + a.path@).skip(p.len() as int) =~= a.path@);
    assert((p + b.path@).skip(p.len() as int) =~= b.path@);
    assert((p + a.path@).subrange(0, p.len() as int) =~= p);
}

/// The file is listed on a walk: a supported medium that is no partial download and that the rules
/// admit, readable and with a name, unless an earlier one of the kind is the same file.
pub open spec fn belongs_in_list(files: Seq<FoundFile>, f: int) -> bool {
    &&& 0 <= f < files.len()
    &&& files[f].supported && files[f].admitted && !files[f].temporary
    &&& files[f].modified is Some && path::name_of(files[f].path@) is Some
    &&& forall|e: int|
        0 <= e < f && (#[trigger] files[e]).supported && files[e].admitted && !files[e].temporary
            ==> identity(files[e]) != identity(files[f])
}

proof fn found_before_where_earlier(files: Seq<FoundFile>, n: int, id: Seq<char>)
    requires
        0 <= n <= files.len(),
    ensures
        found_before(files.take(n), id) <==> exists|e: int|
            0 <= e < n && (#[trigger] files[e]).supported && files[e].admitted
                && !files[e].temporary && identity(files[e]) == id,
{
    let front = files.take(n);
    let pass = |f: FoundFile| is_wanted(f) && identity(f) == id;
    if found_before(front, id) {
        let e = choose|e: int| 0 <= e < front.len() && pass(#[trigger] front[e]);
        assert(front[e] == files[e]);
    }
    if exists|e: int|
        0 <= e < n && (#[trigger] files[e]).supported && files[e].admitted && !files[e].temporary
            && identity(files[e]) == id {
        let e = choose|e: int|
            0 <= e < n && (#[trigger] files[e]).supported && files[e].admitted
                && !files[e].temporary && identity(files[e]) == id;
        assert(front[e] == files[e]);
        assert(pass(front[e]));
    }
}

/// The file is one of the first `n` that belong in the list.
spec fn stems_from(file: FoundFile, files: Seq<FoundFile>, n: int) -> bool {
    exists|f: int| 0 <= f < n && #[trigger] belongs_in_list(files, f) && files[f] == file
}

proof fn listed_files(files: Seq<FoundFile>, n: int)
    requires
        0 <= n <= files.len(),
    ensures
        forall|i: int|
            0 <= i < listed(files.take(n)).len() ==> stems_from(
                #[trigger] listed(files.take(n))[i],
                files,
                n,
            ),
        forall|f: int|
            0 <= f < n && #[trigger] belongs_in_list(files, f) ==> listed(files.take(n)).contains(
                files[f],
            ),
    decreases n,
{
    if n > 0 {
        let before = listed(files.take(n - 1));
        let here = listed(files.take(n));
        let file = files[n - 1];
        listed_files(files, n - 1);
        found_before_where_earlier(files, n - 1, identity(file));
        assert(files.take(n).drop_last() =~= files.take(n - 1));
        assert(files.take(n).last() == file);
        assert forall|i: int| 0 <= i < here.len() implies stems_from(
            #[trigger] here[i],
            files,
            n,
        ) by {
            if i < before.len() {
                assert(here[i] == before[i]);
                assert(stems_from(before[i], files, n - 1));
                let f = choose|f: int|
                    0 <= f < n - 1 && #[trigger] belongs_in_list(files, f) && files[f] == before[i];
                assert(belongs_in_list(files, f));
            } else {
                assert(belongs_in_list(files, n - 1));
            }
        }
        assert forall|f: int| 0 <= f < n && #[trigger] belongs_in_list(files, f) implies
            here.contains(files[f]) by {
            if f < n - 1 {
                assert(before.contains(files[f]));
                let k = before.index_of(files[f]);
                assert(here[k] == files[f]);
            } else {
                assert(here[before.len() as int] == files[f]);
            }
        }
    }
}

/// A walk lists exactly the files that belong in the list: each asset has the path, the time and the
/// name of such a file, and each such file has its asset.
pub proof fn walk_lists_each_file_once(files: &Vec<FoundFile>, assets: Vec<LocalAsset>)
    requires
        call_ensures(select_local_files, (files,), assets),
    ensures
        forall|i: int|
            0 <= i < assets@.len() ==> is_asset_of_one(#[trigger] assets@[i], files@),
        forall|f: int| #[trigger]
            belongs_in_list(files@, f) ==> has_asset_at(assets@, files@[f].path@),
{
    let n = files@.len() as int;
    listed_files(files@, n);
    assert(files@.take(n) =~= files@);
    let all = listed(files@);
    assert forall|i: int| 0 <= i < assets@.len() implies is_asset_of_one(
        #[trigger] assets@[i],
        files@,
    ) by {
        assert(describes(assets@[i], all[i].path@, all[i].modified->0@));
        assert(stems_from(all[i], files@, n));
        let f = choose|f: int|
            0 <= f < n && #[trigger] belongs_in_list(files@, f) && files@[f] == all[i];
        assert(belongs_in_list(files@, f));
    }
    assert forall|f: int| #[trigger] belongs_in_list(files@, f) implies has_asset_at(
        assets@,
        files@[f].path@,
    ) by {
        assert(all.contains(files@[f]));
        let i = all.index_of(files@[f]);
        assert(describes(assets@[i], all[i].path@, all[i].modified->0@));
    }
}

/// The asset is that of a file that belongs in the list.
pub open spec fn is_asset_of_one(asset: LocalAsset, files: Seq<FoundFile>) -> bool {
    exists|f: int| #[trigger]
        belongs_in_list(files, f) && asset.path@ == files[f].path@ && asset.created_at@
            == files[f].modified->0@ && path::name_of(files[f].path@) == Some(asset.filename@)
}

/// One of the assets has the path.
pub open spec fn has_asset_at(assets: Seq<LocalAsset>, file: Seq<char>) -> bool {
    exists|i: int| 0 <= i < assets.len() && (#[trigger] assets[i]).path@ == file
}

/// The kind of an asset goes by its MIME type: a video exactly where that begins with "video/".
pub proof fn videos_have_video_types(file: &str, modified: Option<String>, r: Option<LocalAsset>)
    requires
        call_ensures(build_asset, (file, modified), r),
    ensures
        r matches Some(asset) ==> asset.path@ == file@ && modified is Some && asset.created_at@
            == modified->0@ && (asset.asset_type@ == "VIDEO"@ || asset.asset_type@ == "IMAGE"@) && (
        "video/"@.is_prefix_of(asset.mime@) ==> asset.asset_type@ == "VIDEO"@) && (
        !"video/"@.is_prefix_of(asset.mime@) ==> asset.asset_type@ == "IMAGE"@),
{
}

/// A search by name keeps exactly the files whose name contains the text, trimmed and without regard
/// to case, in the order in which they came; a blank text keeps all of them.
pub proof fn search_keeps_matching_names(
    items: Vec<LocalAsset>,
    query: &str,
    kept: Vec<LocalAsset>,
    item: LocalAsset,
)
    requires
        call_ensures(filter_by_filename, (items, query), kept),
    ensures
        kept@.contains(item) <==> items@.contains(item) && (text::trimmed(query@).len() == 0
            || text::occurs_in(
            text::lowered(item.filename@),
            text::lowered(text::trimmed(query@)),
        )),
        text::trimmed(query@).len() == 0 ==> kept@ == items@,
        kept@.len() <= items@.len(),
{
    let keep = |a: LocalAsset| name_matches(a, query@);
    seqs::filter_contents(items@, keep);
    items@.lemma_filter_len(keep);
}

} // verus!
