//! The list behind the photo grid: its rows, their order, and the changes it reports.
use vstd::prelude::*;
use vstd::hash_map::StringHashMap;
use vstd::hash_set::StringHashSet;
use vstd::string::*;
use crate::api::LibraryAsset;
use crate::checksum;
use crate::checksum::immich_checksum_to_hex;
use crate::merge;
use crate::local_source::{is_local_id, LOCAL_ID_PREFIX, LOCAL_ONLY, ON_BOTH_SIDES};
use crate::order;
use crate::order::{refs_sorted_by_keys, Then};
use crate::path;
use crate::sources::LibrarySortMode;
use crate::sync_index;
use crate::sync_index::{SyncIndex, SyncRecord};
use crate::text;
use crate::text::{chars_of, lower, owned, piece};

verus! {

/// The badge of an asset that is only on the server.
pub const REMOTE_ONLY: u32 = 0;

/// One row of the photo grid.
#[derive(Debug, PartialEq, Eq)]
pub struct AssetObject {
    pub id: String,
    pub filename: String,
    pub mime_type: String,
    pub created_at: String,
    /// "IMAGE" or "VIDEO".
    pub asset_type: String,
    /// The sync badge: remote only, local only or both.
    pub sync_state: u32,
    pub thumbhash: Option<String>,
    /// The path of the local copy; empty where there is none.
    pub local_path: String,
    /// The id on the server; empty where the asset is not there.
    pub remote_id: String,
    /// Width in pixels; zero while it is unknown.
    pub width: u32,
    /// Height in pixels; zero while it is unknown.
    pub height: u32,
}

impl Clone for AssetObject {
    fn clone(&self) -> (r: Self)
        ensures
            r == *self,
    {
        AssetObject {
            id: self.id.clone(),
            filename: self.filename.clone(),
            mime_type: self.mime_type.clone(),
            created_at: self.created_at.clone(),
            asset_type: self.asset_type.clone(),
            sync_state: self.sync_state,
            thumbhash: self.thumbhash.clone(),
            local_path: self.local_path.clone(),
            remote_id: self.remote_id.clone(),
            width: self.width,
            height: self.height,
        }
    }
}

/// What a remote row is made from.
pub struct AssetInit<'a> {
    pub id: &'a str,
    pub filename: &'a str,
    pub mime_type: &'a str,
    pub created_at: &'a str,
    pub asset_type: &'a str,
    pub sync_state: u32,
    pub thumbhash: Option<&'a str>,
    pub width: u32,
    pub height: u32,
}

impl AssetObject {
    /// A row of an asset on the server, without a local copy.
    pub fn new(init: AssetInit<'_>) -> (r: Self)
        ensures
            r.id@ == init.id@,
            r.filename@ == init.filename@,
            r.mime_type@ == init.mime_type@,
            r.created_at@ == init.created_at@,
            r.asset_type@ == init.asset_type@,
            r.sync_state == init.sync_state,
            path::opt_view(r.thumbhash) == match init.thumbhash {
                Some(t) => Some(t@),
                None => None,
            },
            r.local_path@.len() == 0,
            r.remote_id@ == init.id@,
            r.width == init.width,
            r.height == init.height,
    {
        AssetObject {
            id: owned(init.id),
            filename: owned(init.filename),
            mime_type: owned(init.mime_type),
            created_at: owned(init.created_at),
            asset_type: owned(init.asset_type),
            sync_state: init.sync_state,
            thumbhash: match init.thumbhash {
                Some(t) => Some(owned(t)),
                None => None,
            },
            local_path: String::new(),
            remote_id: owned(init.id),
            width: init.width,
            height: init.height,
        }
    }

    /// A row of a file that is only on disk.
    pub fn new_local(
        id: &str,
        filename: &str,
        mime_type: &str,
        created_at: &str,
        asset_type: &str,
        local_path: &str,
    ) -> (r: Self)
        ensures
            r.id@ == id@,
            r.filename@ == filename@,
            r.mime_type@ == mime_type@,
            r.created_at@ == created_at@,
            r.asset_type@ == asset_type@,
            r.sync_state == LOCAL_ONLY,
            r.thumbhash is None,
            r.local_path@ == local_path@,
            r.remote_id@.len() == 0,
            r.width == 0,
            r.height == 0,
    {
        AssetObject {
            id: owned(id),
            filename: owned(filename),
            mime_type: owned(mime_type),
            created_at: owned(created_at),
            asset_type: owned(asset_type),
            sync_state: LOCAL_ONLY,
            thumbhash: None,
            local_path: owned(local_path),
            remote_id: String::new(),
            width: 0,
            height: 0,
        }
    }
}

/// The backup badge of a local file. Where the server's checksums are known and the file's own
/// checksum is recorded, the badge says whether the server has it; else it says whether the index
/// has the file.
pub open spec fn backup_badge(
    server: Set<Seq<char>>,
    server_known: bool,
    record: Option<SyncRecord>,
) -> u32 {
    match record {
        Some(r) => if !server_known || server.contains(r.checksum@) {
            ON_BOTH_SIDES
        } else {
            LOCAL_ONLY
        },
        None => LOCAL_ONLY,
    }
}

/// The texts of a list, as a set.
pub fn text_set(texts: &Vec<String>) -> (r: StringHashSet)
    ensures
        r@ == text::views(texts@).to_set(),
{
    let mut set: StringHashSet = StringHashSet::new();
    let mut i: usize = 0;
    assert(text::views(texts@).take(0).to_set() =~= Set::<Seq<char>>::empty());
    while i < texts.len()
        invariant
            i <= texts.len(),
            set@ == text::views(texts@).take(i as int).to_set(),
        decreases texts.len() - i,
    {
        proof {
            let all = text::views(texts@);
            assert(all.take(i + 1) =~= all.take(i as int).push(texts@[i as int]@));
            all.take(i as int).lemma_push_to_set_commute(texts@[i as int]@);
        }
        let _fresh: bool = set.insert(texts[i].clone());
        i = i + 1;
    }
    assert(text::views(texts@).take(i as int) =~= text::views(texts@));
    set
}

/// The backup badge of a local file. `server_checksums` are the checksums the server was asked for
/// and has; while the list is empty the server is taken to be unknown.
pub fn local_backup_state(index: &SyncIndex, server_checksums: &Vec<String>, file: &str) -> (r: u32)
    ensures
        r == backup_badge(
            text::views(server_checksums@).to_set(),
            server_checksums@.len() > 0,
            index.record(file@),
        ),
{
    let server: StringHashSet = text_set(server_checksums);
    backup_state(index.record_for_path(file).as_ref(), &server, server_checksums.len() > 0)
}

fn backup_state(record: Option<&SyncRecord>, server: &StringHashSet, server_known: bool) -> (r: u32)
    ensures
        r == backup_badge(
            server@,
            server_known,
            match record {
                Some(r) => Some(*r),
                None => None,
            },
        ),
{
    match record {
        Some(r) => {
            if !server_known || server.contains(r.checksum.as_str()) {
                ON_BOTH_SIDES
            } else {
                LOCAL_ONLY
            }
        },
        None => LOCAL_ONLY,
    }
}

/// The path in the id of a local row.
pub open spec fn local_path_in(id: Seq<char>) -> Option<Seq<char>> {
    if LOCAL_ID_PREFIX@.is_prefix_of(id) {
        Some(id.skip(LOCAL_ID_PREFIX@.len() as int))
    } else {
        None
    }
}

/// The path in the id of a local row; none for the id of an asset on the server.
pub fn local_path_of_id(id: &str) -> (r: Option<String>)
    ensures
        path::opt_view(r) == local_path_in(id@),
{
    if is_local_id(id) {
        let chars: Vec<char> = chars_of(id);
        let n: usize = chars_of(LOCAL_ID_PREFIX).len();
        assert(chars@.subrange(n as int, chars@.len() as int) =~= id@.skip(n as int));
        Some(piece(&chars, n, chars.len()))
    } else {
        None
    }
}

/// A pixel size: the listed one unless it is zero or missing, else the one in the metadata, else
/// zero.
pub open spec fn size_or(listed: Option<u32>, in_exif: Option<u32>) -> u32 {
    if listed matches Some(v) && v > 0 {
        listed->0
    } else {
        match in_exif {
            Some(v) => v,
            None => 0,
        }
    }
}

fn pick_size(listed: Option<u32>, in_exif: Option<u32>) -> (r: u32)
    ensures
        r == size_or(listed, in_exif),
{
    match listed {
        Some(v) => {
            if v > 0 {
                v
            } else {
                in_exif.unwrap_or(0)
            }
        },
        None => in_exif.unwrap_or(0),
    }
}

/// The path of the local copy of an asset: the one the index records for its content.
pub open spec fn local_copy(asset: LibraryAsset, index: SyncIndex) -> Option<Seq<char>> {
    match asset.checksum {
        None => None,
        Some(c) => match checksum::hex_of_checksum(c@) {
            None => None,
            Some(hex) => sync_index::path_of(index.entries@, hex),
        },
    }
}

/// The row shows the asset: a local file with its backup badge, or a remote asset with the badge
/// "both" and the path where it has a local copy.
pub open spec fn object_shows(
    object: AssetObject,
    asset: LibraryAsset,
    index: SyncIndex,
    server: Set<Seq<char>>,
    server_known: bool,
) -> bool {
    &&& object.id@ == asset.id@
    &&& object.filename@ == asset.filename@
    &&& object.mime_type@ == asset.mime_type@
    &&& object.created_at@ == asset.created_at@
    &&& object.asset_type@ == asset.asset_type@
    &&& match local_path_in(asset.id@) {
        Some(file) => {
            &&& object.sync_state == backup_badge(server, server_known, index.record(file))
            &&& object.thumbhash is None
            &&& object.local_path@ == file
            &&& object.remote_id@.len() == 0
            &&& object.width == 0
            &&& object.height == 0
        },
        None => {
            &&& object.thumbhash == asset.thumbhash
            &&& object.remote_id@ == asset.id@
            &&& object.width == size_or(
                asset.width,
                match asset.exif_info {
                    Some(e) => e.exif_image_width,
                    None => None,
                },
            )
            &&& object.height == size_or(
                asset.height,
                match asset.exif_info {
                    Some(e) => e.exif_image_height,
                    None => None,
                },
            )
            &&& match local_copy(asset, index) {
                Some(file) => object.sync_state == ON_BOTH_SIDES && object.local_path@ == file,
                None => object.sync_state == REMOTE_ONLY && object.local_path@.len() == 0,
            }
        },
    }
}

fn asset_object(
    asset: &LibraryAsset,
    by_path: &StringHashMap<SyncRecord>,
    by_checksum: &StringHashMap<String>,
    server: &StringHashSet,
    server_known: bool,
    Ghost(index): Ghost<SyncIndex>,
) -> (r: AssetObject)
    requires
        forall|p: Seq<char>| #[trigger] by_path@.contains_key(p) <==> index.record(p) is Some,
        forall|p: Seq<char>|
            by_path@.contains_key(p) ==> #[trigger] by_path@[p] == index.record(p)->0,
        forall|c: Seq<char>|
            #[trigger] by_checksum@.contains_key(c) <==> sync_index::path_of(index.entries@, c)
                is Some,
        forall|c: Seq<char>|
            by_checksum@.contains_key(c) ==> (#[trigger] by_checksum@[c])@ == sync_index::path_of(
                index.entries@,
                c,
            )->0,
    ensures
        object_shows(r, *asset, index, server@, server_known),
{
    if let Some(file) = local_path_of_id(asset.id.as_str()) {
        let state: u32 = backup_state(by_path.get(file.as_str()), server, server_known);
        let mut object: AssetObject = AssetObject::new_local(
            asset.id.as_str(),
            asset.filename.as_str(),
            asset.mime_type.as_str(),
            asset.created_at.as_str(),
            asset.asset_type.as_str(),
            file.as_str(),
        );
        object.sync_state = state;
        return object;
    }
    let copy: Option<String> = match &asset.checksum {
        None => None,
        Some(c) => match immich_checksum_to_hex(c.as_str()) {
            None => None,
            Some(hex) => match by_checksum.get(hex.as_str()) {
                Some(p) => Some(p.clone()),
                None => None,
            },
        },
    };
    let exif_width: Option<u32> = match &asset.exif_info {
        Some(e) => e.exif_image_width,
        None => None,
    };
    let exif_height: Option<u32> = match &asset.exif_info {
        Some(e) => e.exif_image_height,
        None => None,
    };
    let mut object: AssetObject = AssetObject::new(
        AssetInit {
            id: asset.id.as_str(),
            filename: asset.filename.as_str(),
            mime_type: asset.mime_type.as_str(),
            created_at: asset.created_at.as_str(),
            asset_type: asset.asset_type.as_str(),
            sync_state: if copy.is_some() {
                ON_BOTH_SIDES
            } else {
                REMOTE_ONLY
            },
            thumbhash: None,
            width: pick_size(asset.width, exif_width),
            height: pick_size(asset.height, exif_height),
        },
    );
    object.thumbhash = asset.thumbhash.clone();
    if let Some(file) = copy {
        object.local_path = file;
    }
    object
}

/// The rows show the assets, one by one.
pub open spec fn objects_show(
    objects: Seq<AssetObject>,
    assets: Seq<LibraryAsset>,
    index: SyncIndex,
    server: Seq<String>,
) -> bool {
    &&& objects.len() == assets.len()
    &&& forall|i: int|
        0 <= i < objects.len() ==> object_shows(
            #[trigger] objects[i],
            assets[i],
            index,
            text::views(server).to_set(),
            server.len() > 0,
        )
}

/// The rows of a list of assets.
pub fn build_asset_objects(
    assets: &Vec<LibraryAsset>,
    index: &SyncIndex,
    server_checksums: &Vec<String>,
) -> (r: Vec<AssetObject>)
    ensures
        objects_show(r@, assets@, *index, server_checksums@),
{
    let by_path: StringHashMap<SyncRecord> = index.by_path();
    let by_checksum: StringHashMap<String> = index.by_checksum();
    let server: StringHashSet = text_set(server_checksums);
    let server_known: bool = server_checksums.len() > 0;
    let mut out: Vec<AssetObject> = Vec::new();
    let mut i: usize = 0;
    while i < assets.len()
        invariant
            i <= assets.len(),
            out.len() == i,
            server@ == text::views(server_checksums@).to_set(),
            server_known == (server_checksums@.len() > 0),
            forall|p: Seq<char>| #[trigger] by_path@.contains_key(p) <==> index.record(p) is Some,
            forall|p: Seq<char>|
                by_path@.contains_key(p) ==> #[trigger] by_path@[p] == index.record(p)->0,
            forall|c: Seq<char>|
                #[trigger] by_checksum@.contains_key(c) <==> sync_index::path_of(index.entries@, c)
                    is Some,
            forall|c: Seq<char>|
                by_checksum@.contains_key(c) ==> (#[trigger] by_checksum@[c])@
                    == sync_index::path_of(index.entries@, c)->0,
            forall|k: int|
                0 <= k < i ==> object_shows(
                    #[trigger] out@[k],
                    assets@[k],
                    *index,
                    server@,
                    server_known,
                ),
        decreases assets.len() - i,
    {
        out.push(
            asset_object(
                &assets[i],
                &by_path,
                &by_checksum,
                &server,
                server_known,
                Ghost(*index),
            ),
        );
        i = i + 1;
    }
    out
}

/// Row `a` stands at or before row `b` under a sort mode that the client applies.
pub open spec fn object_le(mode: LibrarySortMode, a: AssetObject, b: AssetObject) -> bool {
    if mode == LibrarySortMode::Filename {
        let x = text::lowered(a.filename@);
        let y = text::lowered(b.filename@);
        text::text_le(x, y) && (text::text_le(y, x) ==> text::text_le(a.id@, b.id@))
    } else {
        text::text_le(a.mime_type@, b.mime_type@) && (text::text_le(b.mime_type@, a.mime_type@)
            ==> text::text_le(a.filename@, b.filename@) && (text::text_le(
            b.filename@,
            a.filename@,
        ) ==> text::text_le(a.id@, b.id@)))
    }
}

/// The order of a sort mode that the client applies.
pub open spec fn object_order(mode: LibrarySortMode) -> spec_fn(AssetObject, AssetObject) -> bool {
    |a: AssetObject, b: AssetObject| object_le(mode, a, b)
}

/// The sort mode is the server's own order.
pub open spec fn is_server_sorted(mode: LibrarySortMode) -> bool {
    mode == LibrarySortMode::NewestFirst || mode == LibrarySortMode::OldestFirst
}

/// The rows in the order of a sort mode: as the server listed them, or sorted.
pub open spec fn arranged(objects: Seq<AssetObject>, mode: LibrarySortMode) -> Seq<AssetObject> {
    if is_server_sorted(mode) {
        objects
    } else {
        order::stable_sort(objects, object_order(mode))
    }
}

/// The rows in the order of a sort mode.
pub fn sort_objects(objects: Vec<AssetObject>, mode: LibrarySortMode) -> (r: Vec<AssetObject>)
    ensures
        r@ == arranged(objects@, mode),
{
    if matches!(mode, LibrarySortMode::NewestFirst) || matches!(mode, LibrarySortMode::OldestFirst) {
        return objects;
    }
    let mut refs: Vec<&AssetObject> = Vec::new();
    let mut i: usize = 0;
    while i < objects.len()
        invariant
            i <= objects.len(),
            refs.len() == i,
            forall|k: int| 0 <= k < i ==> *(#[trigger] refs@[k]) == objects@[k],
        decreases objects.len() - i,
    {
        refs.push(&objects[i]);
        i = i + 1;
    }
    assert(order::behind(refs@) =~= objects@);
    let sorted: Vec<&AssetObject> = if matches!(mode, LibrarySortMode::Filename) {
        let mut keys: Vec<Then<String, String>> = Vec::new();
        let mut j: usize = 0;
        while j < objects.len()
            invariant
                j <= objects.len(),
                keys.len() == j,
                forall|k: int|
                    0 <= k < j ==> (#[trigger] keys@[k]).first@ == text::lowered(
                        objects@[k].filename@,
                    ) && keys@[k].second@ == objects@[k].id@,
            decreases objects.len() - j,
        {
            keys.push(
                Then { first: lower(objects[j].filename.as_str()), second: objects[j].id.clone() },
            );
            j = j + 1;
        }
        refs_sorted_by_keys(&refs, &keys, Ghost(object_order(mode)))
    } else {
        let mut keys: Vec<Then<String, Then<String, String>>> = Vec::new();
        let mut j: usize = 0;
        while j < objects.len()
            invariant
                j <= objects.len(),
                keys.len() == j,
                forall|k: int|
                    0 <= k < j ==> (#[trigger] keys@[k]).first@ == objects@[k].mime_type@
                        && keys@[k].second.first@ == objects@[k].filename@ && keys@[k].second.second@
                        == objects@[k].id@,
            decreases objects.len() - j,
        {
            keys.push(
                Then {
                    first: objects[j].mime_type.clone(),
                    second: Then {
                        first: objects[j].filename.clone(),
                        second: objects[j].id.clone(),
                    },
                },
            );
            j = j + 1;
        }
        refs_sorted_by_keys(&refs, &keys, Ghost(object_order(mode)))
    };
    let mut out: Vec<AssetObject> = Vec::new();
    let mut n: usize = 0;
    while n < sorted.len()
        invariant
            n <= sorted.len(),
            out@ == order::behind(sorted@).take(n as int),
        decreases sorted.len() - n,
    {
        let ghost all = order::behind(sorted@);
        assert(all.take(n + 1) =~= all.take(n as int).push(*sorted@[n as int]));
        out.push(sorted[n].clone());
        n = n + 1;
    }
    assert(order::behind(sorted@).take(n as int) =~= order::behind(sorted@));
    out
}

/// A change of the list: at `position`, `removed` rows gave way to `added` rows.
#[derive(Clone, Copy, Debug, PartialEq, Eq, Structural)]
pub struct ItemsChanged {
    pub position: u32,
    pub removed: u32,
    pub added: u32,
}

/// The change is a true report of how `before` became `after`: outside the reported stretch the
/// rows are the same.
pub open spec fn reports(
    change: ItemsChanged,
    before: Seq<AssetObject>,
    after: Seq<AssetObject>,
) -> bool {
    &&& change.position + change.removed <= before.len()
    &&& change.position + change.added <= after.len()
    &&& before.len() - change.removed == after.len() - change.added
    &&& before.take(change.position as int) == after.take(change.position as int)
    &&& before.skip(change.position + change.removed) == after.skip(change.position + change.added)
}

/// The list behind the photo grid.
#[derive(Debug, PartialEq, Eq)]
pub struct LibraryAssetModel {
    pub items: Vec<AssetObject>,
}

impl Default for LibraryAssetModel {
    fn default() -> (r: Self)
        ensures
            r.items@.len() == 0,
    {
        LibraryAssetModel { items: Vec::new() }
    }
}

impl LibraryAssetModel {
    /// An empty list.
    pub fn new() -> (r: Self)
        ensures
            r.items@.len() == 0,
    {
        LibraryAssetModel { items: Vec::new() }
    }

    /// The number of rows.
    pub fn n_items(&self) -> (r: u32)
        requires
            self.items@.len() <= u32::MAX,
        ensures
            r == self.items@.len(),
    {
        self.items.len() as u32
    }

    /// The row at a position; none beyond the end.
    pub fn item(&self, position: u32) -> (r: Option<AssetObject>)
        ensures
            r == if position < self.items@.len() {
                Some(self.items@[position as int])
            } else {
                None
            },
    {
        let at: usize = position as usize;
        if at < self.items.len() {
            Some(self.items[at].clone())
        } else {
            None
        }
    }

    /// Replaces every row and reports that all of them changed.
    pub fn reset(
        &mut self,
        index: &SyncIndex,
        server_checksums: &Vec<String>,
        assets: &Vec<LibraryAsset>,
        sort_mode: LibrarySortMode,
    ) -> (r: ItemsChanged)
        requires
            old(self).items@.len() <= u32::MAX,
            assets@.len() <= u32::MAX,
        ensures
            exists|rows: Seq<AssetObject>| #[trigger]
                objects_show(rows, assets@, *index, server_checksums@) && final(self).items@
                    == arranged(rows, sort_mode),
            r == (ItemsChanged {
                position: 0,
                removed: old(self).items@.len() as u32,
                added: final(self).items@.len() as u32,
            }),
            final(self).items@.len() == assets@.len(),
    {
        let built: Vec<AssetObject> = build_asset_objects(assets, index, server_checksums);
        let ghost rows = built@;
        proof {
            arranged_keeps_len(rows, sort_mode);
        }
        let previous: usize = self.items.len();
        self.items = sort_objects(built, sort_mode);
        assert(objects_show(rows, assets@, *index, server_checksums@));
        ItemsChanged { position: 0, removed: previous as u32, added: self.items.len() as u32 }
    }

    /// Takes over a longer list of assets after a further page. In the server's own order the rows
    /// that were there keep their places, so only the new tail is reported, and nothing where
    /// there is none; otherwise everything is reported.
    pub fn extend(
        &mut self,
        index: &SyncIndex,
        server_checksums: &Vec<String>,
        assets: &Vec<LibraryAsset>,
        sort_mode: LibrarySortMode,
    ) -> (r: Option<ItemsChanged>)
        requires
            old(self).items@.len() <= u32::MAX,
            assets@.len() <= u32::MAX,
        ensures
            exists|rows: Seq<AssetObject>| #[trigger]
                objects_show(rows, assets@, *index, server_checksums@) && final(self).items@
                    == arranged(rows, sort_mode),
            final(self).items@.len() == assets@.len(),
            ({
                let before = old(self).items@.len();
                let after = assets@.len();
                r == if is_server_sorted(sort_mode) && after >= before {
                    if after > before {
                        Some(
                            ItemsChanged {
                                position: before as u32,
                                removed: 0,
                                added: (after - before) as u32,
                            },
                        )
                    } else {
                        None
                    }
                } else {
                    Some(
                        ItemsChanged { position: 0, removed: before as u32, added: after as u32 },
                    )
                }
            }),
    {
        let previous: usize = self.items.len();
        let whole: ItemsChanged = self.reset(index, server_checksums, assets, sort_mode);
        let now: usize = self.items.len();
        let server_sorted: bool = matches!(sort_mode, LibrarySortMode::NewestFirst)
            || matches!(sort_mode, LibrarySortMode::OldestFirst);
        if server_sorted && now >= previous {
            if now > previous {
                Some(
                    ItemsChanged {
                        position: previous as u32,
                        removed: 0,
                        added: (now - previous) as u32,
                    },
                )
            } else {
                None
            }
        } else {
            Some(whole)
        }
    }

    /// Replaces every row by finished ones and reports that all of them changed.
    pub fn reset_with_objects(&mut self, objects: Vec<AssetObject>) -> (r: ItemsChanged)
        requires
            old(self).items@.len() <= u32::MAX,
            objects@.len() <= u32::MAX,
        ensures
            final(self).items@ == objects@,
            r == (ItemsChanged {
                position: 0,
                removed: old(self).items@.len() as u32,
                added: objects@.len() as u32,
            }),
            reports(r, old(self).items@, final(self).items@),
    {
        let previous: usize = self.items.len();
        let ghost before = self.items@;
        let added: usize = objects.len();
        self.items = objects;
        proof {
            assert(before.take(0) =~= self.items@.take(0));
            assert(before.skip(before.len() as int) =~= self.items@.skip(
                self.items@.len() as int,
            ));
        }
        ItemsChanged { position: 0, removed: previous as u32, added: added as u32 }
    }

    /// Adds finished rows at the end and reports the tail; nothing is reported for an empty list.
    pub fn append_objects(&mut self, objects: Vec<AssetObject>) -> (r: Option<ItemsChanged>)
        requires
            old(self).items@.len() + objects@.len() <= u32::MAX,
        ensures
            final(self).items@ == old(self).items@ + objects@,
            r == if objects@.len() == 0 {
                None
            } else {
                Some(
                    ItemsChanged {
                        position: old(self).items@.len() as u32,
                        removed: 0,
                        added: objects@.len() as u32,
                    },
                )
            },
            r matches Some(change) ==> reports(change, old(self).items@, final(self).items@),
    {
        let ghost before = self.items@;
        if objects.len() == 0 {
            assert(before + objects@ =~= before);
            return None;
        }
        let previous: usize = self.items.len();
        let added: usize = objects.len();
        let mut more: Vec<AssetObject> = objects;
        self.items.append(&mut more);
        proof {
            assert(before.take(previous as int) =~= self.items@.take(previous as int));
            assert(before.skip(previous as int) =~= self.items@.skip(previous + added));
        }
        Some(ItemsChanged { position: previous as u32, removed: 0, added: added as u32 })
    }
}

/// The order of a client-side sort mode compares any two rows, and consistently.
pub proof fn object_order_is_a_ranking(mode: LibrarySortMode)
    ensures
        order::is_ranking(object_order(mode)),
{
    let le = object_order(mode);
    assert forall|a: AssetObject, b: AssetObject| #[trigger] le(a, b) || #[trigger] le(b, a) by {
        text::text_le_total(text::lowered(a.filename@), text::lowered(b.filename@));
        text::text_le_total(a.filename@, b.filename@);
        text::text_le_total(a.mime_type@, b.mime_type@);
        text::text_le_total(a.id@, b.id@);
    }
    assert forall|a: AssetObject, b: AssetObject, c: AssetObject|
        #[trigger] le(a, b) && #[trigger] le(b, c) implies le(a, c) by {
        if mode == LibrarySortMode::Filename {
            let x = text::lowered(a.filename@);
            let y = text::lowered(b.filename@);
            let z = text::lowered(c.filename@);
            text::text_le_transitive(x, y, z);
            if text::text_le(z, x) {
                text::text_le_transitive(y, z, x);
                text::text_le_transitive(z, x, y);
                text::text_le_transitive(a.id@, b.id@, c.id@);
            }
        } else {
            text::text_le_transitive(a.mime_type@, b.mime_type@, c.mime_type@);
            if text::text_le(c.mime_type@, a.mime_type@) {
                text::text_le_transitive(b.mime_type@, c.mime_type@, a.mime_type@);
                text::text_le_transitive(c.mime_type@, a.mime_type@, b.mime_type@);
                text::text_le_transitive(a.filename@, b.filename@, c.filename@);
                if text::text_le(c.filename@, a.filename@) {
                    text::text_le_transitive(b.filename@, c.filename@, a.filename@);
                    text::text_le_transitive(c.filename@, a.filename@, b.filename@);
                    text::text_le_transitive(a.id@, b.id@, c.id@);
                }
            }
        }
    }
}

proof fn arranged_keeps_len(objects: Seq<AssetObject>, mode: LibrarySortMode)
    ensures
        arranged(objects, mode).len() == objects.len(),
{
    object_order_is_a_ranking(mode);
    order::sort_keeps_elements(objects, object_order(mode));
}

/// A sort mode rearranges the rows: none is lost, none is added.
pub proof fn sorting_keeps_rows(objects: Seq<AssetObject>, mode: LibrarySortMode)
    ensures
        arranged(objects, mode).len() == objects.len(),
        forall|o: AssetObject| arranged(objects, mode).contains(o) <==> objects.contains(o),
{
    object_order_is_a_ranking(mode);
    order::sort_keeps_elements(objects, object_order(mode));
}

/// The tail report of a further page in the server's own order is true where the page only added
/// rows at the end.
pub proof fn tail_report_is_true(before: Seq<AssetObject>, after: Seq<AssetObject>)
    requires
        before.len() < after.len() <= u32::MAX,
        after.take(before.len() as int) == before,
    ensures
        reports(
            (ItemsChanged {
                position: before.len() as u32,
                removed: 0,
                added: (after.len() - before.len()) as u32,
            }),
            before,
            after,
        ),
{
    let n = before.len() as int;
    assert(before.take(n) =~= after.take(n));
    assert(before.skip(n) =~= after.skip(after.len() as int));
}

/// What a row says of its asset, whatever makes it. A row of a local file, whose id is the prefix and
/// the path, has that path, no size, and the badge "both" where the index has a record of the path
/// whose content the server has, if its contents are known at all, else "local only". A row of the
/// server has the asset's id and size, and the badge "both" with the path of the local copy where
/// the index first records its content somewhere, else "remote only" and no path.
pub open spec fn row_is_right(
    row: AssetObject,
    asset: LibraryAsset,
    index: SyncIndex,
    server_checksums: Seq<String>,
) -> bool {
    &&& row.id@ == asset.id@
    &&& row.filename@ == asset.filename@
    &&& row.mime_type@ == asset.mime_type@
    &&& row.created_at@ == asset.created_at@
    &&& row.asset_type@ == asset.asset_type@
    &&& if LOCAL_ID_PREFIX@.is_prefix_of(asset.id@) {
        let backed_up = index.record(row.local_path@) is Some && (server_checksums.len() == 0
            || exists|k: int|
            0 <= k < server_checksums.len() && (#[trigger] server_checksums[k])@ == index.record(
                row.local_path@,
            )->0.checksum@);
        &&& LOCAL_ID_PREFIX@ + row.local_path@ == asset.id@
        &&& row.remote_id@.len() == 0
        &&& row.sync_state == if backed_up {
            2u32
        } else {
            1u32
        }
        &&& row.width == 0 && row.height == 0
    } else {
        &&& row.remote_id@ == asset.id@
        &&& row.thumbhash == asset.thumbhash
        &&& asset.width is Some && asset.width->0 > 0 ==> row.width == asset.width->0
        &&& asset.height is Some && asset.height->0 > 0 ==> row.height == asset.height->0
        &&& row.sync_state == 0u32 || row.sync_state == 2u32
        &&& row.sync_state == 2u32 ==> merge::is_copy_of_one(row.local_path@, seq![asset], index)
        &&& row.sync_state == 0u32 ==> row.local_path@.len() == 0 && forall|file: Seq<char>|
            !#[trigger] merge::is_copy_of_one(file, seq![asset], index)
    }
}

proof fn shown_row_is_right(
    row: AssetObject,
    asset: LibraryAsset,
    index: SyncIndex,
    server_checksums: Seq<String>,
)
    requires
        object_shows(
            row,
            asset,
            index,
            text::views(server_checksums).to_set(),
            server_checksums.len() > 0,
        ),
    ensures
        row_is_right(row, asset, index, server_checksums),
{
    if LOCAL_ID_PREFIX@.is_prefix_of(asset.id@) {
        let p = LOCAL_ID_PREFIX@;
        assert(p + asset.id@.skip(p.len() as int) =~= asset.id@);
        let record = index.record(row.local_path@);
        if record is Some {
            let c = record->0.checksum@;
            let all = text::views(server_checksums);
            assert(all.to_set().contains(c) <==> all.contains(c));
            if all.contains(c) {
                let k = all.index_of(c);
                assert(server_checksums[k]@ == c);
            }
            if exists|k: int|
                0 <= k < server_checksums.len() && (#[trigger] server_checksums[k])@ == c {
                let k = choose|k: int|
                    0 <= k < server_checksums.len() && (#[trigger] server_checksums[k])@ == c;
                assert(all[k] == c);
            }
        }
    } else {
        assert forall|file: Seq<char>| #[trigger]
            merge::is_copy_of_one(file, seq![asset], index) <==> local_copy(asset, index) == Some(
                file,
            ) by {
            merge::synced_where_recorded(asset, index, file);
        }
    }
}

/// A list of rows shows a list of assets: each row is right for the asset at its place.
pub proof fn rows_are_right(
    assets: &Vec<LibraryAsset>,
    index: &SyncIndex,
    server_checksums: &Vec<String>,
    rows: Vec<AssetObject>,
    i: int,
)
    requires
        call_ensures(build_asset_objects, (assets, index, server_checksums), rows),
        0 <= i < rows@.len(),
    ensures
        rows@.len() == assets@.len(),
        row_is_right(rows@[i], assets@[i], *index, server_checksums@),
{
    shown_row_is_right(rows@[i], assets@[i], *index, server_checksums@);
}

/// Row `a` may stand before row `b`: by file name without regard to case, then by id; or by media
/// type, then by file name, then by id.
pub open spec fn may_precede(a: AssetObject, b: AssetObject, mode: LibrarySortMode) -> bool {
    let name_a = text::lowered(a.filename@);
    let name_b = text::lowered(b.filename@);
    match mode {
        LibrarySortMode::Filename => text::text_le(name_a, name_b) && (name_a == name_b
            ==> text::text_le(a.id@, b.id@)),
        LibrarySortMode::FileType => text::text_le(a.mime_type@, b.mime_type@) && (a.mime_type@
            == b.mime_type@ ==> text::text_le(a.filename@, b.filename@) && (a.filename@
            == b.filename@ ==> text::text_le(a.id@, b.id@))),
        _ => true,
    }
}

/// The rows of a list that was made anew are those of the assets, as they came where the server
/// sorts, else in the order of the sort mode.
pub open spec fn rows_are_in_order(
    rows: Seq<AssetObject>,
    assets: Seq<LibraryAsset>,
    index: SyncIndex,
    server_checksums: Seq<String>,
    mode: LibrarySortMode,
) -> bool {
    &&& rows.len() == assets.len()
    &&& forall|i: int, j: int|
        0 <= i < j < rows.len() ==> may_precede(#[trigger] rows[i], #[trigger] rows[j], mode)
    &&& mode == LibrarySortMode::NewestFirst || mode == LibrarySortMode::OldestFirst ==> forall|i: int|
        0 <= i < rows.len() ==> row_is_right(
            #[trigger] rows[i],
            assets[i],
            index,
            server_checksums,
        )
    &&& forall|i: int|
        0 <= i < rows.len() ==> shows_one_of(#[trigger] rows[i], assets, index, server_checksums)
    &&& forall|a: int|
        0 <= a < assets.len() ==> is_shown_by_one(
            #[trigger] assets[a],
            rows,
            index,
            server_checksums,
        )
}

/// The row shows one of the assets.
pub open spec fn shows_one_of(
    row: AssetObject,
    assets: Seq<LibraryAsset>,
    index: SyncIndex,
    server_checksums: Seq<String>,
) -> bool {
    exists|a: int|
        0 <= a < assets.len() && row_is_right(row, #[trigger] assets[a], index, server_checksums)
}

/// One of the rows shows the asset.
pub open spec fn is_shown_by_one(
    asset: LibraryAsset,
    rows: Seq<AssetObject>,
    index: SyncIndex,
    server_checksums: Seq<String>,
) -> bool {
    exists|i: int|
        0 <= i < rows.len() && row_is_right(#[trigger] rows[i], asset, index, server_checksums)
}

proof fn arranged_rows_are_in_order(
    shown: Seq<AssetObject>,
    assets: Seq<LibraryAsset>,
    index: SyncIndex,
    server_checksums: Seq<String>,
    mode: LibrarySortMode,
)
    requires
        objects_show(shown, assets, index, server_checksums),
    ensures
        rows_are_in_order(arranged(shown, mode), assets, index, server_checksums, mode),
{
    let rows = arranged(shown, mode);
    assert forall|i: int| 0 <= i < shown.len() implies row_is_right(
        #[trigger] shown[i],
        assets[i],
        index,
        server_checksums,
    ) by {
        shown_row_is_right(shown[i], assets[i], index, server_checksums);
    }
    sorting_keeps_rows(shown, mode);
    assert forall|i: int| 0 <= i < rows.len() implies shows_one_of(
        #[trigger] rows[i],
        assets,
        index,
        server_checksums,
    ) by {
        assert(rows.contains(rows[i]));
        assert(shown.contains(rows[i]));
        let a = shown.index_of(rows[i]);
        assert(shown[a] == rows[i]);
        assert(row_is_right(rows[i], assets[a], index, server_checksums));
    }
    assert forall|a: int| 0 <= a < assets.len() implies is_shown_by_one(
        #[trigger] assets[a],
        rows,
        index,
        server_checksums,
    ) by {
        assert(shown.contains(shown[a]));
        assert(rows.contains(shown[a]));
        let i = rows.index_of(shown[a]);
        assert(rows[i] == shown[a]);
    }
    if !is_server_sorted(mode) {
        object_order_is_a_ranking(mode);
        order::sort_keeps_elements(shown, object_order(mode));
        assert forall|i: int, j: int| 0 <= i < j < rows.len() implies may_precede(
            #[trigger] rows[i],
            #[trigger] rows[j],
            mode,
        ) by {
            assert(object_order(mode)(rows[i], rows[j]));
            text::text_le_reflexive(text::lowered(rows[i].filename@));
            text::text_le_reflexive(rows[i].mime_type@);
            text::text_le_reflexive(rows[i].filename@);
        }
    }
}

/// A list that is made anew, or goes on after a further page, holds the rows of the assets in the
/// order of the sort mode.
pub proof fn model_holds_the_assets_in_order(
    model: &mut LibraryAssetModel,
    further: &mut LibraryAssetModel,
    index: &SyncIndex,
    server_checksums: &Vec<String>,
    assets: &Vec<LibraryAsset>,
    mode: LibrarySortMode,
    reset: ItemsChanged,
    extended: Option<ItemsChanged>,
)
    requires
        call_ensures(
            LibraryAssetModel::reset,
            (model, index, server_checksums, assets, mode),
            reset,
        ),
        call_ensures(
            LibraryAssetModel::extend,
            (further, index, server_checksums, assets, mode),
            extended,
        ),
    ensures
        rows_are_in_order(final(model).items@, assets@, *index, server_checksums@, mode),
        rows_are_in_order(final(further).items@, assets@, *index, server_checksums@, mode),
{
    let a = choose|rows: Seq<AssetObject>| #[trigger]
        objects_show(rows, assets@, *index, server_checksums@) && final(model).items@ == arranged(
            rows,
            mode,
        );
    arranged_rows_are_in_order(a, assets@, *index, server_checksums@, mode);
    let b = choose|rows: Seq<AssetObject>| #[trigger]
        objects_show(rows, assets@, *index, server_checksums@) && final(further).items@ == arranged(
            rows,
            mode,
        );
    arranged_rows_are_in_order(b, assets@, *index, server_checksums@, mode);
}

} // verus!
