//! The index of files that were synced: what was uploaded or downloaded, and to which album.
use vstd::prelude::*;
use vstd::hash_map::StringHashMap;
use crate::seqs;
use crate::text::owned;

verus! {

/// What the index knows about one synced file.
#[derive(Debug, PartialEq, Eq)]
pub struct SyncRecord {
    pub checksum: String,
    pub album_id: Option<String>,
    pub album_name: Option<String>,
}

impl Clone for SyncRecord {
    fn clone(&self) -> (r: Self)
        ensures
            r == *self,
    {
        SyncRecord {
            checksum: self.checksum.clone(),
            album_id: self.album_id.clone(),
            album_name: self.album_name.clone(),
        }
    }
}

/// The album a file is synced to.
#[derive(Debug, PartialEq, Eq)]
pub struct SyncTarget {
    pub album_name: Option<String>,
    pub album_id: Option<String>,
}

/// One file of the index.
#[derive(Debug, PartialEq, Eq)]
pub struct SyncEntry {
    pub path: String,
    pub record: SyncRecord,
}

impl Clone for SyncEntry {
    fn clone(&self) -> (r: Self)
        ensures
            r == *self,
    {
        SyncEntry { path: self.path.clone(), record: self.record.clone() }
    }
}

/// The index: one record for each path.
#[derive(Debug, PartialEq, Eq)]
pub struct SyncIndex {
    pub entries: Vec<SyncEntry>,
}

/// The record of the first entry with the given path.
pub open spec fn record_of(entries: Seq<SyncEntry>, file: Seq<char>) -> Option<SyncRecord>
    decreases entries.len(),
{
    if entries.len() == 0 {
        None
    } else {
        match record_of(entries.drop_last(), file) {
            Some(record) => Some(record),
            None => if entries.last().path@ == file {
                Some(entries.last().record)
            } else {
                None
            },
        }
    }
}

/// The path of the first entry with the given checksum.
pub open spec fn path_of(entries: Seq<SyncEntry>, checksum: Seq<char>) -> Option<Seq<char>>
    decreases entries.len(),
{
    if entries.len() == 0 {
        None
    } else {
        match path_of(entries.drop_last(), checksum) {
            Some(file) => Some(file),
            None => if entries.last().record.checksum@ == checksum {
                Some(entries.last().path@)
            } else {
                None
            },
        }
    }
}

/// The entries without the one of the given path.
pub open spec fn without_path(entries: Seq<SyncEntry>, file: Seq<char>) -> Seq<SyncEntry> {
    entries.filter(|e: SyncEntry| e.path@ != file)
}

proof fn without_path_forgets(entries: Seq<SyncEntry>, file: Seq<char>)
    ensures
        record_of(without_path(entries, file), file) is None,
        forall|other: Seq<char>|
            other != file ==> #[trigger] record_of(without_path(entries, file), other)
                == record_of(entries, other),
    decreases entries.len(),
{
    reveal(Seq::filter);
    if entries.len() > 0 {
        without_path_forgets(entries.drop_last(), file);
        let kept = without_path(entries, file);
        let front = without_path(entries.drop_last(), file);
        if entries.last().path@ != file {
            assert(kept.drop_last() =~= front);
            assert(kept.last() == entries.last());
        }
        assert forall|other: Seq<char>| other != file implies #[trigger] record_of(kept, other)
            == record_of(entries, other) by {
            assert(record_of(front, other) == record_of(entries.drop_last(), other));
        }
    }
}

impl SyncIndex {
    /// The record of a path.
    pub open spec fn record(self, file: Seq<char>) -> Option<SyncRecord> {
        record_of(self.entries@, file)
    }

    /// An index of nothing.
    pub fn new() -> (r: Self)
        ensures
            r.entries@.len() == 0,
            forall|file: Seq<char>| #[trigger] r.record(file) is None,
    {
        SyncIndex { entries: Vec::new() }
    }

    /// The record of a path, where the file was synced.
    pub fn record_for_path(&self, file: &str) -> (r: Option<SyncRecord>)
        ensures
            r == self.record(file@),
    {
        let wanted: String = owned(file);
        let mut i: usize = 0;
        assert(self.entries@.take(0) =~= Seq::<SyncEntry>::empty());
        while i < self.entries.len()
            invariant
                i <= self.entries.len(),
                wanted@ == file@,
                record_of(self.entries@.take(i as int), file@) is None,
            decreases self.entries.len() - i,
        {
            assert(self.entries@.take(i + 1).drop_last() =~= self.entries@.take(i as int));
            if self.entries[i].path == wanted {
                proof {
                    record_found_early(self.entries@, file@, i + 1);
                }
                return Some(self.entries[i].record.clone());
            }
            i = i + 1;
        }
        assert(self.entries@.take(i as int) =~= self.entries@);
        None
    }

    /// The checksum recorded for a path, without looking at the file.
    pub fn stored_checksum(&self, file: &str) -> (r: Option<String>)
        ensures
            r is Some <==> self.record(file@) is Some,
            r matches Some(c) ==> c@ == self.record(file@)->0.checksum@,
    {
        match self.record_for_path(file) {
            Some(record) => Some(record.checksum),
            None => None,
        }
    }

    /// Every recorded path with its record.
    pub fn by_path(&self) -> (r: StringHashMap<SyncRecord>)
        ensures
            forall|file: Seq<char>|
                #[trigger] r@.contains_key(file) <==> self.record(file) is Some,
            forall|file: Seq<char>|
                r@.contains_key(file) ==> #[trigger] r@[file] == self.record(file)->0,
    {
        let mut map: StringHashMap<SyncRecord> = StringHashMap::new();
        let mut i: usize = 0;
        assert(self.entries@.take(0) =~= Seq::<SyncEntry>::empty());
        while i < self.entries.len()
            invariant
                i <= self.entries.len(),
                forall|file: Seq<char>|
                    #[trigger] map@.contains_key(file) <==> record_of(
                        self.entries@.take(i as int),
                        file,
                    ) is Some,
                forall|file: Seq<char>|
                    map@.contains_key(file) ==> #[trigger] map@[file] == record_of(
                        self.entries@.take(i as int),
                        file,
                    )->0,
            decreases self.entries.len() - i,
        {
            assert(self.entries@.take(i + 1).drop_last() =~= self.entries@.take(i as int));
            if !map.contains_key(self.entries[i].path.as_str()) {
                map.insert(self.entries[i].path.clone(), self.entries[i].record.clone());
            }
            i = i + 1;
        }
        assert(self.entries@.take(i as int) =~= self.entries@);
        map
    }

    /// For every recorded checksum the path of the first file that has it.
    pub fn by_checksum(&self) -> (r: StringHashMap<String>)
        ensures
            forall|checksum: Seq<char>|
                #[trigger] r@.contains_key(checksum) <==> path_of(self.entries@, checksum) is Some,
            forall|checksum: Seq<char>|
                r@.contains_key(checksum) ==> (#[trigger] r@[checksum])@ == path_of(
                    self.entries@,
                    checksum,
                )->0,
    {
        let mut map: StringHashMap<String> = StringHashMap::new();
        let mut i: usize = 0;
        assert(self.entries@.take(0) =~= Seq::<SyncEntry>::empty());
        while i < self.entries.len()
            invariant
                i <= self.entries.len(),
                forall|checksum: Seq<char>|
                    #[trigger] map@.contains_key(checksum) <==> path_of(
                        self.entries@.take(i as int),
                        checksum,
                    ) is Some,
                forall|checksum: Seq<char>|
                    map@.contains_key(checksum) ==> (#[trigger] map@[checksum])@ == path_of(
                        self.entries@.take(i as int),
                        checksum,
                    )->0,
            decreases self.entries.len() - i,
        {
            assert(self.entries@.take(i + 1).drop_last() =~= self.entries@.take(i as int));
            if !map.contains_key(self.entries[i].record.checksum.as_str()) {
                map.insert(self.entries[i].record.checksum.clone(), self.entries[i].path.clone());
            }
            i = i + 1;
        }
        assert(self.entries@.take(i as int) =~= self.entries@);
        map
    }

    /// Forgets a path; every other record stays.
    pub fn remove_path(&mut self, file: &str)
        ensures
            final(self).entries@ == without_path(old(self).entries@, file@),
            final(self).record(file@) is None,
            forall|other: Seq<char>|
                other != file@ ==> #[trigger] final(self).record(other) == old(self).record(other),
    {
        let gone: String = owned(file);
        let ghost before = self.entries@;
        let ghost keep = |e: SyncEntry| e.path@ != file@;
        let mut kept: Vec<SyncEntry> = Vec::new();
        let mut i: usize = 0;
        proof {
            without_path_forgets(before, file@);
            seqs::filter_ends(before, keep);
        }
        while i < self.entries.len()
            invariant
                i <= self.entries.len(),
                self.entries@ == before,
                gone@ == file@,
                keep == |e: SyncEntry| e.path@ != file@,
                kept@ == before.take(i as int).filter(keep),
            decreases self.entries.len() - i,
        {
            proof {
                seqs::filter_step(before, keep, i as int);
            }
            if self.entries[i].path != gone {
                kept.push(self.entries[i].clone());
            }
            i = i + 1;
        }
        self.entries = kept;
    }

    /// Records that a file with the given checksum is synced to an album.
    pub fn record_synced(&mut self, file: &str, checksum: &str, target: &SyncTarget)
        ensures
            final(self).record(file@) matches Some(record) && record.checksum@ == checksum@
                && record.album_id == target.album_id && record.album_name == target.album_name,
            forall|other: Seq<char>|
                other != file@ ==> #[trigger] final(self).record(other) == old(self).record(other),
    {
        self.remove_path(file);
        let ghost before = *self;
        let record = SyncRecord {
            checksum: owned(checksum),
            album_id: target.album_id.clone(),
            album_name: target.album_name.clone(),
        };
        self.entries.push(SyncEntry { path: owned(file), record });
        proof {
            assert(self.entries@.drop_last() =~= before.entries@);
            assert(before.record(file@) is None);
            assert forall|other: Seq<char>| other != file@ implies #[trigger] self.record(other)
                == old(self).record(other) by {
                assert(before.record(other) == old(self).record(other));
            }
        }
    }
}

proof fn record_found_early(entries: Seq<SyncEntry>, file: Seq<char>, n: int)
    requires
        0 <= n <= entries.len(),
        record_of(entries.take(n), file) is Some,
    ensures
        record_of(entries, file) == record_of(entries.take(n), file),
    decreases entries.len() - n,
{
    if n == entries.len() {
        assert(entries.take(n) =~= entries);
    } else {
        assert(entries.take(n + 1).drop_last() =~= entries.take(n));
        record_found_early(entries, file, n + 1);
    }
}

/// What is recorded of a renamed file, given the record of its old path: the new path with the
/// album the file was synced to. `removed` says whether the old record could be removed; where it
/// could not, nothing is recorded.
pub fn entry_after_rename(
    was: Option<SyncRecord>,
    new_path: &str,
    checksum: &str,
    removed: bool,
) -> (r: Option<SyncEntry>)
    ensures
        r is Some <==> removed,
        r matches Some(entry) ==> entry.path@ == new_path@ && entry.record.checksum@ == checksum@
            && match was {
            Some(record) => entry.record.album_id == record.album_id && entry.record.album_name
                == record.album_name,
            None => entry.record.album_id is None && entry.record.album_name is None,
        },
{
    if !removed {
        return None;
    }
    let (album_id, album_name) = match was {
        Some(record) => (record.album_id, record.album_name),
        None => (None, None),
    };
    Some(
        SyncEntry {
            path: owned(new_path),
            record: SyncRecord { checksum: owned(checksum), album_id, album_name },
        },
    )
}

/// Moves the record of a renamed file to its new path, with the album it was synced to.
pub fn migrate_renamed_record(index: &mut SyncIndex, old_path: &str, new_path: &str, checksum: &str)
    ensures
        final(index).record(new_path@) matches Some(record) && record.checksum@ == checksum@
            && match old(index).record(old_path@) {
            Some(was) => record.album_id == was.album_id && record.album_name == was.album_name,
            None => record.album_id is None && record.album_name is None,
        },
        old_path@ != new_path@ ==> final(index).record(old_path@) is None,
        forall|other: Seq<char>|
            other != old_path@ && other != new_path@ ==> #[trigger] final(index).record(other)
                == old(index).record(other),
{
    let was: Option<SyncRecord> = index.record_for_path(old_path);
    index.remove_path(old_path);
    if let Some(entry) = entry_after_rename(was, new_path, checksum, true) {
        let target = SyncTarget {
            album_name: entry.record.album_name,
            album_id: entry.record.album_id,
        };
        index.record_synced(new_path, checksum, &target);
    }
}

} // verus!
