use vstd::prelude::*;

use crate::entry::{FileEntry, StoreError};

verus! {

/// The entry index: the records of the files known to the service, in insertion order.
#[derive(Debug)]
pub struct EntryIndex {
    entries: Vec<FileEntry>,
}

/// An index seen as its (id, path) records.
pub type IndexModel = Seq<(u64, Seq<char>)>;

/// No two records share a path, and no two share an identifier.
pub open spec fn unique_records(s: IndexModel) -> bool {
    &&& forall|a: int, b: int|
        0 <= a < s.len() && 0 <= b < s.len() && #[trigger] s[a].1 == #[trigger] s[b].1 ==> a == b
    &&& forall|a: int, b: int|
        0 <= a < s.len() && 0 <= b < s.len() && #[trigger] s[a].0 == #[trigger] s[b].0 ==> a == b
}

pub open spec fn has_path(s: IndexModel, p: Seq<char>) -> bool {
    exists|k: int| 0 <= k < s.len() && #[trigger] s[k].1 == p
}

pub open spec fn has_id(s: IndexModel, id: u64) -> bool {
    exists|k: int| 0 <= k < s.len() && #[trigger] s[k].0 == id
}

pub open spec fn path_pos(s: IndexModel, p: Seq<char>) -> int {
    choose|k: int| 0 <= k < s.len() && #[trigger] s[k].1 == p
}

pub open spec fn id_pos(s: IndexModel, id: u64) -> int {
    choose|k: int| 0 <= k < s.len() && #[trigger] s[k].0 == id
}

/// The record whose path is `p`, if any.
pub open spec fn record_by_path(s: IndexModel, p: Seq<char>) -> Option<(u64, Seq<char>)> {
    if has_path(s, p) {
        Some(s[path_pos(s, p)])
    } else {
        None
    }
}

/// The record whose identifier is `id`, if any.
pub open spec fn record_by_id(s: IndexModel, id: u64) -> Option<(u64, Seq<char>)> {
    if has_id(s, id) {
        Some(s[id_pos(s, id)])
    } else {
        None
    }
}

/// Why inserting `e` would violate uniqueness, if it would.
pub open spec fn insert_error(s: IndexModel, e: (u64, Seq<char>)) -> Option<StoreError> {
    if has_path(s, e.1) {
        Some(StoreError::DuplicatePath)
    } else if has_id(s, e.0) {
        Some(StoreError::DuplicateId)
    } else {
        None
    }
}

/// The index after an insert of `e`: unchanged when the insert is refused.
pub open spec fn after_insert(s: IndexModel, e: (u64, Seq<char>)) -> IndexModel {
    if insert_error(s, e) is None {
        s.push(e)
    } else {
        s
    }
}

/// The index after the record with path `p`, if any, is deleted.
pub open spec fn after_remove_path(s: IndexModel, p: Seq<char>) -> IndexModel {
    if has_path(s, p) {
        s.remove(path_pos(s, p))
    } else {
        s
    }
}

pub proof fn lemma_path_pos(s: IndexModel, p: Seq<char>, k: int)
    requires
        unique_records(s),
        0 <= k < s.len(),
        s[k].1 == p,
    ensures
        has_path(s, p),
        path_pos(s, p) == k,
{
    assert(has_path(s, p));
    let j = path_pos(s, p);
    assert(s[j].1 == s[k].1);
}

pub proof fn lemma_id_pos(s: IndexModel, id: u64, k: int)
    requires
        unique_records(s),
        0 <= k < s.len(),
        s[k].0 == id,
    ensures
        has_id(s, id),
        id_pos(s, id) == k,
{
    assert(has_id(s, id));
    let j = id_pos(s, id);
    assert(s[j].0 == s[k].0);
}

impl View for EntryIndex {
    type V = IndexModel;

    closed spec fn view(&self) -> IndexModel {
        self.entries@.map_values(|e: FileEntry| e@)
    }
}

impl EntryIndex {
    pub open spec fn wf(&self) -> bool {
        unique_records(self@)
    }

    /// An index with no records.
    pub fn new() -> (r: EntryIndex)
        ensures
            r.wf(),
            r@ == Seq::<(u64, Seq<char>)>::empty(),
    {
        let r = EntryIndex { entries: Vec::new() };
        assert(r@ =~= Seq::<(u64, Seq<char>)>::empty());
        r
    }

    /// Number of live records.
    pub fn len(&self) -> (r: usize)
        ensures
            r == self@.len(),
    {
        self.entries.len()
    }

    fn path_position(&self, path: &String) -> (r: Option<usize>)
        ensures
            match r {
                Some(k) => k < self@.len() && self@[k as int].1 == path@,
                None => !has_path(self@, path@),
            },
    {
        let mut k: usize = 0;
        while k < self.entries.len()
            invariant
                k <= self.entries@.len(),
                forall|j: int| 0 <= j < k ==> #[trigger] self@[j].1 != path@,
            decreases self.entries@.len() - k,
        {
            if self.entries[k].entry_path == *path {
                return Some(k);
            }
            k = k + 1;
        }
        None
    }

    fn id_position(&self, id: u64) -> (r: Option<usize>)
        ensures
            match r {
                Some(k) => k < self@.len() && self@[k as int].0 == id,
                None => !has_id(self@, id),
            },
    {
        let mut k: usize = 0;
        while k < self.entries.len()
            invariant
                k <= self.entries@.len(),
                forall|j: int| 0 <= j < k ==> #[trigger] self@[j].0 != id,
            decreases self.entries@.len() - k,
        {
            if self.entries[k].id == id {
                return Some(k);
            }
            k = k + 1;
        }
        None
    }
}

/// Looks a record up by identifier; absence is no error.
pub fn fetch_file_entry_by_id(file_id: u64, index: &EntryIndex) -> (r: Option<FileEntry>)
    requires
        index.wf(),
    ensures
        match r {
            Some(e) => record_by_id(index@, file_id) == Some(e@),
            None => record_by_id(index@, file_id) is None,
        },
{
    match index.id_position(file_id) {
        Some(k) => {
            proof {
                lemma_id_pos(index@, file_id, k as int);
            }
            Some(index.entries[k].duplicate())
        },
        None => None,
    }
}

/// Looks a record up by path; absence is no error.
pub fn fetch_file_entry(path: String, index: &EntryIndex) -> (r: Option<FileEntry>)
    requires
        index.wf(),
    ensures
        match r {
            Some(e) => record_by_path(index@, path@) == Some(e@),
            None => record_by_path(index@, path@) is None,
        },
{
    match index.path_position(&path) {
        Some(k) => {
            proof {
                lemma_path_pos(index@, path@, k as int);
            }
            Some(index.entries[k].duplicate())
        },
        None => None,
    }
}

/// Every record, in insertion order.
pub fn fetch_file_entries(index: &EntryIndex) -> (r: Vec<FileEntry>)
    ensures
        r@.len() == index@.len(),
        forall|k: int| 0 <= k < r@.len() ==> #[trigger] r@[k]@ == index@[k],
{
    let mut out: Vec<FileEntry> = Vec::new();
    let mut i: usize = 0;
    while i < index.entries.len()
        invariant
            i <= index.entries@.len(),
            out@.len() == i,
            forall|k: int| 0 <= k < i ==> #[trigger] out@[k]@ == index@[k],
        decreases index.entries@.len() - i,
    {
        out.push(index.entries[i].duplicate());
        i = i + 1;
    }
    out
}

/// Deletes the record whose path is `file`; succeeds when there is none.
pub fn remove_file_entry(file: String, index: &mut EntryIndex)
    requires
        old(index).wf(),
    ensures
        final(index).wf(),
        final(index)@ == after_remove_path(old(index)@, file@),
{
    match index.path_position(&file) {
        Some(k) => {
            proof {
                lemma_path_pos(index@, file@, k as int);
            }
            index.entries.remove(k);
            assert(index@ =~= after_remove_path(old(index)@, file@));
        },
        None => {},
    }
}

/// Adds `entry`; refused, with the index unchanged, when its path or identifier is taken.
pub fn insert_file_entry(entry: FileEntry, index: &mut EntryIndex) -> (r: Result<(), StoreError>)
    requires
        old(index).wf(),
    ensures
        final(index).wf(),
        final(index)@ == after_insert(old(index)@, entry@),
        match insert_error(old(index)@, entry@) {
            Some(e) => r == Err::<(), StoreError>(e),
            None => r is Ok,
        },
{
    if index.path_position(&entry.entry_path).is_some() {
        return Err(StoreError::DuplicatePath);
    }
    if index.id_position(entry.id).is_some() {
        return Err(StoreError::DuplicateId);
    }
    index.entries.push(entry);
    assert(index@ =~= after_insert(old(index)@, entry@));
    Ok(())
}

} // verus!
