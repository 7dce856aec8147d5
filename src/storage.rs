use vstd::prelude::*;

use crate::content::{
    after_delete, after_write, blob_of, blob_pos, has_blob, lemma_blob_pos, total_bytes,
    unique_blob_paths, ContentModel, ContentStore,
};
use crate::entry::{FileEntry, LocalFile, StoreError};
use crate::ident::generate_random_number;
use crate::index::{
    after_insert, after_remove_path, fetch_file_entries, fetch_file_entry, has_path,
    insert_error, insert_file_entry, lemma_path_pos, path_pos, record_by_path, remove_file_entry,
    unique_records, EntryIndex, IndexModel,
};
use crate::quota::{admit_write, clip_u64, Admission};

verus! {

/// The storage coordinator: a container root, its content store and its entry index.
#[derive(Debug)]
pub struct Storage {
    pub root: String,
    pub content: ContentStore,
    pub index: EntryIndex,
}

/// Where the blob of a relative path lies: `root/rel`.
pub open spec fn physical_path(root: Seq<char>, rel: Seq<char>) -> Seq<char> {
    root + seq!['/'] + rel
}

/// What a fetch of `name` resolves to against index `s`.
pub open spec fn resolve(s: IndexModel, root: Seq<char>, name: Seq<char>) -> Result<Seq<char>, StoreError> {
    match record_by_path(s, name) {
        Some(e) => Ok(physical_path(root, e.1)),
        None => Err(StoreError::NotFound),
    }
}

/// The index after a delete of `name`: its record goes only when its blob was there to delete.
pub open spec fn index_after_delete(c: ContentModel, s: IndexModel, name: Seq<char>) -> IndexModel {
    if has_blob(c, name) {
        after_remove_path(s, name)
    } else {
        s
    }
}

/// `post` is `pre` after a put of `bytes` under `path` with identifier `id`, which returned `r`.
pub open spec fn put_step(
    pre: &Storage,
    post: &Storage,
    path: Seq<char>,
    bytes: Seq<u8>,
    id: u64,
    r: Result<(), StoreError>,
) -> bool {
    &&& post.wf()
    &&& post.root == pre.root
    &&& post.content@ == after_write(pre.content@, path, bytes)
    &&& post.index@ == after_insert(pre.index@, (id, path))
    &&& match insert_error(pre.index@, (id, path)) {
        Some(e) => r == Err::<(), StoreError>(e),
        None => r is Ok,
    }
}

/// Whether a write of `incoming` bytes into a container holding `c` stays within `limit`.
pub open spec fn within_quota(c: ContentModel, incoming: int, limit: u64) -> bool {
    clip_u64(total_bytes(c)) + incoming <= limit
}

/// The physical path `root/rel`.
pub fn join_path(root: &String, rel: &String) -> (r: String)
    ensures
        r@ == physical_path(root@, rel@),
{
    let mut out = root.clone();
    out.append("/");
    out.append(rel.as_str());
    proof {
        reveal_strlit("/");
    }
    assert(out@ =~= physical_path(root@, rel@));
    out
}

/// The physical path of a looked-up record; `NotFound` when the lookup found none.
pub fn resolve_entry(root: &String, entry: Option<FileEntry>) -> (r: Result<String, StoreError>)
    ensures
        match entry {
            Some(e) => r is Ok && r->Ok_0@ == physical_path(root@, e.entry_path@),
            None => r == Err::<String, StoreError>(StoreError::NotFound),
        },
{
    match entry {
        Some(e) => Ok(join_path(root, &e.entry_path)),
        None => Err(StoreError::NotFound),
    }
}

/// The physical path of each record, in order.
pub fn entry_paths(root: &String, entries: &Vec<FileEntry>) -> (r: Vec<String>)
    ensures
        r@.len() == entries@.len(),
        forall|k: int| 0 <= k < r@.len() ==> #[trigger] r@[k]@ == physical_path(root@, entries@[k].entry_path@),
{
    let mut out: Vec<String> = Vec::new();
    let mut i: usize = 0;
    while i < entries.len()
        invariant
            i <= entries@.len(),
            out@.len() == i,
            forall|k: int| 0 <= k < i ==> #[trigger] out@[k]@ == physical_path(root@, entries@[k].entry_path@),
        decreases entries@.len() - i,
    {
        out.push(join_path(root, &entries[i].entry_path));
        i = i + 1;
    }
    out
}

impl Storage {
    pub open spec fn wf(&self) -> bool {
        self.content.wf() && self.index.wf()
    }

    /// An empty store rooted at `root`.
    pub fn new(root: String) -> (r: Storage)
        ensures
            r.wf(),
            r.root == root,
            r.content@.len() == 0,
            r.index@.len() == 0,
    {
        Storage { root, content: ContentStore::new(), index: EntryIndex::new() }
    }
}

/// Appends `bytes` to the blob of `file_prop.path`, then records it in the index under `id`.
/// The blob is written whether or not the index accepts the record.
pub fn create_file_with_id(conn: &mut Storage, file_prop: &LocalFile, bytes: &Vec<u8>, id: u64) -> (r: Result<(), StoreError>)
    requires
        old(conn).wf(),
    ensures
        put_step(old(conn), final(conn), file_prop.path@, bytes@, id, r),
{
    conn.content.write(&file_prop.path, bytes);
    insert_file_entry(FileEntry::new(id, file_prop.path.clone()), &mut conn.index)
}

/// Stores `bytes` under `file_prop.path` with a freshly generated identifier.
pub fn create_file(conn: &mut Storage, file_prop: &LocalFile, bytes: Vec<u8>) -> (r: Result<(), StoreError>)
    requires
        old(conn).wf(),
    ensures
        exists|id: u64| put_step(old(conn), final(conn), file_prop.path@, bytes@, id, r),
{
    let id = generate_random_number();
    create_file_with_id(conn, file_prop, &bytes, id)
}

/// A put that is first checked against the quota of `limit` bytes: a rejected put
/// fails with `QuotaExceeded` and leaves the store as it was.
pub fn insert_file(conn: &mut Storage, file_prop: &LocalFile, bytes: Vec<u8>, limit: u64) -> (r: Result<(), StoreError>)
    requires
        old(conn).wf(),
    ensures
        !within_quota(old(conn).content@, bytes@.len() as int, limit) ==> r == Err::<(), StoreError>(StoreError::QuotaExceeded)
            && *final(conn) == *old(conn),
        within_quota(old(conn).content@, bytes@.len() as int, limit) ==> exists|id: u64|
            put_step(old(conn), final(conn), file_prop.path@, bytes@, id, r),
{
    let used = conn.content.total_size();
    let incoming = bytes.len() as u64;
    if admit_write(used, incoming, limit) == Admission::Reject {
        return Err(StoreError::QuotaExceeded);
    }
    create_file(conn, file_prop, bytes)
}

/// The physical path of `file_name`, resolved through the index alone; the blob is not consulted.
pub fn fetch_file(conn: &Storage, file_name: String) -> (r: Result<String, StoreError>)
    requires
        conn.wf(),
    ensures
        match r {
            Ok(p) => resolve(conn.index@, conn.root@, file_name@) == Ok::<Seq<char>, StoreError>(p@),
            Err(e) => resolve(conn.index@, conn.root@, file_name@) == Err::<Seq<char>, StoreError>(e),
        },
{
    let entry = fetch_file_entry(file_name, &conn.index);
    resolve_entry(&conn.root, entry)
}

/// The physical path of every record in the index, in index order.
pub fn fetch_all_files(conn: &Storage) -> (r: Vec<String>)
    ensures
        r@.len() == conn.index@.len(),
        forall|k: int| 0 <= k < r@.len() ==> #[trigger] r@[k]@ == physical_path(conn.root@, conn.index@[k].1),
{
    let entries = fetch_file_entries(&conn.index);
    let r = entry_paths(&conn.root, &entries);
    assert forall|k: int| 0 <= k < r@.len() implies #[trigger] r@[k]@ == physical_path(conn.root@, conn.index@[k].1) by {
        assert(entries@[k]@ == conn.index@[k]);
    }
    r
}

/// Deletes the blob of `file_path`, then its record, but the record only when the blob
/// was there to delete. Always succeeds.
pub fn remove_file(conn: &mut Storage, file_path: &String) -> (r: Result<(), StoreError>)
    requires
        old(conn).wf(),
    ensures
        final(conn).wf(),
        r is Ok,
        final(conn).root == old(conn).root,
        final(conn).content@ == after_delete(old(conn).content@, file_path@),
        final(conn).index@ == index_after_delete(old(conn).content@, old(conn).index@, file_path@),
{
    if conn.content.remove(file_path) {
        remove_file_entry(file_path.clone(), &mut conn.index);
    }
    Ok(())
}

/// Appending to a blob, or creating one, keeps blob paths unique.
pub proof fn lemma_write_keeps_unique(c: ContentModel, p: Seq<char>, b: Seq<u8>)
    requires
        unique_blob_paths(c),
    ensures
        unique_blob_paths(after_write(c, p, b)),
{
    let w = after_write(c, p, b);
    if has_blob(c, p) {
        let k = blob_pos(c, p);
        assert forall|j: int| 0 <= j < w.len() implies #[trigger] w[j].0 == c[j].0 by {}
    } else {
        assert forall|x: int, y: int|
            0 <= x < w.len() && 0 <= y < w.len() && #[trigger] w[x].0 == #[trigger] w[y].0 implies x == y by {
            if x < c.len() && y < c.len() {
                assert(c[x].0 == c[y].0);
            } else if x < c.len() {
                assert(c[x].0 == p);
            } else if y < c.len() {
                assert(c[y].0 == p);
            }
        }
    }
}

/// An accepted insert keeps records unique.
pub proof fn lemma_insert_keeps_unique(s: IndexModel, e: (u64, Seq<char>))
    requires
        unique_records(s),
    ensures
        unique_records(after_insert(s, e)),
{
    let w = after_insert(s, e);
    if insert_error(s, e) is None {
        assert forall|x: int, y: int|
            0 <= x < w.len() && 0 <= y < w.len() && #[trigger] w[x].1 == #[trigger] w[y].1 implies x == y by {
            if x < s.len() && y < s.len() {
                assert(s[x].1 == s[y].1);
            } else if x < s.len() {
                assert(s[x].1 == e.1);
            } else if y < s.len() {
                assert(s[y].1 == e.1);
            }
        }
        assert forall|x: int, y: int|
            0 <= x < w.len() && 0 <= y < w.len() && #[trigger] w[x].0 == #[trigger] w[y].0 implies x == y by {
            if x < s.len() && y < s.len() {
                assert(s[x].0 == s[y].0);
            } else if x < s.len() {
                assert(s[x].0 == e.0);
            } else if y < s.len() {
                assert(s[y].0 == e.0);
            }
        }
    }
}

/// Once deleted, no blob remains under the path.
pub proof fn lemma_delete_clears(c: ContentModel, p: Seq<char>)
    requires
        unique_blob_paths(c),
    ensures
        !has_blob(after_delete(c, p), p),
{
    if has_blob(c, p) {
        let k = blob_pos(c, p);
        let d = after_delete(c, p);
        assert forall|j: int| 0 <= j < d.len() implies #[trigger] d[j].0 != p by {
            if j < k {
                assert(c[j].0 == d[j].0);
                if c[j].0 == p {
                    assert(c[j].0 == c[k].0);
                }
            } else {
                assert(c[j + 1].0 == d[j].0);
                if c[j + 1].0 == p {
                    assert(c[j + 1].0 == c[k].0);
                }
            }
        }
    }
}

/// Once its record is removed, no record remains with the path.
pub proof fn lemma_remove_path_clears(s: IndexModel, p: Seq<char>)
    requires
        unique_records(s),
    ensures
        !has_path(after_remove_path(s, p), p),
{
    if has_path(s, p) {
        let k = path_pos(s, p);
        let d = after_remove_path(s, p);
        assert forall|j: int| 0 <= j < d.len() implies #[trigger] d[j].1 != p by {
            if j < k {
                assert(s[j].1 == d[j].1);
                if s[j].1 == p {
                    assert(s[j].1 == s[k].1);
                }
            } else {
                assert(s[j + 1].1 == d[j].1);
                if s[j + 1].1 == p {
                    assert(s[j + 1].1 == s[k].1);
                }
            }
        }
    }
}

/// A successful put of `bytes` under `name`, into a container that held no blob under
/// that name, followed by a fetch of `name`: the fetch resolves to `root/name`, and the
/// blob stored there holds exactly `bytes`.
pub proof fn lemma_put_then_fetch(pre: &Storage, post: &Storage, name: Seq<char>, bytes: Seq<u8>, id: u64)
    requires
        pre.wf(),
        !has_blob(pre.content@, name),
        put_step(pre, post, name, bytes, id, Ok(())),
    ensures
        resolve(post.index@, post.root@, name) == Ok::<Seq<char>, StoreError>(physical_path(post.root@, name)),
        blob_of(post.content@, name) == Some(bytes),
{
    let c = pre.content@;
    let s = pre.index@;
    assert(post.content@ == c.push((name, bytes)));
    lemma_write_keeps_unique(c, name, bytes);
    lemma_blob_pos(post.content@, name, c.len() as int);
    assert(insert_error(s, (id, name)) is None);
    assert(post.index@ == s.push((id, name)));
    lemma_insert_keeps_unique(s, (id, name));
    lemma_path_pos(post.index@, name, s.len() as int);
}

/// A successful put of `bytes` under `name`, followed by a delete of `name`: the delete
/// finds the blob, so both the blob and the record go, and a later fetch of `name`
/// reports `NotFound`.
pub proof fn lemma_put_then_remove(pre: &Storage, mid: &Storage, name: Seq<char>, bytes: Seq<u8>, id: u64)
    requires
        pre.wf(),
        put_step(pre, mid, name, bytes, id, Ok(())),
    ensures
        has_blob(mid.content@, name),
        !has_blob(after_delete(mid.content@, name), name),
        !has_path(index_after_delete(mid.content@, mid.index@, name), name),
        resolve(index_after_delete(mid.content@, mid.index@, name), mid.root@, name)
            == Err::<Seq<char>, StoreError>(StoreError::NotFound),
{
    let c = pre.content@;
    if has_blob(c, name) {
        let k = blob_pos(c, name);
        assert(mid.content@[k].0 == name);
    } else {
        assert(mid.content@[c.len() as int].0 == name);
    }
    lemma_delete_clears(mid.content@, name);
    lemma_remove_path_clears(mid.index@, name);
}

} // verus!
