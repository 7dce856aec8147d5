use vstd::prelude::*;

use crate::quota::clip_u64;

verus! {

/// The bytes stored under one path of the container.
#[derive(Debug)]
pub struct Blob {
    pub path: String,
    pub bytes: Vec<u8>,
}

/// The content store: byte payloads of a flat container, keyed by relative path.
#[derive(Debug)]
pub struct ContentStore {
    blobs: Vec<Blob>,
}

/// A content store seen as its (path, bytes) pairs.
pub type ContentModel = Seq<(Seq<char>, Seq<u8>)>;

/// No two blobs share a path.
pub open spec fn unique_blob_paths(s: ContentModel) -> bool {
    forall|a: int, b: int|
        0 <= a < s.len() && 0 <= b < s.len() && #[trigger] s[a].0 == #[trigger] s[b].0 ==> a == b
}

pub open spec fn has_blob(s: ContentModel, p: Seq<char>) -> bool {
    exists|k: int| 0 <= k < s.len() && #[trigger] s[k].0 == p
}

/// Where the blob of `p` stands, when there is one.
pub open spec fn blob_pos(s: ContentModel, p: Seq<char>) -> int {
    choose|k: int| 0 <= k < s.len() && #[trigger] s[k].0 == p
}

/// The bytes stored under `p`, if any.
pub open spec fn blob_of(s: ContentModel, p: Seq<char>) -> Option<Seq<u8>> {
    if has_blob(s, p) {
        Some(s[blob_pos(s, p)].1)
    } else {
        None
    }
}

/// The store after `b` is appended to the blob of `p`, which is created when absent.
pub open spec fn after_write(s: ContentModel, p: Seq<char>, b: Seq<u8>) -> ContentModel {
    if has_blob(s, p) {
        s.update(blob_pos(s, p), (p, s[blob_pos(s, p)].1 + b))
    } else {
        s.push((p, b))
    }
}

/// The store after the blob of `p`, if any, is deleted.
pub open spec fn after_delete(s: ContentModel, p: Seq<char>) -> ContentModel {
    if has_blob(s, p) {
        s.remove(blob_pos(s, p))
    } else {
        s
    }
}

/// Sum of the lengths of all blobs.
pub open spec fn total_bytes(s: ContentModel) -> int
    decreases s.len(),
{
    if s.len() == 0 {
        0
    } else {
        total_bytes(s.drop_last()) + s.last().1.len()
    }
}

pub proof fn lemma_blob_pos(s: ContentModel, p: Seq<char>, k: int)
    requires
        unique_blob_paths(s),
        0 <= k < s.len(),
        s[k].0 == p,
    ensures
        has_blob(s, p),
        blob_pos(s, p) == k,
{
    assert(has_blob(s, p));
    let j = blob_pos(s, p);
    assert(s[j].0 == s[k].0);
}

proof fn lemma_total_bytes_nonneg(s: ContentModel)
    ensures
        total_bytes(s) >= 0,
    decreases s.len(),
{
    if s.len() > 0 {
        lemma_total_bytes_nonneg(s.drop_last());
    }
}

/// A copy of `src`, byte for byte.
fn copy_bytes(src: &Vec<u8>) -> (r: Vec<u8>)
    ensures
        r@ == src@,
{
    let mut out: Vec<u8> = Vec::new();
    append_bytes(&mut out, src);
    out
}

/// Appends the bytes of `src` to `dst`.
fn append_bytes(dst: &mut Vec<u8>, src: &Vec<u8>)
    ensures
        final(dst)@ == old(dst)@ + src@,
{
    let mut i: usize = 0;
    while i < src.len()
        invariant
            i <= src@.len(),
            dst@ == old(dst)@ + src@.subrange(0, i as int),
        decreases src@.len() - i,
    {
        dst.push(src[i]);
        i = i + 1;
        assert(src@.subrange(0, i as int) =~= src@.subrange(0, i - 1).push(src@[i - 1]));
    }
    assert(src@.subrange(0, src@.len() as int) =~= src@);
}

impl View for ContentStore {
    type V = ContentModel;

    closed spec fn view(&self) -> ContentModel {
        self.blobs@.map_values(|b: Blob| (b.path@, b.bytes@))
    }
}

impl ContentStore {
    pub open spec fn wf(&self) -> bool {
        unique_blob_paths(self@)
    }

    /// An empty container.
    pub fn new() -> (r: ContentStore)
        ensures
            r.wf(),
            r@ == Seq::<(Seq<char>, Seq<u8>)>::empty(),
    {
        let r = ContentStore { blobs: Vec::new() };
        assert(r@ =~= Seq::<(Seq<char>, Seq<u8>)>::empty());
        r
    }

    fn position(&self, path: &String) -> (r: Option<usize>)
        ensures
            match r {
                Some(k) => k < self@.len() && self@[k as int].0 == path@,
                None => !has_blob(self@, path@),
            },
    {
        let mut k: usize = 0;
        while k < self.blobs.len()
            invariant
                k <= self.blobs@.len(),
                forall|j: int| 0 <= j < k ==> #[trigger] self@[j].0 != path@,
            decreases self.blobs@.len() - k,
        {
            if self.blobs[k].path == *path {
                return Some(k);
            }
            k = k + 1;
        }
        None
    }

    /// Whether a blob is stored under `path`.
    pub fn contains(&self, path: &String) -> (r: bool)
        ensures
            r == has_blob(self@, path@),
    {
        self.position(path).is_some()
    }

    /// Appends `bytes` to the blob stored under `path`, creating it when absent.
    pub fn write(&mut self, path: &String, bytes: &Vec<u8>)
        requires
            old(self).wf(),
        ensures
            final(self).wf(),
            final(self)@ == after_write(old(self)@, path@, bytes@),
    {
        match self.position(path) {
            Some(k) => {
                proof {
                    lemma_blob_pos(self@, path@, k as int);
                }
                let mut joined = copy_bytes(&self.blobs[k].bytes);
                append_bytes(&mut joined, bytes);
                self.blobs.set(k, Blob { path: path.clone(), bytes: joined });
                assert(self@ =~= after_write(old(self)@, path@, bytes@));
            },
            None => {
                let b = copy_bytes(bytes);
                self.blobs.push(Blob { path: path.clone(), bytes: b });
                assert(self@ =~= after_write(old(self)@, path@, bytes@));
            },
        }
    }

    /// The bytes stored under `path`; `None` when there are none.
    pub fn read(&self, path: &String) -> (r: Option<Vec<u8>>)
        requires
            self.wf(),
        ensures
            match r {
                Some(v) => blob_of(self@, path@) == Some(v@),
                None => blob_of(self@, path@) is None,
            },
    {
        match self.position(path) {
            Some(k) => {
                proof {
                    lemma_blob_pos(self@, path@, k as int);
                }
                Some(copy_bytes(&self.blobs[k].bytes))
            },
            None => None,
        }
    }

    /// Deletes the blob stored under `path`; fails with `false` when there is none.
    pub fn remove(&mut self, path: &String) -> (r: bool)
        requires
            old(self).wf(),
        ensures
            final(self).wf(),
            r == has_blob(old(self)@, path@),
            final(self)@ == after_delete(old(self)@, path@),
    {
        match self.position(path) {
            Some(k) => {
                proof {
                    lemma_blob_pos(self@, path@, k as int);
                }
                self.blobs.remove(k);
                assert(self@ =~= after_delete(old(self)@, path@));
                true
            },
            None => false,
        }
    }

    /// Total length of all blobs; saturates at `u64::MAX`.
    pub fn total_size(&self) -> (r: u64)
        ensures
            r as int == clip_u64(total_bytes(self@)),
    {
        let mut total: u64 = 0;
        let mut i: usize = 0;
        while i < self.blobs.len()
            invariant
                i <= self.blobs@.len(),
                total as int == clip_u64(total_bytes(self@.subrange(0, i as int))),
            decreases self.blobs@.len() - i,
        {
            proof {
                let pre = self@.subrange(0, i as int);
                let next = self@.subrange(0, i + 1);
                assert(next.drop_last() =~= pre);
                lemma_total_bytes_nonneg(pre);
            }
            let n = self.blobs[i].bytes.len() as u64;
            total = total.saturating_add(n);
            i = i + 1;
        }
        assert(self@.subrange(0, self@.len() as int) =~= self@);
        total
    }
}

} // verus!
