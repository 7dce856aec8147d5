use vstd::prelude::*;

verus! {

/// Bytes in one unit of the configured storage limit (decimal gigabytes).
pub const BYTES_PER_UNIT: u64 = 1_000_000_000;

/// Outcome of the quota admission check for an incoming write.
#[derive(Debug, Clone, Copy, PartialEq, Eq, Structural)]
pub enum Admission {
    Admit,
    Reject,
}

/// What a scan of the container directory reports for one directory entry.
#[derive(Debug, Clone, Copy, PartialEq, Eq, Structural)]
pub struct EntryStat {
    pub is_file: bool,
    pub len: u64,
}

/// Sum of the sizes of the regular files among `stats`.
pub open spec fn regular_total(stats: Seq<EntryStat>) -> int
    decreases stats.len(),
{
    if stats.len() == 0 {
        0
    } else {
        let last = stats.last();
        regular_total(stats.drop_last()) + if last.is_file { last.len as int } else { 0 }
    }
}

/// `x`, capped at `u64::MAX`.
pub open spec fn clip_u64(x: int) -> int {
    if x > u64::MAX { u64::MAX as int } else { x }
}

/// Approves a write of `incoming` bytes when `used + incoming` stays within `limit`.
pub fn admit_write(used: u64, incoming: u64, limit: u64) -> (r: Admission)
    ensures
        r == Admission::Reject <==> used as int + incoming as int > limit as int,
{
    if incoming > limit || used > limit - incoming {
        Admission::Reject
    } else {
        Admission::Admit
    }
}

/// The configured limit, given in units, as bytes; saturates at `u64::MAX`.
pub fn limit_bytes(units: u64) -> (r: u64)
    ensures
        r as int == clip_u64(units as int * BYTES_PER_UNIT as int),
{
    if units > u64::MAX / BYTES_PER_UNIT {
        u64::MAX
    } else {
        units * BYTES_PER_UNIT
    }
}

/// Total size of the regular files of a flat container, from the entries a directory
/// scan reported; entries that are not regular files count nothing. Saturates at `u64::MAX`.
pub fn get_container_size(stats: &Vec<EntryStat>) -> (r: u64)
    ensures
        r as int == clip_u64(regular_total(stats@)),
{
    let mut total: u64 = 0;
    let mut i: usize = 0;
    while i < stats.len()
        invariant
            i <= stats@.len(),
            total as int == clip_u64(regular_total(stats@.subrange(0, i as int))),
        decreases stats@.len() - i,
    {
        let s = stats[i];
        proof {
            let pre = stats@.subrange(0, i as int);
            let next = stats@.subrange(0, i + 1);
            assert(next.drop_last() =~= pre);
            assert(next.last() == s);
            lemma_regular_total_nonneg(pre);
        }
        if s.is_file {
            total = total.saturating_add(s.len);
        }
        i = i + 1;
    }
    assert(stats@.subrange(0, stats@.len() as int) =~= stats@);
    total
}

proof fn lemma_regular_total_nonneg(stats: Seq<EntryStat>)
    ensures
        regular_total(stats) >= 0,
    decreases stats.len(),
{
    if stats.len() > 0 {
        lemma_regular_total_nonneg(stats.drop_last());
    }
}

} // verus!
