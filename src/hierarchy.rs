use crate::analyzer::AnalyzerError;
use crate::histogram::ascending;
use vstd::prelude::*;

verus! {

/// Size in bytes of one node record of a packed hierarchy file.
pub const NODE_RECORD_SIZE: usize = 22;

/// The tag of the node kind whose records may be placeholders.
pub const PLACEHOLDER_TAG: u8 = 2;

/// Offset of the point count within a record.
pub const POINT_COUNT_OFFSET: usize = 2;

/// Whether a record with the given tag and flag bytes describes a real node.
pub open spec fn record_is_valid(tag: u8, flag: u8) -> bool {
    !(tag == PLACEHOLDER_TAG && flag != 0)
}

/// The little-endian 32-bit unsigned integer at offset `o` of `b`.
pub open spec fn le_u32(b: Seq<u8>, o: int) -> int {
    b[o] + 256 * b[o + 1] + 65536 * b[o + 2] + 16777216 * b[o + 3]
}

/// Whether record `k` of `b` describes a real node.
pub open spec fn record_valid_at(b: Seq<u8>, k: int) -> bool {
    record_is_valid(b[NODE_RECORD_SIZE * k], b[NODE_RECORD_SIZE * k + 1])
}

/// The point counts of the real nodes among the first `n` records of `b`, in record order.
pub open spec fn valid_point_counts(b: Seq<u8>, n: int) -> Seq<usize>
    decreases n,
{
    if n <= 0 {
        seq![]
    } else {
        let before = valid_point_counts(b, n - 1);
        if record_valid_at(b, n - 1) {
            before.push(le_u32(b, NODE_RECORD_SIZE * (n - 1) + POINT_COUNT_OFFSET) as usize)
        } else {
            before
        }
    }
}

/// The number of records of a hierarchy file of `len` bytes.
pub open spec fn record_count(len: int) -> int {
    len / NODE_RECORD_SIZE as int
}

/// Decides from the first two bytes of a record whether it describes a real node.
pub fn is_valid_record(tag: u8, flag: u8) -> (r: bool)
    ensures
        r == record_is_valid(tag, flag),
{
    tag != PLACEHOLDER_TAG || flag == 0
}

/// Reads the little-endian 32-bit unsigned integer at `offset`.
pub fn read_u32_le(bytes: &Vec<u8>, offset: usize) -> (r: u32)
    requires
        offset + 4 <= bytes@.len(),
    ensures
        r == le_u32(bytes@, offset as int),
{
    let len = bytes.len();
    assert(offset + 3 < len);
    let b0 = bytes[offset] as u32;
    let b1 = bytes[offset + 1] as u32;
    let b2 = bytes[offset + 2] as u32;
    let b3 = bytes[offset + 3] as u32;
    b0 + 256 * b1 + 65536 * b2 + 16777216 * b3
}

/// The point counts of the real nodes of a packed hierarchy, in record order. Trailing bytes
/// that make no whole record are ignored.
pub fn node_point_counts(bytes: &Vec<u8>) -> (r: Vec<usize>)
    ensures
        r@ == valid_point_counts(bytes@, record_count(bytes@.len() as int)),
{
    let len = bytes.len();
    let n = len / NODE_RECORD_SIZE;
    let mut r: Vec<usize> = Vec::new();
    let mut k: usize = 0;
    while k < n
        invariant
            n == record_count(bytes@.len() as int),
            len == bytes@.len(),
            k <= n,
            r@ == valid_point_counts(bytes@, k as int),
        decreases n - k,
    {
        assert(k * NODE_RECORD_SIZE + NODE_RECORD_SIZE <= bytes@.len()) by (nonlinear_arith)
            requires
                k < n,
                n == bytes@.len() as int / 22,
                NODE_RECORD_SIZE == 22,
        ;
        assert(k * NODE_RECORD_SIZE + NODE_RECORD_SIZE <= len);
        let start = k * NODE_RECORD_SIZE;
        if is_valid_record(bytes[start], bytes[start + 1]) {
            let c = read_u32_le(bytes, start + POINT_COUNT_OFFSET);
            r.push(c as usize);
        }
        k = k + 1;
    }
    r
}

/// What a packed hierarchy holds: its number of real nodes and their point counts, ascending.
pub struct HierarchySummary {
    pub node_count: usize,
    pub point_counts: Vec<usize>,
}

/// `s` holds the number of real nodes of `b` and their point counts in ascending order.
pub open spec fn summarizes(s: HierarchySummary, b: Seq<u8>) -> bool {
    let counts = valid_point_counts(b, record_count(b.len() as int));
    &&& s.node_count == counts.len()
    &&& ascending(s.point_counts@)
    &&& s.point_counts@.to_multiset() == counts.to_multiset()
}

/// Relies on `slice::sort`: it leaves the same elements in ascending order.
#[verifier::external_body]
fn sort_ascending(v: &mut Vec<usize>)
    ensures
        ascending(final(v)@),
        final(v)@.to_multiset() == old(v)@.to_multiset(),
{
    v.sort();
}

/// The counts in ascending order.
pub fn sorted_counts(counts: Vec<usize>) -> (r: Vec<usize>)
    ensures
        ascending(r@),
        r@.to_multiset() == counts@.to_multiset(),
{
    let mut v = counts;
    sort_ascending(&mut v);
    v
}

/// Checks the size of a packed hierarchy and summarizes its real nodes.
pub fn summarize_hierarchy(bytes: &Vec<u8>) -> (r: Result<HierarchySummary, AnalyzerError>)
    ensures
        r is Ok <==> bytes@.len() as int % NODE_RECORD_SIZE as int == 0,
        r is Err ==> r->Err_0 == (AnalyzerError::HierarchySize { record_size: NODE_RECORD_SIZE }),
        r is Ok ==> summarizes(r->Ok_0, bytes@),
{
    if bytes.len() % NODE_RECORD_SIZE != 0 {
        return Err(AnalyzerError::HierarchySize { record_size: NODE_RECORD_SIZE });
    }
    let counts = node_point_counts(bytes);
    let node_count = counts.len();
    let point_counts = sorted_counts(counts);
    proof {
        point_counts@.to_multiset_ensures();
        counts@.to_multiset_ensures();
    }
    Ok(HierarchySummary { node_count, point_counts })
}

} // verus!
