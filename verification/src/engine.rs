//! Planning of segmented downloads.

use vstd::prelude::*;
use crate::models::{Segment, SegmentStatus, segment_file_name};
use crate::paths::joined_path;

verus! {

/// Smallest segment a download is split into: 1 MiB.
pub const MIN_SEGMENT_SIZE: u64 = 1048576;

/// Largest number of segments a download is split into.
pub const MAX_SEGMENTS: usize = 16;

/// Options of the download engine.
#[derive(Clone, Copy, Debug, Default)]
pub struct DownloadEngineConfig {
    pub large_file_mode: bool,
}

pub open spec fn min_usize(a: usize, b: usize) -> usize {
    if a <= b { a } else { b }
}

pub open spec fn max_usize(a: usize, b: usize) -> usize {
    if a >= b { a } else { b }
}

/// Number of segments for a file of `total_size` bytes when `preferred` are asked for:
/// at least one, at most sixteen, and no more than there are whole MiB in the file.
pub open spec fn segment_count(total_size: u64, preferred: usize) -> usize {
    if total_size == 0 {
        1
    } else {
        let max_by_size = (total_size / MIN_SEGMENT_SIZE) as usize;
        let segments = max_usize(min_usize(preferred, MAX_SEGMENTS), 1);
        max_usize(min_usize(segments, max_by_size), 1)
    }
}

/// Calculates the number of segments to download a file of `total_size` bytes with.
pub fn calculate_segments(total_size: u64, preferred: usize) -> (n: usize)
    ensures
        n == segment_count(total_size, preferred),
        1 <= n <= MAX_SEGMENTS,
{
    if total_size == 0 {
        return 1;
    }
    let max_by_size = (total_size / MIN_SEGMENT_SIZE) as usize;
    let mut segments = if preferred < MAX_SEGMENTS { preferred } else { MAX_SEGMENTS };
    if segments < 1 {
        segments = 1;
    }
    let mut n = if segments < max_by_size { segments } else { max_by_size };
    if n < 1 {
        n = 1;
    }
    n
}

/// First byte of segment `i` of `n` over a file of `total` bytes.
pub open spec fn planned_start(total: u64, n: usize, i: int) -> int {
    i * (total / (n as u64)) as int
}

/// Last byte of segment `i` of `n` over a file of `total` bytes: the last segment takes
/// the remainder of the division.
pub open spec fn planned_end(total: u64, n: usize, i: int) -> int {
    if i == n - 1 {
        total - 1
    } else {
        (i + 1) * (total / (n as u64)) as int - 1
    }
}

proof fn lemma_segment_bounds(total: u64, n: usize, i: int)
    requires
        n >= 1,
        total >= n,
        0 <= i < n,
    ensures
        0 <= planned_start(total, n, i) <= planned_end(total, n, i) < total,
        planned_end(total, n, i) + 1 == (if i == n - 1 { total as int } else { planned_start(total, n, i + 1) }),
{
    let seg = (total / (n as u64)) as int;
    assert(seg >= 1) by (nonlinear_arith)
        requires seg == total as int / n as int, total >= n, n >= 1;
    assert(n * seg <= total) by (nonlinear_arith)
        requires seg == total as int / n as int, n >= 1;
    assert(i * seg >= 0) by (nonlinear_arith)
        requires i >= 0, seg >= 1;
    assert((i + 1) * seg <= n * seg) by (nonlinear_arith)
        requires i + 1 <= n, seg >= 1;
    assert((i + 1) * seg == i * seg + seg) by (nonlinear_arith);
}

/// Splits a file of `total_size` bytes into `num_segments` contiguous segments whose
/// files lie in `temp_dir`.
pub fn create_segments(total_size: u64, num_segments: usize, temp_dir: &str) -> (segs: Vec<Segment>)
    requires
        num_segments >= 1,
        total_size >= num_segments,
    ensures
        segs@.len() == num_segments,
        forall|i: int| 0 <= i < num_segments ==> {
            &&& (#[trigger] segs@[i]).id == i
            &&& segs@[i].start_byte == planned_start(total_size, num_segments, i)
            &&& segs@[i].end_byte == planned_end(total_size, num_segments, i)
            &&& segs@[i].downloaded == 0
            &&& segs@[i].status == SegmentStatus::Pending
            &&& segs@[i].temp_file@ == joined_path(temp_dir@, segment_file_name(i as nat))
        },
{
    let segment_size = total_size / (num_segments as u64);
    let mut segments: Vec<Segment> = Vec::new();
    let mut i: usize = 0;
    while i < num_segments
        invariant
            i <= num_segments,
            num_segments >= 1,
            total_size >= num_segments,
            segment_size == total_size / (num_segments as u64),
            segments@.len() == i,
            forall|k: int| 0 <= k < i ==> {
                &&& (#[trigger] segments@[k]).id == k
                &&& segments@[k].start_byte == planned_start(total_size, num_segments, k)
                &&& segments@[k].end_byte == planned_end(total_size, num_segments, k)
                &&& segments@[k].downloaded == 0
                &&& segments@[k].status == SegmentStatus::Pending
                &&& segments@[k].temp_file@ == joined_path(temp_dir@, segment_file_name(k as nat))
            },
        decreases num_segments - i,
    {
        proof {
            lemma_segment_bounds(total_size, num_segments, i as int);
        }
        let start = (i as u64) * segment_size;
        let end = if i == num_segments - 1 {
            total_size - 1
        } else {
            (i as u64 + 1) * segment_size - 1
        };
        segments.push(Segment::new(i, start, end, temp_dir));
        i = i + 1;
    }
    segments
}

/// The segment that byte `b` falls in.
pub open spec fn segment_of_byte(total: u64, n: usize, b: int) -> int {
    let q = b / ((total / (n as u64)) as int);
    if q < n { q } else { n - 1 }
}

/// Segment planning covers the file: the planned segments are non-empty, the first starts
/// at byte 0, each starts right after the one before it ends, and the last ends at the
/// file's last byte; so every byte of the file belongs to exactly one segment, the one
/// `segment_of_byte` names.
pub proof fn planned_segments_partition_file(total_size: u64, num_segments: usize)
    requires
        num_segments >= 1,
        total_size >= num_segments,
    ensures
        planned_start(total_size, num_segments, 0) == 0,
        planned_end(total_size, num_segments, num_segments - 1) == total_size - 1,
        forall|i: int| 0 <= i < num_segments ==>
            planned_start(total_size, num_segments, i) <= #[trigger] planned_end(total_size, num_segments, i),
        forall|i: int| 0 <= i < num_segments - 1 ==>
            #[trigger] planned_start(total_size, num_segments, i + 1) == planned_end(total_size, num_segments, i) + 1,
        forall|b: int| 0 <= b < total_size ==> {
            let i = #[trigger] segment_of_byte(total_size, num_segments, b);
            0 <= i < num_segments && planned_start(total_size, num_segments, i) <= b <= planned_end(total_size, num_segments, i)
        },
{
    assert forall|i: int| 0 <= i < num_segments implies
        planned_start(total_size, num_segments, i) <= #[trigger] planned_end(total_size, num_segments, i) by {
        lemma_segment_bounds(total_size, num_segments, i);
    }
    assert forall|i: int| 0 <= i < num_segments - 1 implies
        #[trigger] planned_start(total_size, num_segments, i + 1) == planned_end(total_size, num_segments, i) + 1 by {
        lemma_segment_bounds(total_size, num_segments, i);
    }
    let seg = (total_size / (num_segments as u64)) as int;
    assert(seg >= 1) by (nonlinear_arith)
        requires seg == total_size as int / num_segments as int, total_size >= num_segments, num_segments >= 1;
    assert forall|b: int| 0 <= b < total_size implies {
            let i = #[trigger] segment_of_byte(total_size, num_segments, b);
            0 <= i < num_segments && planned_start(total_size, num_segments, i) <= b <= planned_end(total_size, num_segments, i)
        } by {
        let q = b / seg;
        let i = segment_of_byte(total_size, num_segments, b);
        assert(q * seg <= b && b < (q + 1) * seg) by (nonlinear_arith)
            requires q == b / seg, seg >= 1, b >= 0;
        assert(q >= 0) by (nonlinear_arith) requires q == b / seg, seg >= 1, b >= 0;
        lemma_segment_bounds(total_size, num_segments, i);
        if q < num_segments {
            assert(planned_start(total_size, num_segments, i) == q * seg);
            if i < num_segments - 1 {
                assert((q + 1) * seg == q * seg + seg) by (nonlinear_arith);
            }
        } else {
            assert((num_segments - 1) * seg <= q * seg) by (nonlinear_arith)
                requires num_segments - 1 <= q, seg >= 1;
        }
        assert(planned_start(total_size, num_segments, i) <= b <= planned_end(total_size, num_segments, i));
    }
}

/// The number of segments that `calculate_segments` picks for a non-empty file can always
/// be laid out by `create_segments`, and no segment it plans is smaller than 1 MiB when the
/// file holds a MiB or more.
pub proof fn calculated_segments_fit(total_size: u64, preferred: usize)
    requires
        total_size > 0,
    ensures
        1 <= segment_count(total_size, preferred) <= total_size,
        total_size >= MIN_SEGMENT_SIZE ==> segment_count(total_size, preferred) * MIN_SEGMENT_SIZE <= total_size,
{
    let m = (total_size / MIN_SEGMENT_SIZE) as usize;
    let n = segment_count(total_size, preferred);
    let q = total_size / MIN_SEGMENT_SIZE;
    assert(q * MIN_SEGMENT_SIZE <= total_size) by (nonlinear_arith)
        requires q == total_size / MIN_SEGMENT_SIZE;
    assert(m <= q) by (bit_vector)
        requires m == q as usize;
    if n > 1 {
        assert(n <= m);
        assert(n * MIN_SEGMENT_SIZE <= q * MIN_SEGMENT_SIZE) by (nonlinear_arith)
            requires n <= q;
    }
}

/// Read and stall timeouts, in seconds, of a single-stream download.
pub fn single_stream_timeouts(config: DownloadEngineConfig) -> (t: (u64, u64))
    ensures
        t == (if config.large_file_mode { (120u64, 90u64) } else { (45u64, 60u64) }),
{
    if config.large_file_mode {
        (120, 90)
    } else {
        (45, 60)
    }
}

} // verus!
