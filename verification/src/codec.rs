//! The worker's message codec.
//!
//! Composite values — statistics, errors, job results, requests — are laid
//! out as tag bytes and 8-byte little-endian integer slots over the
//! primitives of [`crate::wire`]. For every type there is a spec encoder, a
//! spec parser, executable twins proved equal to them, and a
//! parse-of-encode lemma, so the format is proved loss-free.
//!
//! Tag values are part of the wire contract: `Ok`/`Some` and `Err`/`None`
//! are 0 and 1 respectively (0 for `None`), and the error kinds are
//! numbered as [`spec_error_tag`] lays down, with `OutOfMemory` at 8 so
//! that the pre-encoded out-of-memory frame is byte-for-byte stable.

use crate::error::ErrorView;
use crate::error::IoFault;
use crate::error::IoFaultView;
use crate::error::JobDeathCause;
use crate::error::JobFault;
use crate::error::JobFaultView;
use crate::error::KernelCall;
use crate::error::KernelFailure;
use crate::error::PrepareError;
use crate::job::job_result_view;
use crate::job::prepare_result_view;
use crate::job::CompiledArtifact;
use crate::job::JobResponse;
use crate::job::JobResult;
use crate::job::JobResultView;
use crate::job::MemoryStats;
use crate::job::MemoryTrackerStats;
use crate::job::PrepJobRequest;
use crate::job::PrepareJobKind;
use crate::job::PrepareResult;
use crate::job::PrepareResultView;
use crate::job::PrepareStats;
use crate::job::RequestView;
use crate::job::ResponseView;
use crate::wire::lemma_sound_bytes;
use crate::wire::lemma_sound_u64;
use crate::wire::lemma_sound_u8;
use crate::wire::lemma_sound_unframe;
use crate::wire::lemma_take_bytes;
use crate::wire::lemma_take_u64;
use crate::wire::lemma_take_u8;
use crate::wire::read_bytes;
use crate::wire::read_u64;
use crate::wire::read_u8;
use crate::wire::spec_encode_bytes;
use crate::wire::spec_frame;
use crate::wire::spec_take_bytes;
use crate::wire::spec_unframe;
use crate::wire::write_len_prefixed;
use crate::wire::spec_i32_as_u32;
use crate::wire::spec_take_u64;
use crate::wire::spec_take_u8;
use crate::wire::spec_u32_as_i32;
use crate::wire::i32_to_u32;
use crate::wire::u32_to_i32;
use crate::wire::write_u64;
use crate::wire::write_u8;
use vstd::bytes::lemma_auto_spec_u64_to_from_le_bytes;
use vstd::bytes::spec_u64_to_le_bytes;
use vstd::prelude::*;

verus! {

// ---------------------------------------------------------------------------
// i32 values in a u64 slot
// ---------------------------------------------------------------------------

/// A signed 32-bit value rides in an 8-byte slot as its two's-complement
/// unsigned image.
pub open spec fn spec_encode_i32_slot(x: i32) -> Seq<u8> {
    spec_u64_to_le_bytes(spec_i32_as_u32(x) as u64)
}

/// Parses an i32 slot; slots above the 32-bit range are malformed.
pub open spec fn spec_take_i32_slot(s: Seq<u8>, i: int) -> Option<(i32, int)> {
    match spec_take_u64(s, i) {
        None => None,
        Some((n, j)) => if n <= u32::MAX as u64 {
            Some((spec_u32_as_i32(n as u32), j))
        } else {
            None
        },
    }
}

pub fn write_i32_slot(out: &mut Vec<u8>, x: i32)
    ensures
        final(out)@ == old(out)@ + spec_encode_i32_slot(x),
{
    let u: u32 = i32_to_u32(x);
    write_u64(out, u as u64);
}

pub fn read_i32_slot(s: &[u8], i: usize) -> (r: Option<(i32, usize)>)
    requires
        i <= s@.len(),
    ensures
        match r {
            Some((x, j)) => spec_take_i32_slot(s@, i as int) == Some((x, j as int)) && j
                <= s@.len(),
            None => spec_take_i32_slot(s@, i as int) is None,
        },
{
    match read_u64(s, i) {
        None => None,
        Some((n, j)) => {
            if n <= u32::MAX as u64 {
                Some((u32_to_i32(n as u32), j))
            } else {
                None
            }
        },
    }
}

pub proof fn lemma_take_i32_slot(s: Seq<u8>, i: int, x: i32)
    requires
        0 <= i,
        i + 8 <= s.len(),
        s.subrange(i, i + 8) == spec_encode_i32_slot(x),
    ensures
        spec_take_i32_slot(s, i) == Some((x, i + 8)),
{
    lemma_take_u64(s, i, spec_i32_as_u32(x) as u64);
}

// ---------------------------------------------------------------------------
// Option<u64>
// ---------------------------------------------------------------------------

pub open spec fn spec_encode_option_u64(o: Option<u64>) -> Seq<u8> {
    match o {
        None => seq![0u8],
        Some(x) => seq![1u8] + spec_u64_to_le_bytes(x),
    }
}

pub open spec fn spec_take_option_u64(s: Seq<u8>, i: int) -> Option<(Option<u64>, int)> {
    match spec_take_u8(s, i) {
        None => None,
        Some((tag, j)) => if tag == 0 {
            Some((None, j))
        } else if tag == 1 {
            match spec_take_u64(s, j) {
                None => None,
                Some((x, k)) => Some((Some(x), k)),
            }
        } else {
            None
        },
    }
}

pub fn write_option_u64(out: &mut Vec<u8>, o: &Option<u64>)
    ensures
        final(out)@ == old(out)@ + spec_encode_option_u64(*o),
{
    match o {
        None => write_u8(out, 0),
        Some(x) => {
            write_u8(out, 1);
            write_u64(out, *x);
            proof {
                assert(old(out)@ + seq![1u8] + spec_u64_to_le_bytes(*x) =~= old(out)@
                    + spec_encode_option_u64(*o));
            }
        },
    }
}

pub fn read_option_u64(s: &[u8], i: usize) -> (r: Option<(Option<u64>, usize)>)
    requires
        i <= s@.len(),
    ensures
        match r {
            Some((o, j)) => spec_take_option_u64(s@, i as int) == Some((o, j as int)) && j
                <= s@.len(),
            None => spec_take_option_u64(s@, i as int) is None,
        },
{
    match read_u8(s, i) {
        None => None,
        Some((tag, j)) => {
            if tag == 0 {
                Some((None, j))
            } else if tag == 1 {
                match read_u64(s, j) {
                    None => None,
                    Some((x, k)) => Some((Some(x), k)),
                }
            } else {
                None
            }
        },
    }
}

pub proof fn lemma_take_option_u64(s: Seq<u8>, i: int, o: Option<u64>)
    requires
        0 <= i,
        i + spec_encode_option_u64(o).len() <= s.len(),
        s.subrange(i, i + spec_encode_option_u64(o).len()) == spec_encode_option_u64(o),
    ensures
        spec_take_option_u64(s, i) == Some((o, i + spec_encode_option_u64(o).len())),
{
    lemma_auto_spec_u64_to_from_le_bytes();
    let enc = spec_encode_option_u64(o);
    match o {
        None => {
            assert(s.subrange(i, i + 1) =~= enc.subrange(0, 1));
            assert(enc.subrange(0, 1) =~= seq![0u8]);
            lemma_take_u8(s, i, 0u8);
        },
        Some(x) => {
            assert(s.subrange(i, i + 1) =~= enc.subrange(0, 1));
            assert(enc.subrange(0, 1) =~= seq![1u8]);
            lemma_take_u8(s, i, 1u8);
            assert(s.subrange(i + 1, i + 9) =~= enc.subrange(1, 9));
            assert(enc.subrange(1, 9) =~= spec_u64_to_le_bytes(x));
            lemma_take_u64(s, i + 1, x);
        },
    }
}

// ---------------------------------------------------------------------------
// MemoryTrackerStats and Option<MemoryTrackerStats>
// ---------------------------------------------------------------------------

pub open spec fn spec_encode_tracker_stats(t: MemoryTrackerStats) -> Seq<u8> {
    spec_u64_to_le_bytes(t.samples) + spec_u64_to_le_bytes(t.min_observed) + spec_u64_to_le_bytes(
        t.max_observed,
    )
}

pub open spec fn spec_take_tracker_stats(s: Seq<u8>, i: int) -> Option<(MemoryTrackerStats, int)> {
    match spec_take_u64(s, i) {
        None => None,
        Some((samples, j)) => match spec_take_u64(s, j) {
            None => None,
            Some((mn, k)) => match spec_take_u64(s, k) {
                None => None,
                Some((mx, l)) => Some(
                    (MemoryTrackerStats { samples, min_observed: mn, max_observed: mx }, l),
                ),
            },
        },
    }
}

pub fn write_tracker_stats(out: &mut Vec<u8>, t: &MemoryTrackerStats)
    ensures
        final(out)@ == old(out)@ + spec_encode_tracker_stats(*t),
{
    write_u64(out, t.samples);
    write_u64(out, t.min_observed);
    write_u64(out, t.max_observed);
    proof {
        assert(old(out)@ + spec_u64_to_le_bytes(t.samples) + spec_u64_to_le_bytes(t.min_observed)
            + spec_u64_to_le_bytes(t.max_observed) =~= old(out)@ + spec_encode_tracker_stats(*t));
    }
}

pub fn read_tracker_stats(s: &[u8], i: usize) -> (r: Option<(MemoryTrackerStats, usize)>)
    requires
        i <= s@.len(),
    ensures
        match r {
            Some((t, j)) => spec_take_tracker_stats(s@, i as int) == Some((t, j as int)) && j
                <= s@.len(),
            None => spec_take_tracker_stats(s@, i as int) is None,
        },
{
    match read_u64(s, i) {
        None => None,
        Some((samples, j)) => match read_u64(s, j) {
            None => None,
            Some((mn, k)) => match read_u64(s, k) {
                None => None,
                Some((mx, l)) => Some(
                    (MemoryTrackerStats { samples, min_observed: mn, max_observed: mx }, l),
                ),
            },
        },
    }
}

pub proof fn lemma_take_tracker_stats(s: Seq<u8>, i: int, t: MemoryTrackerStats)
    requires
        0 <= i,
        i + 24 <= s.len(),
        s.subrange(i, i + 24) == spec_encode_tracker_stats(t),
    ensures
        spec_take_tracker_stats(s, i) == Some((t, i + 24)),
{
    lemma_auto_spec_u64_to_from_le_bytes();
    let enc = spec_encode_tracker_stats(t);
    assert(s.subrange(i, i + 8) =~= enc.subrange(0, 8));
    assert(enc.subrange(0, 8) =~= spec_u64_to_le_bytes(t.samples));
    lemma_take_u64(s, i, t.samples);
    assert(s.subrange(i + 8, i + 16) =~= enc.subrange(8, 16));
    assert(enc.subrange(8, 16) =~= spec_u64_to_le_bytes(t.min_observed));
    lemma_take_u64(s, i + 8, t.min_observed);
    assert(s.subrange(i + 16, i + 24) =~= enc.subrange(16, 24));
    assert(enc.subrange(16, 24) =~= spec_u64_to_le_bytes(t.max_observed));
    lemma_take_u64(s, i + 16, t.max_observed);
}

pub open spec fn spec_encode_option_tracker(o: Option<MemoryTrackerStats>) -> Seq<u8> {
    match o {
        None => seq![0u8],
        Some(t) => seq![1u8] + spec_encode_tracker_stats(t),
    }
}

pub open spec fn spec_take_option_tracker(s: Seq<u8>, i: int) -> Option<
    (Option<MemoryTrackerStats>, int),
> {
    match spec_take_u8(s, i) {
        None => None,
        Some((tag, j)) => if tag == 0 {
            Some((None, j))
        } else if tag == 1 {
            match spec_take_tracker_stats(s, j) {
                None => None,
                Some((t, k)) => Some((Some(t), k)),
            }
        } else {
            None
        },
    }
}

pub fn write_option_tracker(out: &mut Vec<u8>, o: &Option<MemoryTrackerStats>)
    ensures
        final(out)@ == old(out)@ + spec_encode_option_tracker(*o),
{
    match o {
        None => write_u8(out, 0),
        Some(t) => {
            write_u8(out, 1);
            write_tracker_stats(out, t);
            proof {
                assert(old(out)@ + seq![1u8] + spec_encode_tracker_stats(*t) =~= old(out)@
                    + spec_encode_option_tracker(*o));
            }
        },
    }
}

pub fn read_option_tracker(s: &[u8], i: usize) -> (r: Option<
    (Option<MemoryTrackerStats>, usize),
>)
    requires
        i <= s@.len(),
    ensures
        match r {
            Some((o, j)) => spec_take_option_tracker(s@, i as int) == Some((o, j as int)) && j
                <= s@.len(),
            None => spec_take_option_tracker(s@, i as int) is None,
        },
{
    match read_u8(s, i) {
        None => None,
        Some((tag, j)) => {
            if tag == 0 {
                Some((None, j))
            } else if tag == 1 {
                match read_tracker_stats(s, j) {
                    None => None,
                    Some((t, k)) => Some((Some(t), k)),
                }
            } else {
                None
            }
        },
    }
}

pub proof fn lemma_take_option_tracker(s: Seq<u8>, i: int, o: Option<MemoryTrackerStats>)
    requires
        0 <= i,
        i + spec_encode_option_tracker(o).len() <= s.len(),
        s.subrange(i, i + spec_encode_option_tracker(o).len()) == spec_encode_option_tracker(o),
    ensures
        spec_take_option_tracker(s, i) == Some((o, i + spec_encode_option_tracker(o).len())),
{
    lemma_auto_spec_u64_to_from_le_bytes();
    let enc = spec_encode_option_tracker(o);
    match o {
        None => {
            assert(s.subrange(i, i + 1) =~= enc.subrange(0, 1));
            assert(enc.subrange(0, 1) =~= seq![0u8]);
            lemma_take_u8(s, i, 0u8);
        },
        Some(t) => {
            assert(s.subrange(i, i + 1) =~= enc.subrange(0, 1));
            assert(enc.subrange(0, 1) =~= seq![1u8]);
            lemma_take_u8(s, i, 1u8);
            assert(s.subrange(i + 1, i + 25) =~= enc.subrange(1, 25));
            assert(enc.subrange(1, 25) =~= spec_encode_tracker_stats(t));
            lemma_take_tracker_stats(s, i + 1, t);
        },
    }
}

// ---------------------------------------------------------------------------
// MemoryStats and PrepareStats
// ---------------------------------------------------------------------------

pub open spec fn spec_encode_memory_stats(m: MemoryStats) -> Seq<u8> {
    spec_encode_option_tracker(m.memory_tracker_stats) + spec_encode_option_u64(m.max_rss)
        + spec_u64_to_le_bytes(m.peak_tracked_alloc)
}

pub open spec fn spec_take_memory_stats(s: Seq<u8>, i: int) -> Option<(MemoryStats, int)> {
    match spec_take_option_tracker(s, i) {
        None => None,
        Some((tracker, j)) => match spec_take_option_u64(s, j) {
            None => None,
            Some((rss, k)) => match spec_take_u64(s, k) {
                None => None,
                Some((peak, l)) => Some(
                    (
                        MemoryStats {
                            memory_tracker_stats: tracker,
                            max_rss: rss,
                            peak_tracked_alloc: peak,
                        },
                        l,
                    ),
                ),
            },
        },
    }
}

pub fn write_memory_stats(out: &mut Vec<u8>, m: &MemoryStats)
    ensures
        final(out)@ == old(out)@ + spec_encode_memory_stats(*m),
{
    write_option_tracker(out, &m.memory_tracker_stats);
    write_option_u64(out, &m.max_rss);
    write_u64(out, m.peak_tracked_alloc);
    proof {
        assert(old(out)@ + spec_encode_option_tracker(m.memory_tracker_stats)
            + spec_encode_option_u64(m.max_rss) + spec_u64_to_le_bytes(m.peak_tracked_alloc)
            =~= old(out)@ + spec_encode_memory_stats(*m));
    }
}

pub fn read_memory_stats(s: &[u8], i: usize) -> (r: Option<(MemoryStats, usize)>)
    requires
        i <= s@.len(),
    ensures
        match r {
            Some((m, j)) => spec_take_memory_stats(s@, i as int) == Some((m, j as int)) && j
                <= s@.len(),
            None => spec_take_memory_stats(s@, i as int) is None,
        },
{
    match read_option_tracker(s, i) {
        None => None,
        Some((tracker, j)) => match read_option_u64(s, j) {
            None => None,
            Some((rss, k)) => match read_u64(s, k) {
                None => None,
                Some((peak, l)) => Some(
                    (
                        MemoryStats {
                            memory_tracker_stats: tracker,
                            max_rss: rss,
                            peak_tracked_alloc: peak,
                        },
                        l,
                    ),
                ),
            },
        },
    }
}

pub proof fn lemma_take_memory_stats(s: Seq<u8>, i: int, m: MemoryStats)
    requires
        0 <= i,
        i + spec_encode_memory_stats(m).len() <= s.len(),
        s.subrange(i, i + spec_encode_memory_stats(m).len()) == spec_encode_memory_stats(m),
    ensures
        spec_take_memory_stats(s, i) == Some((m, i + spec_encode_memory_stats(m).len())),
{
    lemma_auto_spec_u64_to_from_le_bytes();
    let a = spec_encode_option_tracker(m.memory_tracker_stats);
    let b = spec_encode_option_u64(m.max_rss);
    let c = spec_u64_to_le_bytes(m.peak_tracked_alloc);
    let enc = spec_encode_memory_stats(m);
    let la = a.len() as int;
    let lb = b.len() as int;
    assert(s.subrange(i, i + la) =~= enc.subrange(0, la));
    assert(enc.subrange(0, la) =~= a);
    lemma_take_option_tracker(s, i, m.memory_tracker_stats);
    assert(s.subrange(i + la, i + la + lb) =~= enc.subrange(la, la + lb));
    assert(enc.subrange(la, la + lb) =~= b);
    lemma_take_option_u64(s, i + la, m.max_rss);
    assert(s.subrange(i + la + lb, i + la + lb + 8) =~= enc.subrange(la + lb, la + lb + 8));
    assert(enc.subrange(la + lb, la + lb + 8) =~= c);
    lemma_take_u64(s, i + la + lb, m.peak_tracked_alloc);
}

pub open spec fn spec_encode_prepare_stats(p: PrepareStats) -> Seq<u8> {
    spec_u64_to_le_bytes(p.cpu_time_micros) + spec_encode_memory_stats(p.memory_stats)
}

pub open spec fn spec_take_prepare_stats(s: Seq<u8>, i: int) -> Option<(PrepareStats, int)> {
    match spec_take_u64(s, i) {
        None => None,
        Some((cpu, j)) => match spec_take_memory_stats(s, j) {
            None => None,
            Some((m, k)) => Some((PrepareStats { cpu_time_micros: cpu, memory_stats: m }, k)),
        },
    }
}

pub fn write_prepare_stats(out: &mut Vec<u8>, p: &PrepareStats)
    ensures
        final(out)@ == old(out)@ + spec_encode_prepare_stats(*p),
{
    write_u64(out, p.cpu_time_micros);
    write_memory_stats(out, &p.memory_stats);
    proof {
        assert(old(out)@ + spec_u64_to_le_bytes(p.cpu_time_micros) + spec_encode_memory_stats(
            p.memory_stats,
        ) =~= old(out)@ + spec_encode_prepare_stats(*p));
    }
}

pub fn read_prepare_stats(s: &[u8], i: usize) -> (r: Option<(PrepareStats, usize)>)
    requires
        i <= s@.len(),
    ensures
        match r {
            Some((p, j)) => spec_take_prepare_stats(s@, i as int) == Some((p, j as int)) && j
                <= s@.len(),
            None => spec_take_prepare_stats(s@, i as int) is None,
        },
{
    match read_u64(s, i) {
        None => None,
        Some((cpu, j)) => match read_memory_stats(s, j) {
            None => None,
            Some((m, k)) => Some((PrepareStats { cpu_time_micros: cpu, memory_stats: m }, k)),
        },
    }
}

pub proof fn lemma_take_prepare_stats(s: Seq<u8>, i: int, p: PrepareStats)
    requires
        0 <= i,
        i + spec_encode_prepare_stats(p).len() <= s.len(),
        s.subrange(i, i + spec_encode_prepare_stats(p).len()) == spec_encode_prepare_stats(p),
    ensures
        spec_take_prepare_stats(s, i) == Some((p, i + spec_encode_prepare_stats(p).len())),
{
    lemma_auto_spec_u64_to_from_le_bytes();
    let b = spec_encode_memory_stats(p.memory_stats);
    let enc = spec_encode_prepare_stats(p);
    let lb = b.len() as int;
    assert(s.subrange(i, i + 8) =~= enc.subrange(0, 8));
    assert(enc.subrange(0, 8) =~= spec_u64_to_le_bytes(p.cpu_time_micros));
    lemma_take_u64(s, i, p.cpu_time_micros);
    assert(s.subrange(i + 8, i + 8 + lb) =~= enc.subrange(8, 8 + lb));
    assert(enc.subrange(8, 8 + lb) =~= b);
    lemma_take_memory_stats(s, i + 8, p.memory_stats);
}

// ---------------------------------------------------------------------------
// Soundness of the statistics parsers
// ---------------------------------------------------------------------------

pub proof fn lemma_sound_i32_slot(s: Seq<u8>, i: int, x: i32, j: int)
    requires
        spec_take_i32_slot(s, i) == Some((x, j)),
    ensures
        0 <= i,
        j == i + 8,
        j <= s.len(),
        s.subrange(i, j) == spec_encode_i32_slot(x),
{
    let (n, _) = spec_take_u64(s, i)->Some_0;
    lemma_sound_u64(s, i, n, j);
    assert(spec_i32_as_u32(x) as u64 == n);
}

pub proof fn lemma_sound_option_u64(s: Seq<u8>, i: int, o: Option<u64>, j: int)
    requires
        spec_take_option_u64(s, i) == Some((o, j)),
    ensures
        0 <= i,
        i < j <= s.len(),
        s.subrange(i, j) == spec_encode_option_u64(o),
{
    let (tag, t1) = spec_take_u8(s, i)->Some_0;
    lemma_sound_u8(s, i, tag, t1);
    if tag == 1 {
        let (x, k) = spec_take_u64(s, t1)->Some_0;
        lemma_sound_u64(s, t1, x, k);
        assert(s.subrange(i, j) =~= s.subrange(i, i + 1) + s.subrange(i + 1, j));
    }
}

pub proof fn lemma_sound_tracker_stats(s: Seq<u8>, i: int, t: MemoryTrackerStats, j: int)
    requires
        spec_take_tracker_stats(s, i) == Some((t, j)),
    ensures
        0 <= i,
        j == i + 24,
        j <= s.len(),
        s.subrange(i, j) == spec_encode_tracker_stats(t),
{
    let (samples, k1) = spec_take_u64(s, i)->Some_0;
    lemma_sound_u64(s, i, samples, k1);
    let (mn, k2) = spec_take_u64(s, k1)->Some_0;
    lemma_sound_u64(s, k1, mn, k2);
    let (mx, k3) = spec_take_u64(s, k2)->Some_0;
    lemma_sound_u64(s, k2, mx, k3);
    assert(s.subrange(i, j) =~= s.subrange(i, i + 8) + s.subrange(i + 8, i + 16) + s.subrange(
        i + 16,
        i + 24,
    ));
}

pub proof fn lemma_sound_option_tracker(
    s: Seq<u8>,
    i: int,
    o: Option<MemoryTrackerStats>,
    j: int,
)
    requires
        spec_take_option_tracker(s, i) == Some((o, j)),
    ensures
        0 <= i,
        i < j <= s.len(),
        s.subrange(i, j) == spec_encode_option_tracker(o),
{
    let (tag, t1) = spec_take_u8(s, i)->Some_0;
    lemma_sound_u8(s, i, tag, t1);
    if tag == 1 {
        let (t, k) = spec_take_tracker_stats(s, t1)->Some_0;
        lemma_sound_tracker_stats(s, t1, t, k);
        assert(s.subrange(i, j) =~= s.subrange(i, i + 1) + s.subrange(i + 1, j));
    }
}

pub proof fn lemma_sound_memory_stats(s: Seq<u8>, i: int, m: MemoryStats, j: int)
    requires
        spec_take_memory_stats(s, i) == Some((m, j)),
    ensures
        0 <= i,
        i < j <= s.len(),
        s.subrange(i, j) == spec_encode_memory_stats(m),
{
    let (tracker, k1) = spec_take_option_tracker(s, i)->Some_0;
    lemma_sound_option_tracker(s, i, tracker, k1);
    let (rss, k2) = spec_take_option_u64(s, k1)->Some_0;
    lemma_sound_option_u64(s, k1, rss, k2);
    let (peak, k3) = spec_take_u64(s, k2)->Some_0;
    lemma_sound_u64(s, k2, peak, k3);
    assert(s.subrange(i, j) =~= s.subrange(i, k1) + s.subrange(k1, k2) + s.subrange(k2, j));
}

pub proof fn lemma_sound_prepare_stats(s: Seq<u8>, i: int, p: PrepareStats, j: int)
    requires
        spec_take_prepare_stats(s, i) == Some((p, j)),
    ensures
        0 <= i,
        i < j <= s.len(),
        s.subrange(i, j) == spec_encode_prepare_stats(p),
{
    let (cpu, k1) = spec_take_u64(s, i)->Some_0;
    lemma_sound_u64(s, i, cpu, k1);
    let (m, k2) = spec_take_memory_stats(s, k1)->Some_0;
    lemma_sound_memory_stats(s, k1, m, k2);
    assert(s.subrange(i, j) =~= s.subrange(i, k1) + s.subrange(k1, j));
}

// ---------------------------------------------------------------------------
// JobDeathCause
// ---------------------------------------------------------------------------

pub open spec fn spec_encode_death(c: JobDeathCause) -> Seq<u8> {
    match c {
        JobDeathCause::Signal(sig) => seq![0u8] + spec_encode_i32_slot(sig),
        JobDeathCause::UnexpectedWaitStatus => seq![1u8],
    }
}

pub open spec fn spec_take_death(s: Seq<u8>, i: int) -> Option<(JobDeathCause, int)> {
    match spec_take_u8(s, i) {
        None => None,
        Some((tag, j)) => if tag == 0 {
            match spec_take_i32_slot(s, j) {
                None => None,
                Some((sig, k)) => Some((JobDeathCause::Signal(sig), k)),
            }
        } else if tag == 1 {
            Some((JobDeathCause::UnexpectedWaitStatus, j))
        } else {
            None
        },
    }
}

pub fn write_death(out: &mut Vec<u8>, c: &JobDeathCause)
    ensures
        final(out)@ == old(out)@ + spec_encode_death(*c),
{
    match c {
        JobDeathCause::Signal(sig) => {
            write_u8(out, 0);
            write_i32_slot(out, *sig);
            proof {
                assert(old(out)@ + seq![0u8] + spec_encode_i32_slot(*sig) =~= old(out)@
                    + spec_encode_death(*c));
            }
        },
        JobDeathCause::UnexpectedWaitStatus => write_u8(out, 1),
    }
}

pub fn read_death(s: &[u8], i: usize) -> (r: Option<(JobDeathCause, usize)>)
    requires
        i <= s@.len(),
    ensures
        match r {
            Some((c, j)) => spec_take_death(s@, i as int) == Some((c, j as int)) && j <= s@.len(),
            None => spec_take_death(s@, i as int) is None,
        },
{
    match read_u8(s, i) {
        None => None,
        Some((tag, j)) => {
            if tag == 0 {
                match read_i32_slot(s, j) {
                    None => None,
                    Some((sig, k)) => Some((JobDeathCause::Signal(sig), k)),
                }
            } else if tag == 1 {
                Some((JobDeathCause::UnexpectedWaitStatus, j))
            } else {
                None
            }
        },
    }
}

pub proof fn lemma_take_death(s: Seq<u8>, i: int, c: JobDeathCause)
    requires
        0 <= i,
        i + spec_encode_death(c).len() <= s.len(),
        s.subrange(i, i + spec_encode_death(c).len()) == spec_encode_death(c),
    ensures
        spec_take_death(s, i) == Some((c, i + spec_encode_death(c).len())),
{
    lemma_auto_spec_u64_to_from_le_bytes();
    let enc = spec_encode_death(c);
    match c {
        JobDeathCause::Signal(sig) => {
            assert(s.subrange(i, i + 1) =~= enc.subrange(0, 1));
            assert(enc.subrange(0, 1) =~= seq![0u8]);
            lemma_take_u8(s, i, 0u8);
            assert(s.subrange(i + 1, i + 9) =~= enc.subrange(1, 9));
            assert(enc.subrange(1, 9) =~= spec_encode_i32_slot(sig));
            lemma_take_i32_slot(s, i + 1, sig);
        },
        JobDeathCause::UnexpectedWaitStatus => {
            assert(s.subrange(i, i + 1) =~= enc.subrange(0, 1));
            assert(enc.subrange(0, 1) =~= seq![1u8]);
            lemma_take_u8(s, i, 1u8);
        },
    }
}

// ---------------------------------------------------------------------------
// JobFault
// ---------------------------------------------------------------------------

/// Whether the message payloads of a fault fit their length prefix.
pub open spec fn wf_job_fault(f: JobFaultView) -> bool {
    match f {
        JobFaultView::Panic(m) => m.len() <= u64::MAX,
        JobFaultView::UnexpectedExitStatus(_) => true,
        JobFaultView::MalformedResponse => true,
    }
}

pub open spec fn spec_encode_job_fault(f: JobFaultView) -> Seq<u8> {
    match f {
        JobFaultView::Panic(m) => seq![0u8] + spec_encode_bytes(m),
        JobFaultView::UnexpectedExitStatus(st) => seq![1u8] + spec_encode_i32_slot(st),
        JobFaultView::MalformedResponse => seq![2u8],
    }
}

pub open spec fn spec_take_job_fault(s: Seq<u8>, i: int) -> Option<(JobFaultView, int)> {
    match spec_take_u8(s, i) {
        None => None,
        Some((tag, j)) => if tag == 0 {
            match spec_take_bytes(s, j) {
                None => None,
                Some((m, k)) => Some((JobFaultView::Panic(m), k)),
            }
        } else if tag == 1 {
            match spec_take_i32_slot(s, j) {
                None => None,
                Some((st, k)) => Some((JobFaultView::UnexpectedExitStatus(st), k)),
            }
        } else if tag == 2 {
            Some((JobFaultView::MalformedResponse, j))
        } else {
            None
        },
    }
}

pub fn write_job_fault(out: &mut Vec<u8>, f: &JobFault)
    ensures
        final(out)@ == old(out)@ + spec_encode_job_fault(f@),
{
    match f {
        JobFault::Panic(m) => {
            write_u8(out, 0);
            write_len_prefixed(out, m.as_slice());
            proof {
                assert(old(out)@ + seq![0u8] + spec_encode_bytes(m@) =~= old(out)@
                    + spec_encode_job_fault(f@));
            }
        },
        JobFault::UnexpectedExitStatus(st) => {
            write_u8(out, 1);
            write_i32_slot(out, *st);
            proof {
                assert(old(out)@ + seq![1u8] + spec_encode_i32_slot(*st) =~= old(out)@
                    + spec_encode_job_fault(f@));
            }
        },
        JobFault::MalformedResponse => write_u8(out, 2),
    }
}

pub fn read_job_fault(s: &[u8], i: usize) -> (r: Option<(JobFault, usize)>)
    requires
        i <= s@.len(),
    ensures
        match r {
            Some((f, j)) => spec_take_job_fault(s@, i as int) == Some((f@, j as int)) && j
                <= s@.len(),
            None => spec_take_job_fault(s@, i as int) is None,
        },
{
    match read_u8(s, i) {
        None => None,
        Some((tag, j)) => {
            if tag == 0 {
                match read_bytes(s, j) {
                    None => None,
                    Some((m, k)) => Some((JobFault::Panic(m), k)),
                }
            } else if tag == 1 {
                match read_i32_slot(s, j) {
                    None => None,
                    Some((st, k)) => Some((JobFault::UnexpectedExitStatus(st), k)),
                }
            } else if tag == 2 {
                Some((JobFault::MalformedResponse, j))
            } else {
                None
            }
        },
    }
}

pub proof fn lemma_take_job_fault(s: Seq<u8>, i: int, f: JobFaultView)
    requires
        0 <= i,
        wf_job_fault(f),
        i + spec_encode_job_fault(f).len() <= s.len(),
        s.subrange(i, i + spec_encode_job_fault(f).len()) == spec_encode_job_fault(f),
    ensures
        spec_take_job_fault(s, i) == Some((f, i + spec_encode_job_fault(f).len())),
{
    lemma_auto_spec_u64_to_from_le_bytes();
    let enc = spec_encode_job_fault(f);
    match f {
        JobFaultView::Panic(m) => {
            assert(s.subrange(i, i + 1) =~= enc.subrange(0, 1));
            assert(enc.subrange(0, 1) =~= seq![0u8]);
            lemma_take_u8(s, i, 0u8);
            assert(s.subrange(i + 1, i + 1 + 8 + m.len() as int) =~= enc.subrange(
                1,
                1 + 8 + m.len() as int,
            ));
            assert(enc.subrange(1, 1 + 8 + m.len() as int) =~= spec_encode_bytes(m));
            lemma_take_bytes(s, i + 1, m);
        },
        JobFaultView::UnexpectedExitStatus(st) => {
            assert(s.subrange(i, i + 1) =~= enc.subrange(0, 1));
            assert(enc.subrange(0, 1) =~= seq![1u8]);
            lemma_take_u8(s, i, 1u8);
            assert(s.subrange(i + 1, i + 9) =~= enc.subrange(1, 9));
            assert(enc.subrange(1, 9) =~= spec_encode_i32_slot(st));
            lemma_take_i32_slot(s, i + 1, st);
        },
        JobFaultView::MalformedResponse => {
            assert(s.subrange(i, i + 1) =~= enc.subrange(0, 1));
            assert(enc.subrange(0, 1) =~= seq![2u8]);
            lemma_take_u8(s, i, 2u8);
        },
    }
}

// ---------------------------------------------------------------------------
// IoFault
// ---------------------------------------------------------------------------

/// Whether the message payloads of an I/O fault fit their length prefix.
pub open spec fn wf_io_fault(f: IoFaultView) -> bool {
    match f {
        IoFaultView::Transport(m) => m.len() <= u64::MAX,
        IoFaultView::MonitorChannelClosed => true,
        IoFaultView::MonitorPanicked(m) => m.len() <= u64::MAX,
    }
}

pub open spec fn spec_encode_io_fault(f: IoFaultView) -> Seq<u8> {
    match f {
        IoFaultView::Transport(m) => seq![0u8] + spec_encode_bytes(m),
        IoFaultView::MonitorChannelClosed => seq![1u8],
        IoFaultView::MonitorPanicked(m) => seq![2u8] + spec_encode_bytes(m),
    }
}

pub open spec fn spec_take_io_fault(s: Seq<u8>, i: int) -> Option<(IoFaultView, int)> {
    match spec_take_u8(s, i) {
        None => None,
        Some((tag, j)) => if tag == 0 {
            match spec_take_bytes(s, j) {
                None => None,
                Some((m, k)) => Some((IoFaultView::Transport(m), k)),
            }
        } else if tag == 1 {
            Some((IoFaultView::MonitorChannelClosed, j))
        } else if tag == 2 {
            match spec_take_bytes(s, j) {
                None => None,
                Some((m, k)) => Some((IoFaultView::MonitorPanicked(m), k)),
            }
        } else {
            None
        },
    }
}

pub fn write_io_fault(out: &mut Vec<u8>, f: &IoFault)
    ensures
        final(out)@ == old(out)@ + spec_encode_io_fault(f@),
{
    match f {
        IoFault::Transport(m) => {
            write_u8(out, 0);
            write_len_prefixed(out, m.as_slice());
            proof {
                assert(old(out)@ + seq![0u8] + spec_encode_bytes(m@) =~= old(out)@
                    + spec_encode_io_fault(f@));
            }
        },
        IoFault::MonitorChannelClosed => write_u8(out, 1),
        IoFault::MonitorPanicked(m) => {
            write_u8(out, 2);
            write_len_prefixed(out, m.as_slice());
            proof {
                assert(old(out)@ + seq![2u8] + spec_encode_bytes(m@) =~= old(out)@
                    + spec_encode_io_fault(f@));
            }
        },
    }
}

pub fn read_io_fault(s: &[u8], i: usize) -> (r: Option<(IoFault, usize)>)
    requires
        i <= s@.len(),
    ensures
        match r {
            Some((f, j)) => spec_take_io_fault(s@, i as int) == Some((f@, j as int)) && j
                <= s@.len(),
            None => spec_take_io_fault(s@, i as int) is None,
        },
{
    match read_u8(s, i) {
        None => None,
        Some((tag, j)) => {
            if tag == 0 {
                match read_bytes(s, j) {
                    None => None,
                    Some((m, k)) => Some((IoFault::Transport(m), k)),
                }
            } else if tag == 1 {
                Some((IoFault::MonitorChannelClosed, j))
            } else if tag == 2 {
                match read_bytes(s, j) {
                    None => None,
                    Some((m, k)) => Some((IoFault::MonitorPanicked(m), k)),
                }
            } else {
                None
            }
        },
    }
}

pub proof fn lemma_take_io_fault(s: Seq<u8>, i: int, f: IoFaultView)
    requires
        0 <= i,
        wf_io_fault(f),
        i + spec_encode_io_fault(f).len() <= s.len(),
        s.subrange(i, i + spec_encode_io_fault(f).len()) == spec_encode_io_fault(f),
    ensures
        spec_take_io_fault(s, i) == Some((f, i + spec_encode_io_fault(f).len())),
{
    lemma_auto_spec_u64_to_from_le_bytes();
    let enc = spec_encode_io_fault(f);
    match f {
        IoFaultView::Transport(m) => {
            assert(s.subrange(i, i + 1) =~= enc.subrange(0, 1));
            assert(enc.subrange(0, 1) =~= seq![0u8]);
            lemma_take_u8(s, i, 0u8);
            assert(s.subrange(i + 1, i + 1 + 8 + m.len() as int) =~= enc.subrange(
                1,
                1 + 8 + m.len() as int,
            ));
            assert(enc.subrange(1, 1 + 8 + m.len() as int) =~= spec_encode_bytes(m));
            lemma_take_bytes(s, i + 1, m);
        },
        IoFaultView::MonitorChannelClosed => {
            assert(s.subrange(i, i + 1) =~= enc.subrange(0, 1));
            assert(enc.subrange(0, 1) =~= seq![1u8]);
            lemma_take_u8(s, i, 1u8);
        },
        IoFaultView::MonitorPanicked(m) => {
            assert(s.subrange(i, i + 1) =~= enc.subrange(0, 1));
            assert(enc.subrange(0, 1) =~= seq![2u8]);
            lemma_take_u8(s, i, 2u8);
            assert(s.subrange(i + 1, i + 1 + 8 + m.len() as int) =~= enc.subrange(
                1,
                1 + 8 + m.len() as int,
            ));
            assert(enc.subrange(1, 1 + 8 + m.len() as int) =~= spec_encode_bytes(m));
            lemma_take_bytes(s, i + 1, m);
        },
    }
}

// ---------------------------------------------------------------------------
// KernelFailure
// ---------------------------------------------------------------------------

pub open spec fn spec_kernel_call_tag(c: KernelCall) -> u8 {
    match c {
        KernelCall::GetRusageBefore => 0,
        KernelCall::Fork => 1,
        KernelCall::Waitpid => 2,
        KernelCall::GetRusageAfter => 3,
    }
}

pub open spec fn spec_encode_kernel(k: KernelFailure) -> Seq<u8> {
    seq![spec_kernel_call_tag(k.call)] + spec_encode_i32_slot(k.errno)
}

pub open spec fn spec_take_kernel(s: Seq<u8>, i: int) -> Option<(KernelFailure, int)> {
    match spec_take_u8(s, i) {
        None => None,
        Some((tag, j)) => {
            let call = if tag == 0 {
                Some(KernelCall::GetRusageBefore)
            } else if tag == 1 {
                Some(KernelCall::Fork)
            } else if tag == 2 {
                Some(KernelCall::Waitpid)
            } else if tag == 3 {
                Some(KernelCall::GetRusageAfter)
            } else {
                None
            };
            match call {
                None => None,
                Some(c) => match spec_take_i32_slot(s, j) {
                    None => None,
                    Some((errno, k)) => Some((KernelFailure { call: c, errno }, k)),
                },
            }
        },
    }
}

pub fn write_kernel(out: &mut Vec<u8>, k: &KernelFailure)
    ensures
        final(out)@ == old(out)@ + spec_encode_kernel(*k),
{
    let tag: u8 = match k.call {
        KernelCall::GetRusageBefore => 0,
        KernelCall::Fork => 1,
        KernelCall::Waitpid => 2,
        KernelCall::GetRusageAfter => 3,
    };
    write_u8(out, tag);
    write_i32_slot(out, k.errno);
    proof {
        assert(old(out)@ + seq![spec_kernel_call_tag(k.call)] + spec_encode_i32_slot(k.errno)
            =~= old(out)@ + spec_encode_kernel(*k));
    }
}

pub fn read_kernel(s: &[u8], i: usize) -> (r: Option<(KernelFailure, usize)>)
    requires
        i <= s@.len(),
    ensures
        match r {
            Some((k, j)) => spec_take_kernel(s@, i as int) == Some((k, j as int)) && j <= s@.len(),
            None => spec_take_kernel(s@, i as int) is None,
        },
{
    match read_u8(s, i) {
        None => None,
        Some((tag, j)) => {
            let call = if tag == 0 {
                Some(KernelCall::GetRusageBefore)
            } else if tag == 1 {
                Some(KernelCall::Fork)
            } else if tag == 2 {
                Some(KernelCall::Waitpid)
            } else if tag == 3 {
                Some(KernelCall::GetRusageAfter)
            } else {
                None
            };
            match call {
                None => None,
                Some(c) => match read_i32_slot(s, j) {
                    None => None,
                    Some((errno, k)) => Some((KernelFailure { call: c, errno }, k)),
                },
            }
        },
    }
}

pub proof fn lemma_take_kernel(s: Seq<u8>, i: int, k: KernelFailure)
    requires
        0 <= i,
        i + 9 <= s.len(),
        s.subrange(i, i + 9) == spec_encode_kernel(k),
    ensures
        spec_take_kernel(s, i) == Some((k, i + 9)),
{
    lemma_auto_spec_u64_to_from_le_bytes();
    let enc = spec_encode_kernel(k);
    assert(s.subrange(i, i + 1) =~= enc.subrange(0, 1));
    assert(enc.subrange(0, 1) =~= seq![spec_kernel_call_tag(k.call)]);
    lemma_take_u8(s, i, spec_kernel_call_tag(k.call));
    assert(s.subrange(i + 1, i + 9) =~= enc.subrange(1, 9));
    assert(enc.subrange(1, 9) =~= spec_encode_i32_slot(k.errno));
    lemma_take_i32_slot(s, i + 1, k.errno);
}

// ---------------------------------------------------------------------------
// PrepareError
// ---------------------------------------------------------------------------

/// The wire tag of each error kind. `OutOfMemory` sits at 8: the value the
/// pre-encoded out-of-memory frame carries.
pub open spec fn spec_error_tag(e: ErrorView) -> u8 {
    match e {
        ErrorView::Prevalidation(_) => 0,
        ErrorView::Preparation(_) => 1,
        ErrorView::RuntimeConstruction(_) => 2,
        ErrorView::TimedOut => 3,
        ErrorView::IoErr(_) => 4,
        ErrorView::JobDied(_) => 5,
        ErrorView::JobError(_) => 6,
        ErrorView::Kernel(_) => 7,
        ErrorView::OutOfMemory => 8,
    }
}

/// Whether the message payloads of an error fit their length prefixes.
pub open spec fn wf_error(e: ErrorView) -> bool {
    match e {
        ErrorView::Prevalidation(m) => m.len() <= u64::MAX,
        ErrorView::Preparation(m) => m.len() <= u64::MAX,
        ErrorView::RuntimeConstruction(m) => m.len() <= u64::MAX,
        ErrorView::TimedOut => true,
        ErrorView::OutOfMemory => true,
        ErrorView::JobDied(_) => true,
        ErrorView::JobError(f) => wf_job_fault(f),
        ErrorView::IoErr(f) => wf_io_fault(f),
        ErrorView::Kernel(_) => true,
    }
}

pub open spec fn spec_encode_error(e: ErrorView) -> Seq<u8> {
    seq![spec_error_tag(e)] + match e {
        ErrorView::Prevalidation(m) => spec_encode_bytes(m),
        ErrorView::Preparation(m) => spec_encode_bytes(m),
        ErrorView::RuntimeConstruction(m) => spec_encode_bytes(m),
        ErrorView::TimedOut => Seq::<u8>::empty(),
        ErrorView::OutOfMemory => Seq::<u8>::empty(),
        ErrorView::JobDied(c) => spec_encode_death(c),
        ErrorView::JobError(f) => spec_encode_job_fault(f),
        ErrorView::IoErr(f) => spec_encode_io_fault(f),
        ErrorView::Kernel(k) => spec_encode_kernel(k),
    }
}

pub open spec fn spec_take_error(s: Seq<u8>, i: int) -> Option<(ErrorView, int)> {
    match spec_take_u8(s, i) {
        None => None,
        Some((tag, j)) => if tag == 0 {
            match spec_take_bytes(s, j) {
                None => None,
                Some((m, k)) => Some((ErrorView::Prevalidation(m), k)),
            }
        } else if tag == 1 {
            match spec_take_bytes(s, j) {
                None => None,
                Some((m, k)) => Some((ErrorView::Preparation(m), k)),
            }
        } else if tag == 2 {
            match spec_take_bytes(s, j) {
                None => None,
                Some((m, k)) => Some((ErrorView::RuntimeConstruction(m), k)),
            }
        } else if tag == 3 {
            Some((ErrorView::TimedOut, j))
        } else if tag == 4 {
            match spec_take_io_fault(s, j) {
                None => None,
                Some((f, k)) => Some((ErrorView::IoErr(f), k)),
            }
        } else if tag == 5 {
            match spec_take_death(s, j) {
                None => None,
                Some((c, k)) => Some((ErrorView::JobDied(c), k)),
            }
        } else if tag == 6 {
            match spec_take_job_fault(s, j) {
                None => None,
                Some((f, k)) => Some((ErrorView::JobError(f), k)),
            }
        } else if tag == 7 {
            match spec_take_kernel(s, j) {
                None => None,
                Some((k2, k)) => Some((ErrorView::Kernel(k2), k)),
            }
        } else if tag == 8 {
            Some((ErrorView::OutOfMemory, j))
        } else {
            None
        },
    }
}

pub fn write_error(out: &mut Vec<u8>, e: &PrepareError)
    ensures
        final(out)@ == old(out)@ + spec_encode_error(e@),
{
    match e {
        PrepareError::Prevalidation(m) => {
            write_u8(out, 0);
            write_len_prefixed(out, m.as_slice());
            proof {
                assert(old(out)@ + seq![0u8] + spec_encode_bytes(m@) =~= old(out)@
                    + spec_encode_error(e@));
            }
        },
        PrepareError::Preparation(m) => {
            write_u8(out, 1);
            write_len_prefixed(out, m.as_slice());
            proof {
                assert(old(out)@ + seq![1u8] + spec_encode_bytes(m@) =~= old(out)@
                    + spec_encode_error(e@));
            }
        },
        PrepareError::RuntimeConstruction(m) => {
            write_u8(out, 2);
            write_len_prefixed(out, m.as_slice());
            proof {
                assert(old(out)@ + seq![2u8] + spec_encode_bytes(m@) =~= old(out)@
                    + spec_encode_error(e@));
            }
        },
        PrepareError::TimedOut => {
            write_u8(out, 3);
            proof {
                assert(old(out)@ + seq![3u8] =~= old(out)@ + spec_encode_error(e@));
            }
        },
        PrepareError::IoErr(f) => {
            write_u8(out, 4);
            write_io_fault(out, f);
            proof {
                assert(old(out)@ + seq![4u8] + spec_encode_io_fault(f@) =~= old(out)@
                    + spec_encode_error(e@));
            }
        },
        PrepareError::JobDied(c) => {
            write_u8(out, 5);
            write_death(out, c);
            proof {
                assert(old(out)@ + seq![5u8] + spec_encode_death(*c) =~= old(out)@
                    + spec_encode_error(e@));
            }
        },
        PrepareError::JobError(f) => {
            write_u8(out, 6);
            write_job_fault(out, f);
            proof {
                assert(old(out)@ + seq![6u8] + spec_encode_job_fault(f@) =~= old(out)@
                    + spec_encode_error(e@));
            }
        },
        PrepareError::Kernel(k) => {
            write_u8(out, 7);
            write_kernel(out, k);
            proof {
                assert(old(out)@ + seq![7u8] + spec_encode_kernel(*k) =~= old(out)@
                    + spec_encode_error(e@));
            }
        },
        PrepareError::OutOfMemory => {
            write_u8(out, 8);
            proof {
                assert(old(out)@ + seq![8u8] =~= old(out)@ + spec_encode_error(e@));
            }
        },
    }
}

pub fn read_error(s: &[u8], i: usize) -> (r: Option<(PrepareError, usize)>)
    requires
        i <= s@.len(),
    ensures
        match r {
            Some((e, j)) => spec_take_error(s@, i as int) == Some((e@, j as int)) && j <= s@.len(),
            None => spec_take_error(s@, i as int) is None,
        },
{
    match read_u8(s, i) {
        None => None,
        Some((tag, j)) => {
            if tag == 0 {
                match read_bytes(s, j) {
                    None => None,
                    Some((m, k)) => Some((PrepareError::Prevalidation(m), k)),
                }
            } else if tag == 1 {
                match read_bytes(s, j) {
                    None => None,
                    Some((m, k)) => Some((PrepareError::Preparation(m), k)),
                }
            } else if tag == 2 {
                match read_bytes(s, j) {
                    None => None,
                    Some((m, k)) => Some((PrepareError::RuntimeConstruction(m), k)),
                }
            } else if tag == 3 {
                Some((PrepareError::TimedOut, j))
            } else if tag == 4 {
                match read_io_fault(s, j) {
                    None => None,
                    Some((f, k)) => Some((PrepareError::IoErr(f), k)),
                }
            } else if tag == 5 {
                match read_death(s, j) {
                    None => None,
                    Some((c, k)) => Some((PrepareError::JobDied(c), k)),
                }
            } else if tag == 6 {
                match read_job_fault(s, j) {
                    None => None,
                    Some((f, k)) => Some((PrepareError::JobError(f), k)),
                }
            } else if tag == 7 {
                match read_kernel(s, j) {
                    None => None,
                    Some((k2, k)) => Some((PrepareError::Kernel(k2), k)),
                }
            } else if tag == 8 {
                Some((PrepareError::OutOfMemory, j))
            } else {
                None
            }
        },
    }
}

pub proof fn lemma_take_error(s: Seq<u8>, i: int, e: ErrorView)
    requires
        0 <= i,
        wf_error(e),
        i + spec_encode_error(e).len() <= s.len(),
        s.subrange(i, i + spec_encode_error(e).len()) == spec_encode_error(e),
    ensures
        spec_take_error(s, i) == Some((e, i + spec_encode_error(e).len())),
{
    lemma_auto_spec_u64_to_from_le_bytes();
    let enc = spec_encode_error(e);
    let le = enc.len() as int;
    assert(s.subrange(i, i + 1) =~= enc.subrange(0, 1));
    assert(enc.subrange(0, 1) =~= seq![spec_error_tag(e)]);
    lemma_take_u8(s, i, spec_error_tag(e));
    assert(s.subrange(i + 1, i + le) =~= enc.subrange(1, le));
    match e {
        ErrorView::Prevalidation(m) => {
            assert(enc.subrange(1, le) =~= spec_encode_bytes(m));
            lemma_take_bytes(s, i + 1, m);
        },
        ErrorView::Preparation(m) => {
            assert(enc.subrange(1, le) =~= spec_encode_bytes(m));
            lemma_take_bytes(s, i + 1, m);
        },
        ErrorView::RuntimeConstruction(m) => {
            assert(enc.subrange(1, le) =~= spec_encode_bytes(m));
            lemma_take_bytes(s, i + 1, m);
        },
        ErrorView::TimedOut => {},
        ErrorView::OutOfMemory => {},
        ErrorView::JobDied(c) => {
            assert(enc.subrange(1, le) =~= spec_encode_death(c));
            lemma_take_death(s, i + 1, c);
        },
        ErrorView::JobError(f) => {
            assert(enc.subrange(1, le) =~= spec_encode_job_fault(f));
            lemma_take_job_fault(s, i + 1, f);
        },
        ErrorView::IoErr(f) => {
            assert(enc.subrange(1, le) =~= spec_encode_io_fault(f));
            lemma_take_io_fault(s, i + 1, f);
        },
        ErrorView::Kernel(k) => {
            assert(enc.subrange(1, le) =~= spec_encode_kernel(k));
            lemma_take_kernel(s, i + 1, k);
        },
    }
}

// ---------------------------------------------------------------------------
// JobResponse
// ---------------------------------------------------------------------------

/// Whether the artifact of a response fits its length prefix.
pub open spec fn wf_response(r: ResponseView) -> bool {
    r.artifact.len() <= u64::MAX
}

pub open spec fn spec_encode_response(r: ResponseView) -> Seq<u8> {
    spec_encode_bytes(r.artifact) + spec_encode_memory_stats(r.memory_stats)
}

pub open spec fn spec_take_response(s: Seq<u8>, i: int) -> Option<(ResponseView, int)> {
    match spec_take_bytes(s, i) {
        None => None,
        Some((artifact, j)) => match spec_take_memory_stats(s, j) {
            None => None,
            Some((m, k)) => Some((ResponseView { artifact, memory_stats: m }, k)),
        },
    }
}

pub fn write_response(out: &mut Vec<u8>, r: &JobResponse)
    ensures
        final(out)@ == old(out)@ + spec_encode_response(r@),
{
    write_len_prefixed(out, r.artifact.as_bytes().as_slice());
    write_memory_stats(out, &r.memory_stats);
    proof {
        assert(old(out)@ + spec_encode_bytes(r.artifact@) + spec_encode_memory_stats(
            r.memory_stats,
        ) =~= old(out)@ + spec_encode_response(r@));
    }
}

pub fn read_response(s: &[u8], i: usize) -> (r: Option<(JobResponse, usize)>)
    requires
        i <= s@.len(),
    ensures
        match r {
            Some((v, j)) => spec_take_response(s@, i as int) == Some((v@, j as int)) && j
                <= s@.len(),
            None => spec_take_response(s@, i as int) is None,
        },
{
    match read_bytes(s, i) {
        None => None,
        Some((artifact, j)) => match read_memory_stats(s, j) {
            None => None,
            Some((m, k)) => Some(
                (JobResponse { artifact: CompiledArtifact::new(artifact), memory_stats: m }, k),
            ),
        },
    }
}

pub proof fn lemma_take_response(s: Seq<u8>, i: int, r: ResponseView)
    requires
        0 <= i,
        wf_response(r),
        i + spec_encode_response(r).len() <= s.len(),
        s.subrange(i, i + spec_encode_response(r).len()) == spec_encode_response(r),
    ensures
        spec_take_response(s, i) == Some((r, i + spec_encode_response(r).len())),
{
    lemma_auto_spec_u64_to_from_le_bytes();
    let a = spec_encode_bytes(r.artifact);
    let b = spec_encode_memory_stats(r.memory_stats);
    let enc = spec_encode_response(r);
    let la = a.len() as int;
    let lb = b.len() as int;
    assert(s.subrange(i, i + la) =~= enc.subrange(0, la));
    assert(enc.subrange(0, la) =~= a);
    lemma_take_bytes(s, i, r.artifact);
    assert(s.subrange(i + la, i + la + lb) =~= enc.subrange(la, la + lb));
    assert(enc.subrange(la, la + lb) =~= b);
    lemma_take_memory_stats(s, i + la, r.memory_stats);
}

// ---------------------------------------------------------------------------
// JobResult and PrepareResult
// ---------------------------------------------------------------------------

/// Whether every variable-length field of a job result fits its prefix.
pub open spec fn wf_job_result(v: JobResultView) -> bool {
    match v {
        Ok(r) => wf_response(r),
        Err(e) => wf_error(e),
    }
}

pub open spec fn spec_encode_job_result(v: JobResultView) -> Seq<u8> {
    match v {
        Ok(r) => seq![0u8] + spec_encode_response(r),
        Err(e) => seq![1u8] + spec_encode_error(e),
    }
}

pub open spec fn spec_take_job_result(s: Seq<u8>, i: int) -> Option<(JobResultView, int)> {
    match spec_take_u8(s, i) {
        None => None,
        Some((tag, j)) => if tag == 0 {
            match spec_take_response(s, j) {
                None => None,
                Some((r, k)) => Some((Ok(r), k)),
            }
        } else if tag == 1 {
            match spec_take_error(s, j) {
                None => None,
                Some((e, k)) => Some((Err(e), k)),
            }
        } else {
            None
        },
    }
}

/// Encodes a job result: the payload the child pipes to the parent, before
/// framing.
pub fn encode_job_result(v: &JobResult) -> (out: Vec<u8>)
    ensures
        out@ == spec_encode_job_result(job_result_view(*v)),
{
    let mut out: Vec<u8> = Vec::new();
    match v {
        Ok(r) => {
            write_u8(&mut out, 0);
            write_response(&mut out, r);
            proof {
                assert(Seq::<u8>::empty() + seq![0u8] + spec_encode_response(r@)
                    =~= spec_encode_job_result(job_result_view(*v)));
            }
        },
        Err(e) => {
            write_u8(&mut out, 1);
            write_error(&mut out, e);
            proof {
                assert(Seq::<u8>::empty() + seq![1u8] + spec_encode_error(e@)
                    =~= spec_encode_job_result(job_result_view(*v)));
            }
        },
    }
    out
}

pub fn read_job_result(s: &[u8], i: usize) -> (r: Option<(JobResult, usize)>)
    requires
        i <= s@.len(),
    ensures
        match r {
            Some((v, j)) => spec_take_job_result(s@, i as int) == Some(
                (job_result_view(v), j as int),
            ) && j <= s@.len(),
            None => spec_take_job_result(s@, i as int) is None,
        },
{
    match read_u8(s, i) {
        None => None,
        Some((tag, j)) => {
            if tag == 0 {
                match read_response(s, j) {
                    None => None,
                    Some((r, k)) => Some((Ok(r), k)),
                }
            } else if tag == 1 {
                match read_error(s, j) {
                    None => None,
                    Some((e, k)) => Some((Err(e), k)),
                }
            } else {
                None
            }
        },
    }
}

pub proof fn lemma_take_job_result(s: Seq<u8>, i: int, v: JobResultView)
    requires
        0 <= i,
        wf_job_result(v),
        i + spec_encode_job_result(v).len() <= s.len(),
        s.subrange(i, i + spec_encode_job_result(v).len()) == spec_encode_job_result(v),
    ensures
        spec_take_job_result(s, i) == Some((v, i + spec_encode_job_result(v).len())),
{
    lemma_auto_spec_u64_to_from_le_bytes();
    let enc = spec_encode_job_result(v);
    let le = enc.len() as int;
    match v {
        Ok(r) => {
            assert(s.subrange(i, i + 1) =~= enc.subrange(0, 1));
            assert(enc.subrange(0, 1) =~= seq![0u8]);
            lemma_take_u8(s, i, 0u8);
            assert(s.subrange(i + 1, i + le) =~= enc.subrange(1, le));
            assert(enc.subrange(1, le) =~= spec_encode_response(r));
            lemma_take_response(s, i + 1, r);
        },
        Err(e) => {
            assert(s.subrange(i, i + 1) =~= enc.subrange(0, 1));
            assert(enc.subrange(0, 1) =~= seq![1u8]);
            lemma_take_u8(s, i, 1u8);
            assert(s.subrange(i + 1, i + le) =~= enc.subrange(1, le));
            assert(enc.subrange(1, le) =~= spec_encode_error(e));
            lemma_take_error(s, i + 1, e);
        },
    }
}

/// Whether every variable-length field of a worker response fits its prefix.
pub open spec fn wf_prepare_result(v: PrepareResultView) -> bool {
    match v {
        Ok(_) => true,
        Err(e) => wf_error(e),
    }
}

pub open spec fn spec_encode_prepare_result(v: PrepareResultView) -> Seq<u8> {
    match v {
        Ok(p) => seq![0u8] + spec_encode_prepare_stats(p),
        Err(e) => seq![1u8] + spec_encode_error(e),
    }
}

pub open spec fn spec_take_prepare_result(s: Seq<u8>, i: int) -> Option<(PrepareResultView, int)> {
    match spec_take_u8(s, i) {
        None => None,
        Some((tag, j)) => if tag == 0 {
            match spec_take_prepare_stats(s, j) {
                None => None,
                Some((p, k)) => Some((Ok(p), k)),
            }
        } else if tag == 1 {
            match spec_take_error(s, j) {
                None => None,
                Some((e, k)) => Some((Err(e), k)),
            }
        } else {
            None
        },
    }
}

/// Encodes the worker's reply to the host, before framing.
pub fn encode_prepare_result(v: &PrepareResult) -> (out: Vec<u8>)
    ensures
        out@ == spec_encode_prepare_result(prepare_result_view(*v)),
{
    let mut out: Vec<u8> = Vec::new();
    match v {
        Ok(p) => {
            write_u8(&mut out, 0);
            write_prepare_stats(&mut out, p);
            proof {
                assert(Seq::<u8>::empty() + seq![0u8] + spec_encode_prepare_stats(*p)
                    =~= spec_encode_prepare_result(prepare_result_view(*v)));
            }
        },
        Err(e) => {
            write_u8(&mut out, 1);
            write_error(&mut out, e);
            proof {
                assert(Seq::<u8>::empty() + seq![1u8] + spec_encode_error(e@)
                    =~= spec_encode_prepare_result(prepare_result_view(*v)));
            }
        },
    }
    out
}

pub fn read_prepare_result(s: &[u8], i: usize) -> (r: Option<(PrepareResult, usize)>)
    requires
        i <= s@.len(),
    ensures
        match r {
            Some((v, j)) => spec_take_prepare_result(s@, i as int) == Some(
                (prepare_result_view(v), j as int),
            ) && j <= s@.len(),
            None => spec_take_prepare_result(s@, i as int) is None,
        },
{
    match read_u8(s, i) {
        None => None,
        Some((tag, j)) => {
            if tag == 0 {
                match read_prepare_stats(s, j) {
                    None => None,
                    Some((p, k)) => Some((Ok(p), k)),
                }
            } else if tag == 1 {
                match read_error(s, j) {
                    None => None,
                    Some((e, k)) => Some((Err(e), k)),
                }
            } else {
                None
            }
        },
    }
}

pub proof fn lemma_take_prepare_result(s: Seq<u8>, i: int, v: PrepareResultView)
    requires
        0 <= i,
        wf_prepare_result(v),
        i + spec_encode_prepare_result(v).len() <= s.len(),
        s.subrange(i, i + spec_encode_prepare_result(v).len()) == spec_encode_prepare_result(v),
    ensures
        spec_take_prepare_result(s, i) == Some((v, i + spec_encode_prepare_result(v).len())),
{
    lemma_auto_spec_u64_to_from_le_bytes();
    let enc = spec_encode_prepare_result(v);
    let le = enc.len() as int;
    match v {
        Ok(p) => {
            assert(s.subrange(i, i + 1) =~= enc.subrange(0, 1));
            assert(enc.subrange(0, 1) =~= seq![0u8]);
            lemma_take_u8(s, i, 0u8);
            assert(s.subrange(i + 1, i + le) =~= enc.subrange(1, le));
            assert(enc.subrange(1, le) =~= spec_encode_prepare_stats(p));
            lemma_take_prepare_stats(s, i + 1, p);
        },
        Err(e) => {
            assert(s.subrange(i, i + 1) =~= enc.subrange(0, 1));
            assert(enc.subrange(0, 1) =~= seq![1u8]);
            lemma_take_u8(s, i, 1u8);
            assert(s.subrange(i + 1, i + le) =~= enc.subrange(1, le));
            assert(enc.subrange(1, le) =~= spec_encode_error(e));
            lemma_take_error(s, i + 1, e);
        },
    }
}

// ---------------------------------------------------------------------------
// PrepJobRequest
// ---------------------------------------------------------------------------

pub open spec fn spec_kind_tag(k: PrepareJobKind) -> u8 {
    match k {
        PrepareJobKind::Precheck => 0,
        PrepareJobKind::Lenient => 1,
    }
}

/// Whether the code and parameter blobs of a request fit their prefixes.
pub open spec fn wf_request(r: RequestView) -> bool {
    r.code.len() <= u64::MAX && r.executor_params.len() <= u64::MAX
}

pub open spec fn spec_encode_request(r: RequestView) -> Seq<u8> {
    spec_encode_bytes(r.code) + spec_encode_bytes(r.executor_params) + spec_u64_to_le_bytes(
        r.timeout_micros,
    ) + seq![spec_kind_tag(r.kind)]
}

pub open spec fn spec_take_request(s: Seq<u8>, i: int) -> Option<(RequestView, int)> {
    match spec_take_bytes(s, i) {
        None => None,
        Some((code, j)) => match spec_take_bytes(s, j) {
            None => None,
            Some((params, k)) => match spec_take_u64(s, k) {
                None => None,
                Some((timeout, l)) => match spec_take_u8(s, l) {
                    None => None,
                    Some((tag, m)) => if tag == 0 {
                        Some(
                            (
                                RequestView {
                                    code,
                                    executor_params: params,
                                    timeout_micros: timeout,
                                    kind: PrepareJobKind::Precheck,
                                },
                                m,
                            ),
                        )
                    } else if tag == 1 {
                        Some(
                            (
                                RequestView {
                                    code,
                                    executor_params: params,
                                    timeout_micros: timeout,
                                    kind: PrepareJobKind::Lenient,
                                },
                                m,
                            ),
                        )
                    } else {
                        None
                    },
                },
            },
        },
    }
}

/// Encodes one job request: what the host sends, before framing.
pub fn encode_request(r: &PrepJobRequest) -> (out: Vec<u8>)
    ensures
        out@ == spec_encode_request(r@),
{
    let mut out: Vec<u8> = Vec::new();
    write_len_prefixed(&mut out, r.code.as_slice());
    write_len_prefixed(&mut out, r.executor_params.as_slice());
    write_u64(&mut out, r.timeout_micros);
    let tag: u8 = match r.kind {
        PrepareJobKind::Precheck => 0,
        PrepareJobKind::Lenient => 1,
    };
    write_u8(&mut out, tag);
    proof {
        assert(Seq::<u8>::empty() + spec_encode_bytes(r.code@) + spec_encode_bytes(
            r.executor_params@,
        ) + spec_u64_to_le_bytes(r.timeout_micros) + seq![spec_kind_tag(r.kind)]
            =~= spec_encode_request(r@));
    }
    out
}

pub fn read_request(s: &[u8], i: usize) -> (r: Option<(PrepJobRequest, usize)>)
    requires
        i <= s@.len(),
    ensures
        match r {
            Some((v, j)) => spec_take_request(s@, i as int) == Some((v@, j as int)) && j
                <= s@.len(),
            None => spec_take_request(s@, i as int) is None,
        },
{
    match read_bytes(s, i) {
        None => None,
        Some((code, j)) => match read_bytes(s, j) {
            None => None,
            Some((params, k)) => match read_u64(s, k) {
                None => None,
                Some((timeout, l)) => match read_u8(s, l) {
                    None => None,
                    Some((tag, m)) => {
                        let kind = if tag == 0 {
                            Some(PrepareJobKind::Precheck)
                        } else if tag == 1 {
                            Some(PrepareJobKind::Lenient)
                        } else {
                            None
                        };
                        match kind {
                            None => None,
                            Some(kind) => Some(
                                (
                                    PrepJobRequest {
                                        code,
                                        executor_params: params,
                                        timeout_micros: timeout,
                                        kind,
                                    },
                                    m,
                                ),
                            ),
                        }
                    },
                },
            },
        },
    }
}

pub proof fn lemma_take_request(s: Seq<u8>, i: int, r: RequestView)
    requires
        0 <= i,
        wf_request(r),
        i + spec_encode_request(r).len() <= s.len(),
        s.subrange(i, i + spec_encode_request(r).len()) == spec_encode_request(r),
    ensures
        spec_take_request(s, i) == Some((r, i + spec_encode_request(r).len())),
{
    lemma_auto_spec_u64_to_from_le_bytes();
    let a = spec_encode_bytes(r.code);
    let b = spec_encode_bytes(r.executor_params);
    let enc = spec_encode_request(r);
    let la = a.len() as int;
    let lb = b.len() as int;
    assert(s.subrange(i, i + la) =~= enc.subrange(0, la));
    assert(enc.subrange(0, la) =~= a);
    lemma_take_bytes(s, i, r.code);
    assert(s.subrange(i + la, i + la + lb) =~= enc.subrange(la, la + lb));
    assert(enc.subrange(la, la + lb) =~= b);
    lemma_take_bytes(s, i + la, r.executor_params);
    assert(s.subrange(i + la + lb, i + la + lb + 8) =~= enc.subrange(la + lb, la + lb + 8));
    assert(enc.subrange(la + lb, la + lb + 8) =~= spec_u64_to_le_bytes(r.timeout_micros));
    lemma_take_u64(s, i + la + lb, r.timeout_micros);
    assert(s.subrange(i + la + lb + 8, i + la + lb + 9) =~= enc.subrange(
        la + lb + 8,
        la + lb + 9,
    ));
    assert(enc.subrange(la + lb + 8, la + lb + 9) =~= seq![spec_kind_tag(r.kind)]);
    lemma_take_u8(s, i + la + lb + 8, spec_kind_tag(r.kind));
}

// ---------------------------------------------------------------------------
// Soundness of the error and message parsers
// ---------------------------------------------------------------------------

pub proof fn lemma_sound_death(s: Seq<u8>, i: int, c: JobDeathCause, j: int)
    requires
        spec_take_death(s, i) == Some((c, j)),
    ensures
        0 <= i,
        i < j <= s.len(),
        s.subrange(i, j) == spec_encode_death(c),
{
    let (tag, t1) = spec_take_u8(s, i)->Some_0;
    lemma_sound_u8(s, i, tag, t1);
    if tag == 0 {
        let (sig, k) = spec_take_i32_slot(s, t1)->Some_0;
        lemma_sound_i32_slot(s, t1, sig, k);
        assert(s.subrange(i, j) =~= s.subrange(i, i + 1) + s.subrange(i + 1, j));
    }
}

pub proof fn lemma_sound_job_fault(s: Seq<u8>, i: int, f: JobFaultView, j: int)
    requires
        spec_take_job_fault(s, i) == Some((f, j)),
    ensures
        0 <= i,
        i < j <= s.len(),
        wf_job_fault(f),
        s.subrange(i, j) == spec_encode_job_fault(f),
{
    let (tag, t1) = spec_take_u8(s, i)->Some_0;
    lemma_sound_u8(s, i, tag, t1);
    if tag == 0 {
        let (m, k) = spec_take_bytes(s, t1)->Some_0;
        lemma_sound_bytes(s, t1, m, k);
        assert(s.subrange(i, j) =~= s.subrange(i, i + 1) + s.subrange(i + 1, j));
    } else if tag == 1 {
        let (st, k) = spec_take_i32_slot(s, t1)->Some_0;
        lemma_sound_i32_slot(s, t1, st, k);
        assert(s.subrange(i, j) =~= s.subrange(i, i + 1) + s.subrange(i + 1, j));
    }
}

pub proof fn lemma_sound_io_fault(s: Seq<u8>, i: int, f: IoFaultView, j: int)
    requires
        spec_take_io_fault(s, i) == Some((f, j)),
    ensures
        0 <= i,
        i < j <= s.len(),
        wf_io_fault(f),
        s.subrange(i, j) == spec_encode_io_fault(f),
{
    let (tag, t1) = spec_take_u8(s, i)->Some_0;
    lemma_sound_u8(s, i, tag, t1);
    if tag == 0 || tag == 2 {
        let (m, k) = spec_take_bytes(s, t1)->Some_0;
        lemma_sound_bytes(s, t1, m, k);
        assert(s.subrange(i, j) =~= s.subrange(i, i + 1) + s.subrange(i + 1, j));
    }
}

pub proof fn lemma_sound_kernel(s: Seq<u8>, i: int, k: KernelFailure, j: int)
    requires
        spec_take_kernel(s, i) == Some((k, j)),
    ensures
        0 <= i,
        j == i + 9,
        j <= s.len(),
        s.subrange(i, j) == spec_encode_kernel(k),
{
    let (tag, t1) = spec_take_u8(s, i)->Some_0;
    lemma_sound_u8(s, i, tag, t1);
    let (errno, k2) = spec_take_i32_slot(s, t1)->Some_0;
    lemma_sound_i32_slot(s, t1, errno, k2);
    assert(s.subrange(i, j) =~= s.subrange(i, i + 1) + s.subrange(i + 1, j));
}

pub proof fn lemma_sound_error(s: Seq<u8>, i: int, e: ErrorView, j: int)
    requires
        spec_take_error(s, i) == Some((e, j)),
    ensures
        0 <= i,
        i < j <= s.len(),
        wf_error(e),
        s.subrange(i, j) == spec_encode_error(e),
{
    let (tag, t1) = spec_take_u8(s, i)->Some_0;
    lemma_sound_u8(s, i, tag, t1);
    if tag == 0 || tag == 1 || tag == 2 {
        let (m, k) = spec_take_bytes(s, t1)->Some_0;
        lemma_sound_bytes(s, t1, m, k);
        assert(s.subrange(i, j) =~= s.subrange(i, i + 1) + s.subrange(i + 1, j));
    } else if tag == 4 {
        let (f, k) = spec_take_io_fault(s, t1)->Some_0;
        lemma_sound_io_fault(s, t1, f, k);
        assert(s.subrange(i, j) =~= s.subrange(i, i + 1) + s.subrange(i + 1, j));
    } else if tag == 5 {
        let (c, k) = spec_take_death(s, t1)->Some_0;
        lemma_sound_death(s, t1, c, k);
        assert(s.subrange(i, j) =~= s.subrange(i, i + 1) + s.subrange(i + 1, j));
    } else if tag == 6 {
        let (f, k) = spec_take_job_fault(s, t1)->Some_0;
        lemma_sound_job_fault(s, t1, f, k);
        assert(s.subrange(i, j) =~= s.subrange(i, i + 1) + s.subrange(i + 1, j));
    } else if tag == 7 {
        let (k2, k) = spec_take_kernel(s, t1)->Some_0;
        lemma_sound_kernel(s, t1, k2, k);
        assert(s.subrange(i, j) =~= s.subrange(i, i + 1) + s.subrange(i + 1, j));
    }
}

pub proof fn lemma_sound_response(s: Seq<u8>, i: int, r: ResponseView, j: int)
    requires
        spec_take_response(s, i) == Some((r, j)),
    ensures
        0 <= i,
        i < j <= s.len(),
        wf_response(r),
        s.subrange(i, j) == spec_encode_response(r),
{
    let (artifact, k1) = spec_take_bytes(s, i)->Some_0;
    lemma_sound_bytes(s, i, artifact, k1);
    let (m, k2) = spec_take_memory_stats(s, k1)->Some_0;
    lemma_sound_memory_stats(s, k1, m, k2);
    assert(s.subrange(i, j) =~= s.subrange(i, k1) + s.subrange(k1, j));
}

pub proof fn lemma_sound_job_result(s: Seq<u8>, i: int, v: JobResultView, j: int)
    requires
        spec_take_job_result(s, i) == Some((v, j)),
    ensures
        0 <= i,
        i < j <= s.len(),
        wf_job_result(v),
        s.subrange(i, j) == spec_encode_job_result(v),
{
    let (tag, t1) = spec_take_u8(s, i)->Some_0;
    lemma_sound_u8(s, i, tag, t1);
    if tag == 0 {
        let (r, k) = spec_take_response(s, t1)->Some_0;
        lemma_sound_response(s, t1, r, k);
        assert(s.subrange(i, j) =~= s.subrange(i, i + 1) + s.subrange(i + 1, j));
    } else {
        let (e, k) = spec_take_error(s, t1)->Some_0;
        lemma_sound_error(s, t1, e, k);
        assert(s.subrange(i, j) =~= s.subrange(i, i + 1) + s.subrange(i + 1, j));
    }
}

pub proof fn lemma_sound_prepare_result(s: Seq<u8>, i: int, v: PrepareResultView, j: int)
    requires
        spec_take_prepare_result(s, i) == Some((v, j)),
    ensures
        0 <= i,
        i < j <= s.len(),
        wf_prepare_result(v),
        s.subrange(i, j) == spec_encode_prepare_result(v),
{
    let (tag, t1) = spec_take_u8(s, i)->Some_0;
    lemma_sound_u8(s, i, tag, t1);
    if tag == 0 {
        let (p, k) = spec_take_prepare_stats(s, t1)->Some_0;
        lemma_sound_prepare_stats(s, t1, p, k);
        assert(s.subrange(i, j) =~= s.subrange(i, i + 1) + s.subrange(i + 1, j));
    } else {
        let (e, k) = spec_take_error(s, t1)->Some_0;
        lemma_sound_error(s, t1, e, k);
        assert(s.subrange(i, j) =~= s.subrange(i, i + 1) + s.subrange(i + 1, j));
    }
}

pub proof fn lemma_sound_request(s: Seq<u8>, i: int, r: RequestView, j: int)
    requires
        spec_take_request(s, i) == Some((r, j)),
    ensures
        0 <= i,
        i < j <= s.len(),
        wf_request(r),
        s.subrange(i, j) == spec_encode_request(r),
{
    let (code, k1) = spec_take_bytes(s, i)->Some_0;
    lemma_sound_bytes(s, i, code, k1);
    let (params, k2) = spec_take_bytes(s, k1)->Some_0;
    lemma_sound_bytes(s, k1, params, k2);
    let (timeout, k3) = spec_take_u64(s, k2)->Some_0;
    lemma_sound_u64(s, k2, timeout, k3);
    let (tag, k4) = spec_take_u8(s, k3)->Some_0;
    lemma_sound_u8(s, k3, tag, k4);
    assert(s.subrange(i, j) =~= s.subrange(i, k1) + s.subrange(k1, k2) + s.subrange(k2, k3)
        + s.subrange(k3, j));
}

// ---------------------------------------------------------------------------
// Whole-message decoding
// ---------------------------------------------------------------------------

/// A strict decode of an unframed job-result payload: every byte of `s`
/// must belong to the message.
pub open spec fn spec_decode_job_result(s: Seq<u8>) -> Option<JobResultView> {
    match spec_take_job_result(s, 0) {
        Some((v, j)) => if j == s.len() {
            Some(v)
        } else {
            None
        },
        None => None,
    }
}

/// A strict decode of a framed job result, as the parent reads it off the
/// pipe: one frame, one message, nothing after either.
pub open spec fn spec_decode_framed_job_result(s: Seq<u8>) -> Option<JobResultView> {
    match spec_unframe(s) {
        Some(p) => spec_decode_job_result(p),
        None => None,
    }
}

pub fn decode_job_result(s: &[u8]) -> (r: Option<JobResult>)
    ensures
        match r {
            Some(v) => spec_decode_job_result(s@) == Some(job_result_view(v)),
            None => spec_decode_job_result(s@) is None,
        },
{
    match read_job_result(s, 0) {
        None => None,
        Some((v, j)) => {
            if j == s.len() {
                Some(v)
            } else {
                None
            }
        },
    }
}

pub fn decode_framed_job_result(s: &[u8]) -> (r: Option<JobResult>)
    ensures
        match r {
            Some(v) => spec_decode_framed_job_result(s@) == Some(job_result_view(v)),
            None => spec_decode_framed_job_result(s@) is None,
        },
{
    match read_bytes(s, 0) {
        None => None,
        Some((payload, j)) => {
            if j == s.len() {
                decode_job_result(payload.as_slice())
            } else {
                None
            }
        },
    }
}

/// A strict decode of an unframed request payload.
pub open spec fn spec_decode_request(s: Seq<u8>) -> Option<RequestView> {
    match spec_take_request(s, 0) {
        Some((v, j)) => if j == s.len() {
            Some(v)
        } else {
            None
        },
        None => None,
    }
}

pub fn decode_request(s: &[u8]) -> (r: Option<PrepJobRequest>)
    ensures
        match r {
            Some(v) => spec_decode_request(s@) == Some(v@),
            None => spec_decode_request(s@) is None,
        },
{
    match read_request(s, 0) {
        None => None,
        Some((v, j)) => {
            if j == s.len() {
                Some(v)
            } else {
                None
            }
        },
    }
}

/// A strict decode of an unframed worker reply.
pub open spec fn spec_decode_prepare_result(s: Seq<u8>) -> Option<PrepareResultView> {
    match spec_take_prepare_result(s, 0) {
        Some((v, j)) => if j == s.len() {
            Some(v)
        } else {
            None
        },
        None => None,
    }
}

pub fn decode_prepare_result(s: &[u8]) -> (r: Option<PrepareResult>)
    ensures
        match r {
            Some(v) => spec_decode_prepare_result(s@) == Some(prepare_result_view(v)),
            None => spec_decode_prepare_result(s@) is None,
        },
{
    match read_prepare_result(s, 0) {
        None => None,
        Some((v, j)) => {
            if j == s.len() {
                Some(v)
            } else {
                None
            }
        },
    }
}

// ---------------------------------------------------------------------------
// Round trips
// ---------------------------------------------------------------------------

/// Encoding a job result and decoding the bytes gives the result back: the
/// wire format loses nothing on the child-to-parent pipe.
pub proof fn lemma_job_result_round_trip(v: JobResultView)
    requires
        wf_job_result(v),
    ensures
        spec_decode_job_result(spec_encode_job_result(v)) == Some(v),
{
    let enc = spec_encode_job_result(v);
    assert(enc.subrange(0, enc.len() as int) =~= enc);
    lemma_take_job_result(enc, 0, v);
}

/// The framed form round-trips as well: framing, then unframing and
/// decoding, gives the job result back.
pub proof fn lemma_framed_job_result_round_trip(v: JobResultView)
    requires
        wf_job_result(v),
        spec_encode_job_result(v).len() <= u64::MAX,
    ensures
        spec_decode_framed_job_result(spec_frame(spec_encode_job_result(v))) == Some(v),
{
    crate::wire::lemma_unframe(spec_encode_job_result(v));
    lemma_job_result_round_trip(v);
}

/// Encoding a request and decoding the bytes gives the request back: the
/// wire format loses nothing on the host-to-worker channel.
pub proof fn lemma_request_round_trip(v: RequestView)
    requires
        wf_request(v),
    ensures
        spec_decode_request(spec_encode_request(v)) == Some(v),
{
    let enc = spec_encode_request(v);
    assert(enc.subrange(0, enc.len() as int) =~= enc);
    lemma_take_request(enc, 0, v);
}

/// Encoding a worker reply and decoding the bytes gives the reply back: the
/// wire format loses nothing on the worker-to-host channel.
pub proof fn lemma_prepare_result_round_trip(v: PrepareResultView)
    requires
        wf_prepare_result(v),
    ensures
        spec_decode_prepare_result(spec_encode_prepare_result(v)) == Some(v),
{
    let enc = spec_encode_prepare_result(v);
    assert(enc.subrange(0, enc.len() as int) =~= enc);
    lemma_take_prepare_result(enc, 0, v);
}

/// The wire format is canonical on the pipe: a payload that decodes as a
/// job result is exactly that result's encoding, so re-encoding what was
/// decoded reproduces the received bytes.
pub proof fn lemma_job_result_decode_canonical(s: Seq<u8>, v: JobResultView)
    requires
        spec_decode_job_result(s) == Some(v),
    ensures
        s == spec_encode_job_result(v),
        wf_job_result(v),
{
    let (v0, j) = spec_take_job_result(s, 0)->Some_0;
    lemma_sound_job_result(s, 0, v0, j);
    assert(s.subrange(0, s.len() as int) =~= s);
}

/// The same, framing included: a byte stream that decodes as a framed job
/// result is exactly the frame of that result's encoding.
pub proof fn lemma_framed_job_result_decode_canonical(s: Seq<u8>, v: JobResultView)
    requires
        spec_decode_framed_job_result(s) == Some(v),
    ensures
        s == spec_frame(spec_encode_job_result(v)),
        wf_job_result(v),
{
    let p = spec_unframe(s)->Some_0;
    lemma_sound_unframe(s, p);
    lemma_job_result_decode_canonical(p, v);
}

/// The wire format is canonical on the host channel's requests.
pub proof fn lemma_request_decode_canonical(s: Seq<u8>, v: RequestView)
    requires
        spec_decode_request(s) == Some(v),
    ensures
        s == spec_encode_request(v),
        wf_request(v),
{
    let (v0, j) = spec_take_request(s, 0)->Some_0;
    lemma_sound_request(s, 0, v0, j);
    assert(s.subrange(0, s.len() as int) =~= s);
}

/// The wire format is canonical on the host channel's replies.
pub proof fn lemma_prepare_result_decode_canonical(s: Seq<u8>, v: PrepareResultView)
    requires
        spec_decode_prepare_result(s) == Some(v),
    ensures
        s == spec_encode_prepare_result(v),
        wf_prepare_result(v),
{
    let (v0, j) = spec_take_prepare_result(s, 0)->Some_0;
    lemma_sound_prepare_result(s, 0, v0, j);
    assert(s.subrange(0, s.len() as int) =~= s);
}

// ---------------------------------------------------------------------------
// The pre-encoded out-of-memory frame
// ---------------------------------------------------------------------------

/// Builds the complete frame that announces `Err(OutOfMemory)` on the
/// child-to-parent pipe.
///
/// The allocation-exceeded callback may not allocate, so the running child
/// builds this buffer ahead of time and the callback only hands its bytes
/// to a raw write. The buffer is produced by the normal encode path and is
/// proved byte-for-byte stable by [`lemma_oom_frame_bytes`].
pub fn oom_frame() -> (out: Vec<u8>)
    ensures
        out@ == spec_frame(spec_encode_job_result(Err(ErrorView::OutOfMemory))),
        out@.len() == 10,
{
    let err: JobResult = Err(PrepareError::OutOfMemory);
    let payload = encode_job_result(&err);
    let out = crate::wire::frame_payload(payload.as_slice());
    proof {
        lemma_auto_spec_u64_to_from_le_bytes();
    }
    out
}

/// The out-of-memory frame is exactly the ten bytes
/// `02 00 00 00 00 00 00 00 01 08`: a length prefix of 2, the `Err` tag,
/// and the `OutOfMemory` kind tag.
pub proof fn lemma_oom_frame_bytes()
    ensures
        spec_frame(spec_encode_job_result(Err(ErrorView::OutOfMemory))) =~= seq![
            2u8,
            0u8,
            0u8,
            0u8,
            0u8,
            0u8,
            0u8,
            0u8,
            1u8,
            8u8,
        ],
{
    let payload = spec_encode_job_result(Err(ErrorView::OutOfMemory));
    assert(payload =~= seq![1u8, 8u8]);
    vstd::bytes::spec_u64_to_le_bytes_to_open(2);
    assert((2u64 & 0xff) as u8 == 2u8) by (bit_vector);
    assert(((2u64 >> 8) & 0xff) as u8 == 0u8) by (bit_vector);
    assert(((2u64 >> 16) & 0xff) as u8 == 0u8) by (bit_vector);
    assert(((2u64 >> 24) & 0xff) as u8 == 0u8) by (bit_vector);
    assert(((2u64 >> 32) & 0xff) as u8 == 0u8) by (bit_vector);
    assert(((2u64 >> 40) & 0xff) as u8 == 0u8) by (bit_vector);
    assert(((2u64 >> 48) & 0xff) as u8 == 0u8) by (bit_vector);
    assert(((2u64 >> 56) & 0xff) as u8 == 0u8) by (bit_vector);
    assert(vstd::bytes::spec_u64_to_le_bytes_open(2) =~= seq![
        2u8,
        0u8,
        0u8,
        0u8,
        0u8,
        0u8,
        0u8,
        0u8,
    ]);
}

} // verus!
