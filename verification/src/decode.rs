//! The byte layout of a recording: little-endian integers, checked for length.
//!
//! A recording holds, in this order: the number `n` of events (8 bytes), `n`
//! event centroids (8 bytes each), the sampling interval and the resolution
//! (two 64-bit floating-point numbers, kept here as their bit patterns), the
//! number `m` of samples (8 bytes), and `m` raw samples (2 bytes each).

use vstd::prelude::*;
use vstd::slice::slice_subrange;

verus! {

/// The number that `bytes` spell in base 256, least significant byte first.
pub open spec fn le_value(bytes: Seq<u8>) -> nat
    decreases bytes.len(),
{
    if bytes.len() == 0 {
        0
    } else {
        bytes[0] as nat + 256 * le_value(bytes.skip(1))
    }
}

/// The 16-bit number in the two bytes of `bytes` from `pos` on.
pub open spec fn u16_at(bytes: Seq<u8>, pos: int) -> nat {
    le_value(bytes.subrange(pos, pos + 2))
}

/// The 64-bit number in the eight bytes of `bytes` from `pos` on.
pub open spec fn u64_at(bytes: Seq<u8>, pos: int) -> nat {
    le_value(bytes.subrange(pos, pos + 8))
}

/// Two bytes spell `lo + 256 * hi`.
pub proof fn lemma_le_value_2(bytes: Seq<u8>)
    requires
        bytes.len() == 2,
    ensures
        le_value(bytes) == bytes[0] + 256 * bytes[1],
{
    reveal_with_fuel(le_value, 3);
    assert(bytes.skip(1)[0] == bytes[1]);
    assert(bytes.skip(1).skip(1).len() == 0);
}

/// Eight bytes spell a number below 2^64, each byte weighing 256 times the one before.
pub proof fn lemma_le_value_8(bytes: Seq<u8>)
    requires
        bytes.len() == 8,
    ensures
        le_value(bytes) == bytes[0] + 0x100 * bytes[1] + 0x1_0000 * bytes[2] + 0x100_0000 * bytes[3]
            + 0x1_0000_0000 * bytes[4] + 0x100_0000_0000 * bytes[5] + 0x1_0000_0000_0000 * bytes[6]
            + 0x100_0000_0000_0000 * bytes[7],
        le_value(bytes) <= u64::MAX,
{
    let s1 = bytes.skip(1);
    let s2 = s1.skip(1);
    let s3 = s2.skip(1);
    let s4 = s3.skip(1);
    let s5 = s4.skip(1);
    let s6 = s5.skip(1);
    let s7 = s6.skip(1);
    let s8 = s7.skip(1);
    assert(s1[0] == bytes[1] && s2[0] == bytes[2] && s3[0] == bytes[3] && s4[0] == bytes[4]);
    assert(s5[0] == bytes[5] && s6[0] == bytes[6] && s7[0] == bytes[7] && s8.len() == 0);
    assert(le_value(s8) == 0);
    assert(le_value(s7) == bytes[7] + 256 * le_value(s8));
    assert(le_value(s6) == bytes[6] + 256 * le_value(s7));
    assert(le_value(s5) == bytes[5] + 256 * le_value(s6));
    assert(le_value(s4) == bytes[4] + 256 * le_value(s5));
    assert(le_value(s3) == bytes[3] + 256 * le_value(s4));
    assert(le_value(s2) == bytes[2] + 256 * le_value(s3));
    assert(le_value(s1) == bytes[1] + 256 * le_value(s2));
    assert(le_value(bytes) == bytes[0] + 256 * le_value(s1));
}

/// The 16-bit number at the start of `data`, if `data` has the two bytes for it.
pub fn to_u16_le(data: &[u8]) -> (r: Option<u16>)
    ensures
        match r {
            Some(v) => data@.len() >= 2 && v == u16_at(data@, 0),
            None => data@.len() < 2,
        },
{
    if data.len() >= 2 {
        let lo = data[0] as u16;
        let hi = data[1] as u16;
        let value = lo | (hi << 8);
        proof {
            lemma_le_value_2(data@.subrange(0, 2));
            assert(lo | (hi << 8) == lo + 256 * hi) by (bit_vector)
                requires
                    lo < 256,
                    hi < 256,
            ;
        }
        Some(value)
    } else {
        None
    }
}

/// The 64-bit number at the start of `data`, if `data` has the eight bytes for it.
pub fn to_u64_le(data: &[u8]) -> (r: Option<u64>)
    ensures
        match r {
            Some(v) => data@.len() >= 8 && v == u64_at(data@, 0),
            None => data@.len() < 8,
        },
{
    if data.len() >= 8 {
        let b0 = data[0] as u64;
        let b1 = data[1] as u64;
        let b2 = data[2] as u64;
        let b3 = data[3] as u64;
        let b4 = data[4] as u64;
        let b5 = data[5] as u64;
        let b6 = data[6] as u64;
        let b7 = data[7] as u64;
        let value = b0 | (b1 << 8) | (b2 << 16) | (b3 << 24) | (b4 << 32) | (b5 << 40) | (b6 << 48)
            | (b7 << 56);
        proof {
            lemma_le_value_8(data@.subrange(0, 8));
            assert(b0 | (b1 << 8) | (b2 << 16) | (b3 << 24) | (b4 << 32) | (b5 << 40) | (b6 << 48)
                | (b7 << 56) == b0 + 0x100 * b1 + 0x1_0000 * b2 + 0x100_0000 * b3 + 0x1_0000_0000
                * b4 + 0x100_0000_0000 * b5 + 0x1_0000_0000_0000 * b6 + 0x100_0000_0000_0000 * b7)
                by (bit_vector)
                requires
                    b0 < 256,
                    b1 < 256,
                    b2 < 256,
                    b3 < 256,
                    b4 < 256,
                    b5 < 256,
                    b6 < 256,
                    b7 < 256,
            ;
        }
        Some(value)
    } else {
        None
    }
}

/// What a recording holds.
pub struct Recording {
    /// The sample indices of the events, in the order of the file.
    pub centroids: Vec<u64>,
    /// The bit pattern of the sampling interval, a 64-bit floating-point number of seconds.
    pub interval_bits: u64,
    /// The bit pattern of the resolution, the 64-bit floating-point factor that scales a raw sample.
    pub resolution_bits: u64,
    /// The raw samples, in order.
    pub samples: Vec<u16>,
}

/// The part of a recording at which its bytes end too early.
#[derive(Debug, Clone, Copy, PartialEq, Eq, Structural)]
pub enum DecodeError {
    /// Fewer than the eight bytes of the event count.
    NoEventCount,
    /// Fewer centroids than the event count announces.
    TruncatedCentroids,
    /// The interval, the resolution or the sample count is cut short.
    TruncatedHeader,
    /// Fewer samples than the sample count announces.
    TruncatedSamples,
}

/// The number of events that `bytes` announce.
pub open spec fn event_count(bytes: Seq<u8>) -> nat {
    u64_at(bytes, 0)
}

/// Where the `i`-th centroid starts.
pub open spec fn centroid_pos(i: int) -> int {
    8 + 8 * i
}

/// Where the sampling interval starts, behind the last centroid.
pub open spec fn header_pos(bytes: Seq<u8>) -> int {
    centroid_pos(event_count(bytes) as int)
}

/// The number of samples that `bytes` announce.
pub open spec fn sample_count(bytes: Seq<u8>) -> nat {
    u64_at(bytes, header_pos(bytes) + 16)
}

/// Where the `i`-th sample starts.
pub open spec fn sample_pos(bytes: Seq<u8>, i: int) -> int {
    header_pos(bytes) + 24 + 2 * i
}

/// The first part of the layout that `bytes` are too short for, if any.
pub open spec fn layout_error(bytes: Seq<u8>) -> Option<DecodeError> {
    if bytes.len() < 8 {
        Some(DecodeError::NoEventCount)
    } else if bytes.len() < header_pos(bytes) {
        Some(DecodeError::TruncatedCentroids)
    } else if bytes.len() < header_pos(bytes) + 24 {
        Some(DecodeError::TruncatedHeader)
    } else if bytes.len() < sample_pos(bytes, sample_count(bytes) as int) {
        Some(DecodeError::TruncatedSamples)
    } else {
        None
    }
}

/// `rec` holds what `bytes` spell: every centroid and every sample that they
/// announce, and the two bit patterns between them.
pub open spec fn decodes_to(bytes: Seq<u8>, rec: Recording) -> bool {
    &&& rec.centroids@.len() == event_count(bytes)
    &&& forall|i: int|
        0 <= i < rec.centroids@.len() ==> #[trigger] rec.centroids@[i] == u64_at(
            bytes,
            centroid_pos(i),
        )
    &&& rec.interval_bits == u64_at(bytes, header_pos(bytes))
    &&& rec.resolution_bits == u64_at(bytes, header_pos(bytes) + 8)
    &&& rec.samples@.len() == sample_count(bytes)
    &&& forall|i: int|
        0 <= i < rec.samples@.len() ==> #[trigger] rec.samples@[i] == u16_at(
            bytes,
            sample_pos(bytes, i),
        )
}

/// The 64-bit number in the eight bytes of `bytes` from `pos` on.
fn read_u64(bytes: &[u8], pos: usize) -> (v: u64)
    requires
        pos + 8 <= bytes.len(),
    ensures
        v == u64_at(bytes@, pos as int),
{
    let field = slice_subrange(bytes, pos, pos + 8);
    proof {
        assert(field@.subrange(0, 8) == bytes@.subrange(pos as int, pos + 8));
    }
    match to_u64_le(field) {
        Some(v) => v,
        None => 0,
    }
}

/// The 16-bit number in the two bytes of `bytes` from `pos` on.
fn read_u16(bytes: &[u8], pos: usize) -> (v: u16)
    requires
        pos + 2 <= bytes.len(),
    ensures
        v == u16_at(bytes@, pos as int),
{
    let field = slice_subrange(bytes, pos, pos + 2);
    proof {
        assert(field@.subrange(0, 2) == bytes@.subrange(pos as int, pos + 2));
    }
    match to_u16_le(field) {
        Some(v) => v,
        None => 0,
    }
}

/// Reads a recording from its bytes. Bytes behind the last sample are left
/// unread. Bytes that end before the layout does give the error that names
/// the part that is cut short.
pub fn decode_recording(bytes: &[u8]) -> (r: Result<Recording, DecodeError>)
    ensures
        match r {
            Ok(rec) => layout_error(bytes@) is None && decodes_to(bytes@, rec),
            Err(e) => layout_error(bytes@) == Some(e),
        },
{
    if bytes.len() < 8 {
        return Err(DecodeError::NoEventCount);
    }
    let announced = read_u64(bytes, 0);
    let room = (bytes.len() - 8) / 8;
    if announced > room as u64 {
        return Err(DecodeError::TruncatedCentroids);
    }
    let n = announced as usize;
    let mut centroids: Vec<u64> = Vec::with_capacity(n);
    let mut i: usize = 0;
    while i < n
        invariant
            i <= n,
            8 + 8 * n <= bytes.len(),
            centroids@.len() == i,
            forall|j: int|
                0 <= j < i ==> #[trigger] centroids@[j] == u64_at(bytes@, centroid_pos(j)),
        decreases n - i,
    {
        let c = read_u64(bytes, 8 + 8 * i);
        centroids.push(c);
        i += 1;
    }
    let pos = 8 + 8 * n;
    if bytes.len() - pos < 24 {
        return Err(DecodeError::TruncatedHeader);
    }
    let interval_bits = read_u64(bytes, pos);
    let resolution_bits = read_u64(bytes, pos + 8);
    let announced = read_u64(bytes, pos + 16);
    let start = pos + 24;
    let room = (bytes.len() - start) / 2;
    if announced > room as u64 {
        return Err(DecodeError::TruncatedSamples);
    }
    let m = announced as usize;
    let mut samples: Vec<u16> = Vec::with_capacity(m);
    let mut i: usize = 0;
    while i < m
        invariant
            i <= m,
            start == header_pos(bytes@) + 24,
            start + 2 * m <= bytes.len(),
            samples@.len() == i,
            forall|j: int|
                0 <= j < i ==> #[trigger] samples@[j] == u16_at(bytes@, sample_pos(bytes@, j)),
        decreases m - i,
    {
        let s = read_u16(bytes, start + 2 * i);
        samples.push(s);
        i += 1;
    }
    Ok(Recording { centroids, interval_bits, resolution_bits, samples })
}

} // verus!
