use vstd::prelude::*;

use crate::format::{Endianness, SampleFormat};
use crate::vox::{initial_state, lemma_decode_continues, run_samples, run_state, VoxState};

verus! {

/// The samples of a decoded buffer as mathematical integers.
pub open spec fn widen(v: Seq<i32>) -> Seq<int> {
    v.map_values(|x: i32| x as int)
}

/// Two's-complement value of the 16-bit word whose low byte is `lo`.
pub open spec fn int16_of(lo: u8, hi: u8) -> int {
    let u = lo + 0x100 * hi;
    if u < 0x8000 {
        u
    } else {
        u - 0x1_0000
    }
}

/// Two's-complement value of the 32-bit word whose bytes are `b0` (least
/// significant) to `b3` (most significant).
pub open spec fn int32_of(b0: u8, b1: u8, b2: u8, b3: u8) -> int {
    let u = b0 + 0x100 * b1 + 0x1_0000 * b2 + 0x100_0000 * b3;
    if u < 0x8000_0000 {
        u
    } else {
        u - 0x1_0000_0000
    }
}

/// A 24-bit chunk whose bytes are `b0` (least significant) to `b2`: placed in a
/// 32-bit word with a zero byte on the most significant side, then shifted
/// right by 8 bits.
pub open spec fn int24_of(b0: u8, b1: u8, b2: u8) -> int {
    int32_of(b0, b1, b2, 0) / 0x100
}

pub open spec fn int8_samples(bytes: Seq<u8>) -> Seq<int> {
    Seq::new(bytes.len(), |i: int| bytes[i] - 128)
}

/// One sample per complete 2-byte chunk; a trailing odd byte is dropped.
pub open spec fn int16_samples(bytes: Seq<u8>, e: Endianness) -> Seq<int> {
    Seq::new(
        bytes.len() / 2,
        |i: int|
            match e {
                Endianness::Little => int16_of(bytes[2 * i], bytes[2 * i + 1]),
                Endianness::Big => int16_of(bytes[2 * i + 1], bytes[2 * i]),
            },
    )
}

/// One sample per complete 3-byte chunk; trailing bytes are dropped.
pub open spec fn int24_samples(bytes: Seq<u8>, e: Endianness) -> Seq<int> {
    Seq::new(
        bytes.len() / 3,
        |i: int|
            match e {
                Endianness::Little => int24_of(bytes[3 * i], bytes[3 * i + 1], bytes[3 * i + 2]),
                Endianness::Big => int24_of(bytes[3 * i + 2], bytes[3 * i + 1], bytes[3 * i]),
            },
    )
}

/// One sample per complete 4-byte chunk; trailing bytes are dropped.
pub open spec fn int32_samples(bytes: Seq<u8>, e: Endianness) -> Seq<int> {
    Seq::new(
        bytes.len() / 4,
        |i: int|
            match e {
                Endianness::Little => int32_of(
                    bytes[4 * i],
                    bytes[4 * i + 1],
                    bytes[4 * i + 2],
                    bytes[4 * i + 3],
                ),
                Endianness::Big => int32_of(
                    bytes[4 * i + 3],
                    bytes[4 * i + 2],
                    bytes[4 * i + 1],
                    bytes[4 * i],
                ),
            },
    )
}

/// The nibbles of a buffer in decoding order: of each byte the high nibble,
/// then the low one.
pub open spec fn nibbles_of(bytes: Seq<u8>) -> Seq<u8> {
    Seq::new(
        2 * bytes.len(),
        |k: int|
            if k % 2 == 0 {
                (bytes[k / 2] / 16) as u8
            } else {
                (bytes[k / 2] % 16) as u8
            },
    )
}

/// ADPCM samples of a buffer, decoded by one codec from the initial state.
pub open spec fn vox_samples(bytes: Seq<u8>) -> Seq<int> {
    run_samples(initial_state(), nibbles_of(bytes))
}

/// The samples that a buffer holds in the given format.
pub open spec fn decoded(bytes: Seq<u8>, format: SampleFormat, e: Endianness) -> Seq<int> {
    match format {
        SampleFormat::Int8 => int8_samples(bytes),
        SampleFormat::Int16 => int16_samples(bytes, e),
        SampleFormat::Int24 => int24_samples(bytes, e),
        SampleFormat::Int32 => int32_samples(bytes, e),
        SampleFormat::Vox => vox_samples(bytes),
    }
}

fn int16_from(lo: u8, hi: u8) -> (r: i32)
    ensures
        r == int16_of(lo, hi),
{
    let u: i32 = lo as i32 + 0x100 * (hi as i32);
    if u < 0x8000 {
        u
    } else {
        u - 0x1_0000
    }
}

fn int32_from(b0: u8, b1: u8, b2: u8, b3: u8) -> (r: i32)
    ensures
        r == int32_of(b0, b1, b2, b3),
{
    let u: i64 = b0 as i64 + 0x100 * (b1 as i64) + 0x1_0000 * (b2 as i64) + 0x100_0000 * (b3 as i64);
    if u < 0x8000_0000 {
        u as i32
    } else {
        (u - 0x1_0000_0000) as i32
    }
}

/// Unsigned bytes, each centred by subtracting 128.
pub fn decode_int8(bytes: &[u8]) -> (r: Vec<i32>)
    ensures
        widen(r@) == int8_samples(bytes@),
{
    let mut out: Vec<i32> = Vec::new();
    let mut i: usize = 0;
    while i < bytes.len()
        invariant
            i <= bytes@.len(),
            widen(out@) =~= int8_samples(bytes@).take(i as int),
        decreases bytes.len() - i,
    {
        let v: i32 = bytes[i] as i32 - 128;
        let ghost out_before = out@;
        out.push(v);
        proof {
            assert(widen(out@) =~= widen(out_before).push(v as int));
            assert(int8_samples(bytes@).take(i + 1) =~= int8_samples(bytes@).take(i as int).push(
                v as int,
            ));
        }
        i += 1;
    }
    assert(int8_samples(bytes@).take(i as int) =~= int8_samples(bytes@));
    out
}

/// Signed 16-bit samples in the given byte order.
pub fn decode_int16(bytes: &[u8], endianness: Endianness) -> (r: Vec<i32>)
    ensures
        widen(r@) == int16_samples(bytes@, endianness),
{
    let len: usize = bytes.len();
    let n: usize = len / 2;
    proof {
        assert(2 * n <= bytes@.len()) by (nonlinear_arith)
            requires
                n == bytes@.len() / 2,
        ;
    }
    let mut out: Vec<i32> = Vec::new();
    let mut i: usize = 0;
    while i < n
        invariant
            len == bytes@.len(),
            n == bytes@.len() / 2,
            2 * n <= bytes@.len(),
            i <= n,
            widen(out@) =~= int16_samples(bytes@, endianness).take(i as int),
        decreases n - i,
    {
        assert(2 * i + 1 < len) by (nonlinear_arith)
            requires
                i < n,
                2 * n <= len,
        ;
        let v: i32 = match endianness {
            Endianness::Little => int16_from(bytes[2 * i], bytes[2 * i + 1]),
            Endianness::Big => int16_from(bytes[2 * i + 1], bytes[2 * i]),
        };
        let ghost out_before = out@;
        out.push(v);
        proof {
            assert(widen(out@) =~= widen(out_before).push(v as int));
            assert(int16_samples(bytes@, endianness).take(i + 1) =~= int16_samples(
                bytes@,
                endianness,
            ).take(i as int).push(v as int));
        }
        i += 1;
    }
    assert(int16_samples(bytes@, endianness).take(n as int) =~= int16_samples(bytes@, endianness));
    out
}

/// 24-bit samples in the given byte order: each chunk is widened to 32 bits
/// with a zero byte on the most significant side and shifted right by 8.
pub fn decode_int24(bytes: &[u8], endianness: Endianness) -> (r: Vec<i32>)
    ensures
        widen(r@) == int24_samples(bytes@, endianness),
{
    let len: usize = bytes.len();
    let n: usize = len / 3;
    proof {
        assert(3 * n <= bytes@.len()) by (nonlinear_arith)
            requires
                n == bytes@.len() / 3,
        ;
    }
    let mut out: Vec<i32> = Vec::new();
    let mut i: usize = 0;
    while i < n
        invariant
            len == bytes@.len(),
            n == bytes@.len() / 3,
            3 * n <= bytes@.len(),
            i <= n,
            widen(out@) =~= int24_samples(bytes@, endianness).take(i as int),
        decreases n - i,
    {
        assert(3 * i + 2 < len) by (nonlinear_arith)
            requires
                i < n,
                3 * n <= len,
        ;
        let word: i32 = match endianness {
            Endianness::Little => int32_from(bytes[3 * i], bytes[3 * i + 1], bytes[3 * i + 2], 0),
            Endianness::Big => int32_from(bytes[3 * i + 2], bytes[3 * i + 1], bytes[3 * i], 0),
        };
        let v: i32 = word >> 8;
        proof {
            assert(v == word / 0x100) by (bit_vector)
                requires
                    0 <= word,
                    v == word >> 8,
            ;
        }
        let ghost out_before = out@;
        out.push(v);
        proof {
            assert(widen(out@) =~= widen(out_before).push(v as int));
            assert(int24_samples(bytes@, endianness).take(i + 1) =~= int24_samples(
                bytes@,
                endianness,
            ).take(i as int).push(v as int));
        }
        i += 1;
    }
    assert(int24_samples(bytes@, endianness).take(n as int) =~= int24_samples(bytes@, endianness));
    out
}

/// Signed 32-bit samples in the given byte order.
pub fn decode_int32(bytes: &[u8], endianness: Endianness) -> (r: Vec<i32>)
    ensures
        widen(r@) == int32_samples(bytes@, endianness),
{
    let len: usize = bytes.len();
    let n: usize = len / 4;
    proof {
        assert(4 * n <= bytes@.len()) by (nonlinear_arith)
            requires
                n == bytes@.len() / 4,
        ;
    }
    let mut out: Vec<i32> = Vec::new();
    let mut i: usize = 0;
    while i < n
        invariant
            len == bytes@.len(),
            n == bytes@.len() / 4,
            4 * n <= bytes@.len(),
            i <= n,
            widen(out@) =~= int32_samples(bytes@, endianness).take(i as int),
        decreases n - i,
    {
        assert(4 * i + 3 < len) by (nonlinear_arith)
            requires
                i < n,
                4 * n <= len,
        ;
        let v: i32 = match endianness {
            Endianness::Little => int32_from(
                bytes[4 * i],
                bytes[4 * i + 1],
                bytes[4 * i + 2],
                bytes[4 * i + 3],
            ),
            Endianness::Big => int32_from(
                bytes[4 * i + 3],
                bytes[4 * i + 2],
                bytes[4 * i + 1],
                bytes[4 * i],
            ),
        };
        let ghost out_before = out@;
        out.push(v);
        proof {
            assert(widen(out@) =~= widen(out_before).push(v as int));
            assert(int32_samples(bytes@, endianness).take(i + 1) =~= int32_samples(
                bytes@,
                endianness,
            ).take(i as int).push(v as int));
        }
        i += 1;
    }
    assert(int32_samples(bytes@, endianness).take(n as int) =~= int32_samples(bytes@, endianness));
    out
}

/// ADPCM samples, two per byte, decoded by a codec created for this buffer.
pub fn decode_vox(bytes: &[u8]) -> (r: Vec<i32>)
    ensures
        widen(r@) == vox_samples(bytes@),
{
    let mut state: VoxState = VoxState::new();
    let mut out: Vec<i32> = Vec::new();
    let mut i: usize = 0;
    while i < bytes.len()
        invariant
            i <= bytes@.len(),
            state@ == run_state(initial_state(), nibbles_of(bytes@.take(i as int))),
            widen(out@) == run_samples(initial_state(), nibbles_of(bytes@.take(i as int))),
        decreases bytes.len() - i,
    {
        let b: u8 = bytes[i];
        // high nibble first, then low nibble
        let high: u8 = b >> 4;
        let low: u8 = b & 0xF;
        proof {
            assert(high == b / 16 && low == b % 16) by (bit_vector)
                requires
                    high == b >> 4,
                    low == b & 0xF,
            ;
        }
        let ghost before = nibbles_of(bytes@.take(i as int));
        let ghost out_before = out@;
        let x: i16 = state.vox_decode(&high);
        out.push(x as i32);
        let y: i16 = state.vox_decode(&low);
        out.push(y as i32);
        proof {
            let s0 = initial_state();
            assert(nibbles_of(bytes@.take(i + 1)) =~= before.push(high).push(low));
            lemma_decode_continues(s0, before, high);
            lemma_decode_continues(s0, before.push(high), low);
            assert(widen(out@) =~= widen(out_before).push(x as int).push(y as int));
        }
        i += 1;
    }
    assert(bytes@.take(i as int) =~= bytes@);
    out
}

/// Decodes a whole buffer in the given format. The byte order matters for the
/// multi-byte formats only; trailing bytes that do not fill a sample are dropped.
pub fn decode(bytes: &[u8], format: SampleFormat, endianness: Endianness) -> (r: Vec<i32>)
    ensures
        widen(r@) == decoded(bytes@, format, endianness),
{
    match format {
        SampleFormat::Int8 => decode_int8(bytes),
        SampleFormat::Int16 => decode_int16(bytes, endianness),
        SampleFormat::Int24 => decode_int24(bytes, endianness),
        SampleFormat::Int32 => decode_int32(bytes, endianness),
        SampleFormat::Vox => decode_vox(bytes),
    }
}

} // verus!
