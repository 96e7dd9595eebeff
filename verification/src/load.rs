//! The compiled-module cache format.
//!
//! A compiled plug-in is cached beside its source as
//! `[engine_fingerprint : u64 LE][module_modified : u64 LE][compiled bytes]`.
//! The cache is valid only when both prefix integers match the running
//! engine's fingerprint and the module file's modification time; otherwise
//! the module is recompiled and the cache rewritten. Reading the file and
//! compiling are done by the unverified shell; this module owns the byte
//! format and the match decision.

use vstd::prelude::*;
use crate::types::HostError;

verus! {

/// The first `n` bytes of `s`, padded with zero bytes when `s` is shorter.
/// A short read from a file behaves this way: missing bytes read as zero.
pub open spec fn take_padded(s: Seq<u8>, n: nat) -> Seq<u8> {
    Seq::new(n, |i: int| if i < s.len() { s[i] } else { 0u8 })
}

/// Everything of `s` from position `n` on; empty when `s` is shorter.
pub open spec fn tail_from(s: Seq<u8>, n: int) -> Seq<u8> {
    if s.len() <= n {
        Seq::empty()
    } else {
        s.subrange(n, s.len() as int)
    }
}

/// The value of 8 little-endian bytes.
pub open spec fn le_u64_value(s: Seq<u8>) -> int
    recommends
        s.len() == 8,
{
    s[0] + 0x100 * s[1] + 0x1_0000 * s[2] + 0x100_0000 * s[3] + 0x1_0000_0000 * s[4]
        + 0x100_0000_0000 * s[5] + 0x1_0000_0000_0000 * s[6] + 0x100_0000_0000_0000 * s[7]
}

/// The value of 4 little-endian bytes.
pub open spec fn le_u32_value(s: Seq<u8>) -> int
    recommends
        s.len() == 4,
{
    s[0] + 0x100 * s[1] + 0x1_0000 * s[2] + 0x100_0000 * s[3]
}

/// The 8 little-endian bytes of `v`.
pub open spec fn u64_le_bytes(v: u64) -> Seq<u8> {
    seq![
        (v & 0xff) as u8,
        ((v >> 8) & 0xff) as u8,
        ((v >> 16) & 0xff) as u8,
        ((v >> 24) & 0xff) as u8,
        ((v >> 32) & 0xff) as u8,
        ((v >> 40) & 0xff) as u8,
        ((v >> 48) & 0xff) as u8,
        ((v >> 56) & 0xff) as u8,
    ]
}

/// The engine fingerprint a cache file claims: its first 8 bytes.
pub open spec fn cache_engine_value(cache: Seq<u8>) -> int {
    le_u64_value(take_padded(cache, 8))
}

/// The module modification time a cache file claims: its bytes 8 to 16.
pub open spec fn cache_modified_value(cache: Seq<u8>) -> int {
    le_u64_value(take_padded(tail_from(cache, 8), 8))
}

/// The compiled-module payload of a cache file: everything from byte 16 on.
pub open spec fn cache_payload(cache: Seq<u8>) -> Seq<u8> {
    tail_from(cache, 16)
}

fn byte_or_zero(input: &[u8], i: usize) -> (r: u8)
    ensures
        r == (if i < input@.len() {
            input@[i as int]
        } else {
            0u8
        }),
{
    if i < input.len() {
        input[i]
    } else {
        0
    }
}

/// Decodes a 64-bit little-endian integer from the start of `input`,
/// reading missing bytes as zero, as a short read from a file would.
pub fn read_u64_le(input: &[u8]) -> (r: u64)
    ensures
        r == le_u64_value(take_padded(input@, 8)),
{
    let b0 = byte_or_zero(input, 0) as u64;
    let b1 = byte_or_zero(input, 1) as u64;
    let b2 = byte_or_zero(input, 2) as u64;
    let b3 = byte_or_zero(input, 3) as u64;
    let b4 = byte_or_zero(input, 4) as u64;
    let b5 = byte_or_zero(input, 5) as u64;
    let b6 = byte_or_zero(input, 6) as u64;
    let b7 = byte_or_zero(input, 7) as u64;
    b0 + 0x100 * b1 + 0x1_0000 * b2 + 0x100_0000 * b3 + 0x1_0000_0000 * b4
        + 0x100_0000_0000 * b5 + 0x1_0000_0000_0000 * b6 + 0x100_0000_0000_0000 * b7
}

/// Decodes a 32-bit little-endian integer from the start of `input`,
/// reading missing bytes as zero.
pub fn read_u32_le(input: &[u8]) -> (r: u32)
    ensures
        r == le_u32_value(take_padded(input@, 4)),
{
    let b0 = byte_or_zero(input, 0) as u32;
    let b1 = byte_or_zero(input, 1) as u32;
    let b2 = byte_or_zero(input, 2) as u32;
    let b3 = byte_or_zero(input, 3) as u32;
    b0 + 0x100 * b1 + 0x1_0000 * b2 + 0x100_0000 * b3
}

/// Appends the 8 little-endian bytes of `value` to `output`.
pub fn write_u64_le(output: &mut Vec<u8>, value: u64)
    ensures
        final(output)@ == old(output)@ + u64_le_bytes(value),
{
    output.push((value & 0xff) as u8);
    output.push(((value >> 8) & 0xff) as u8);
    output.push(((value >> 16) & 0xff) as u8);
    output.push(((value >> 24) & 0xff) as u8);
    output.push(((value >> 32) & 0xff) as u8);
    output.push(((value >> 40) & 0xff) as u8);
    output.push(((value >> 48) & 0xff) as u8);
    output.push(((value >> 56) & 0xff) as u8);
    proof {
        assert(output@ =~= old(output)@ + u64_le_bytes(value));
    }
}

/// Builds a cache file image: both prefix integers followed by the compiled
/// bytes.
pub fn build_cache_file(engine_hash: u64, module_modified: u64, compiled: &[u8]) -> (r: Vec<u8>)
    ensures
        r@ == u64_le_bytes(engine_hash) + u64_le_bytes(module_modified) + compiled@,
{
    let mut out: Vec<u8> = Vec::new();
    write_u64_le(&mut out, engine_hash);
    write_u64_le(&mut out, module_modified);
    let mut i: usize = 0;
    while i < compiled.len()
        invariant
            i <= compiled@.len(),
            out@ == u64_le_bytes(engine_hash) + u64_le_bytes(module_modified)
                + compiled@.subrange(0, i as int),
        decreases compiled@.len() - i,
    {
        out.push(compiled[i]);
        i = i + 1;
        proof {
            assert(out@ =~= u64_le_bytes(engine_hash) + u64_le_bytes(module_modified)
                + compiled@.subrange(0, i as int));
        }
    }
    proof {
        assert(compiled@.subrange(0, compiled@.len() as int) =~= compiled@);
    }
    out
}

/// Validates a cache file image against the current engine fingerprint and
/// module modification time, and hands back the compiled payload on a match.
/// Fails exactly when a prefix integer differs, naming the first mismatch.
pub fn read_compiled(cache: &[u8], engine_hash: u64, module_modified: u64) -> (r: Result<
    Vec<u8>,
    HostError,
>)
    ensures
        r is Ok <==> cache_engine_value(cache@) == engine_hash && cache_modified_value(cache@)
            == module_modified,
        r matches Ok(payload) ==> payload@ == cache_payload(cache@),
        r matches Err(e) ==> e is CacheEngineMismatch || e is CacheModifiedMismatch,
        cache_engine_value(cache@) != engine_hash ==> (r matches Err(e) && e
            is CacheEngineMismatch),
    {
    let first = read_u64_le(cache);
    if first != engine_hash {
        return Err(HostError::CacheEngineMismatch);
    }
    let second = if cache.len() <= 8 {
        proof {
            assert(take_padded(tail_from(cache@, 8), 8) =~= Seq::new(8, |i: int| 0u8));
        }
        0u64
    } else {
        let tail = &cache[8..cache.len()];
        proof {
            assert(take_padded(tail@, 8) =~= take_padded(tail_from(cache@, 8), 8));
        }
        read_u64_le(tail)
    };
    if second != module_modified {
        return Err(HostError::CacheModifiedMismatch);
    }
    let mut payload: Vec<u8> = Vec::new();
    let mut i: usize = 16;
    while i < cache.len()
        invariant
            16 <= i <= cache@.len() || (i == 16 && cache@.len() <= 16),
            payload@ =~= (if cache@.len() <= 16 {
                Seq::<u8>::empty()
            } else {
                cache@.subrange(16, i as int)
            }),
        decreases cache@.len() - i,
    {
        payload.push(cache[i]);
        i = i + 1;
    }
    proof {
        assert(payload@ =~= cache_payload(cache@));
    }
    Ok(payload)
}

/// Round trip of the cache format: a cache file built from a fingerprint, a
/// modification time and a compiled image is accepted by the reader exactly
/// when checked against the same fingerprint and time, and then yields the
/// same compiled image.
pub proof fn lemma_cache_round_trip(engine_hash: u64, module_modified: u64, compiled: Seq<u8>)
    ensures
        ({
            let file = u64_le_bytes(engine_hash) + u64_le_bytes(module_modified) + compiled;
            &&& cache_engine_value(file) == engine_hash
            &&& cache_modified_value(file) == module_modified
            &&& cache_payload(file) == compiled
        }),
{
    let file = u64_le_bytes(engine_hash) + u64_le_bytes(module_modified) + compiled;
    assert(take_padded(file, 8) =~= u64_le_bytes(engine_hash));
    assert(take_padded(tail_from(file, 8), 8) =~= u64_le_bytes(module_modified));
    assert(cache_payload(file) =~= compiled);
    lemma_le_round_trip(engine_hash);
    lemma_le_round_trip(module_modified);
}

/// Little-endian encoding then decoding yields the value back.
pub proof fn lemma_le_round_trip(v: u64)
    ensures
        le_u64_value(u64_le_bytes(v)) == v,
{
    assert((v & 0xff) < 0x100 && ((v >> 8) & 0xff) < 0x100 && ((v >> 16) & 0xff) < 0x100 && ((v
        >> 24) & 0xff) < 0x100 && ((v >> 32) & 0xff) < 0x100 && ((v >> 40) & 0xff) < 0x100 && ((v
        >> 48) & 0xff) < 0x100 && ((v >> 56) & 0xff) < 0x100) by (bit_vector);
    assert((v & 0xff) + 0x100 * ((v >> 8) & 0xff) + 0x1_0000 * ((v >> 16) & 0xff) + 0x100_0000 * ((
    v >> 24) & 0xff) + 0x1_0000_0000 * ((v >> 32) & 0xff) + 0x100_0000_0000 * ((v >> 40) & 0xff)
        + 0x1_0000_0000_0000 * ((v >> 48) & 0xff) + 0x100_0000_0000_0000 * ((v >> 56) & 0xff)
        == v) by (bit_vector);
}

} // verus!
