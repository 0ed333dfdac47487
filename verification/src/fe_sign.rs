//! Front-end signature (`feSign`): a MurmurHash3 x64/128 digest of the
//! browser fingerprint string, rendered as 32 lowercase hex digits.

use vstd::prelude::*;
use vstd::utf8::encode_utf8;
use crate::text::{hex_digit, is_lower_hex_digit, push_char, hex_char};
use crate::outside::random_u32_in;

verus! {

/// The web-view user agent the signature is computed for.
pub const WEBVIEW_UA: &'static str = "Mozilla/5.0 (Linux; Android 12; SM-S9080; wv) AppleWebKit/537.36 (KHTML, like Gecko) Version/4.0 Chrome/101.0.4951.61 Safari/537.36 BiliApp/8430300 mobi_app/android isNotchWindow/0 NotchHeight=24 mallVersion/8430300 mVersion/312 disable_rcmd/0 magent/BILI_H5_ANDROID_12_8.43.0_8430300";

/// The screen description that goes into the signature input.
pub const SCREEN_INFO: &'static str = "1699*834*24";

pub open spec fn c1() -> u64 {
    0x87c37b91114253d5u64
}

pub open spec fn c2() -> u64 {
    0x4cf5ad432745937fu64
}

/// Rotation of a 64-bit word to the left by `r` bits (0 < r < 64).
pub open spec fn rotl64(x: u64, r: u64) -> u64 {
    (x << r) | (x >> ((64 - r) as u64))
}

/// The MurmurHash3 64-bit finalizer.
pub open spec fn spec_fmix64(k: u64) -> u64 {
    let k1 = k ^ (k >> 33u64);
    let k2 = k1.wrapping_mul(0xff51afd7ed558ccdu64);
    let k3 = k2 ^ (k2 >> 33u64);
    let k4 = k3.wrapping_mul(0xc4ceb9fe1a85ec53u64);
    k4 ^ (k4 >> 33u64)
}

/// The inverse of `spec_fmix64`: each step undone in reverse order (a right
/// xor-shift by 33 is its own inverse on 64 bits, and the multipliers are
/// odd, with inverses `0x4f74430c22a54005` and `0x9cb4b2f8129337db`).
pub open spec fn spec_unfmix64(h: u64) -> u64 {
    let k4 = h ^ (h >> 33u64);
    let k3 = k4.wrapping_mul(0x9cb4b2f8129337dbu64);
    let k2 = k3 ^ (k3 >> 33u64);
    let k1 = k2.wrapping_mul(0x4f74430c22a54005u64);
    k1 ^ (k1 >> 33u64)
}

proof fn lemma_xorshift33_undo(x: u64)
    ensures
        (x ^ (x >> 33u64)) ^ ((x ^ (x >> 33u64)) >> 33u64) == x,
{
    assert((x ^ (x >> 33u64)) ^ ((x ^ (x >> 33u64)) >> 33u64) == x) by (bit_vector);
}

/// Multiplying by `c` and then by `ci` modulo 2^64 gives `x` back where
/// `c * ci` is 1 modulo 2^64.
proof fn lemma_wrapping_mul_undo(x: u64, c: u64, ci: u64, k: int)
    requires
        k >= 0,
        c * ci == 1 + k * 0x1_0000_0000_0000_0000,
    ensures
        x.wrapping_mul(c).wrapping_mul(ci) == x,
{
    let m: int = 0x1_0000_0000_0000_0000;
    let y = x.wrapping_mul(c);
    assert(y as int == (x as int * c as int) % m);
    vstd::arithmetic::div_mod::lemma_mul_mod_noop_left(x as int * c as int, ci as int, m);
    vstd::arithmetic::mul::lemma_mul_is_associative(x as int, c as int, ci as int);
    assert(x as int * (c as int * ci as int) == m * (x as int * k) + x as int) by (nonlinear_arith)
        requires
            c as int * ci as int == 1 + k * m,
    ;
    vstd::arithmetic::div_mod::lemma_mod_multiples_vanish(x as int * k, x as int, m);
    vstd::arithmetic::div_mod::lemma_small_mod(x as nat, m as nat);
    assert(y.wrapping_mul(ci) as int == (y as int * ci as int) % m);
}

/// The finalizer is invertible: `spec_unfmix64` undoes it.
pub proof fn law_fmix64_invertible(k: u64)
    ensures
        spec_unfmix64(spec_fmix64(k)) == k,
{
    let k1 = k ^ (k >> 33u64);
    let k2 = k1.wrapping_mul(0xff51afd7ed558ccdu64);
    let k3 = k2 ^ (k2 >> 33u64);
    let k4 = k3.wrapping_mul(0xc4ceb9fe1a85ec53u64);
    let h = k4 ^ (k4 >> 33u64);
    lemma_xorshift33_undo(k4);
    assert(0xc4ceb9fe1a85ec53u64 * 0x9cb4b2f8129337dbu64 == 1 + 8680939279959119233int * 0x1_0000_0000_0000_0000);
    lemma_wrapping_mul_undo(k3, 0xc4ceb9fe1a85ec53u64, 0x9cb4b2f8129337dbu64, 8680939279959119233);
    lemma_xorshift33_undo(k2);
    assert(0xff51afd7ed558ccdu64 * 0x4f74430c22a54005u64 == 1 + 5710046619856821070int * 0x1_0000_0000_0000_0000);
    lemma_wrapping_mul_undo(k1, 0xff51afd7ed558ccdu64, 0x4f74430c22a54005u64, 5710046619856821070);
    lemma_xorshift33_undo(k);
}

/// Different words finalize differently, and 0 finalizes to 0.
pub proof fn law_fmix64_injective(a: u64, b: u64)
    ensures
        spec_fmix64(a) == spec_fmix64(b) ==> a == b,
        spec_fmix64(0) == 0,
{
    law_fmix64_invertible(a);
    law_fmix64_invertible(b);
    assert(spec_fmix64(0) == 0) by {
        assert(0u64 >> 33u64 == 0u64) by (bit_vector);
        assert(0u64 ^ 0u64 == 0u64) by (bit_vector);
    }
}

/// Little-endian value of at most eight bytes.
pub open spec fn le_word(b: Seq<u8>) -> u64
    decreases b.len(),
{
    if b.len() == 0 {
        0
    } else {
        (b[0] as u64) | (le_word(b.drop_first()) << 8u64)
    }
}

pub open spec fn mix_k1(k: u64) -> u64 {
    rotl64(k.wrapping_mul(c1()), 31).wrapping_mul(c2())
}

pub open spec fn mix_k2(k: u64) -> u64 {
    rotl64(k.wrapping_mul(c2()), 33).wrapping_mul(c1())
}

/// One 16-byte round of the hash on the state `(h1, h2)`.
pub open spec fn block_round(h1: u64, h2: u64, k1: u64, k2: u64) -> (u64, u64) {
    let a = h1 ^ mix_k1(k1);
    let b = rotl64(a, 27).wrapping_add(h2);
    let n1 = b.wrapping_mul(5).wrapping_add(0x52dce729);
    let c = h2 ^ mix_k2(k2);
    let d = rotl64(c, 31).wrapping_add(n1);
    let n2 = d.wrapping_mul(5).wrapping_add(0x38495ab5);
    (n1, n2)
}

/// State after the first `n` full 16-byte blocks of `data`.
pub open spec fn hash_blocks(data: Seq<u8>, n: nat, seed: u32) -> (u64, u64)
    decreases n,
{
    if n == 0 {
        (seed as u64, seed as u64)
    } else {
        let (h1, h2) = hash_blocks(data, (n - 1) as nat, seed);
        let base = 16 * (n - 1);
        block_round(
            h1,
            h2,
            le_word(data.subrange(base, base + 8)),
            le_word(data.subrange(base + 8, base + 16)),
        )
    }
}

/// Mixing in the last `data.len() % 16` bytes.
pub open spec fn hash_tail(h1: u64, h2: u64, tail: Seq<u8>) -> (u64, u64) {
    let n2 = if tail.len() >= 9 {
        h2 ^ mix_k2(le_word(tail.subrange(8, tail.len() as int)))
    } else {
        h2
    };
    let n1 = if tail.len() >= 1 {
        h1 ^ mix_k1(le_word(tail.subrange(0, if tail.len() < 8 { tail.len() as int } else { 8 })))
    } else {
        h1
    };
    (n1, n2)
}

/// Length mixing and finalization.
pub open spec fn hash_finish(h1: u64, h2: u64, len: u64) -> (u64, u64) {
    let a1 = h1 ^ len;
    let a2 = h2 ^ len;
    let b1 = a1.wrapping_add(a2);
    let b2 = a2.wrapping_add(b1);
    let f1 = spec_fmix64(b1);
    let f2 = spec_fmix64(b2);
    let r1 = f1.wrapping_add(f2);
    let r2 = f2.wrapping_add(r1);
    (r1, r2)
}

/// MurmurHash3 x64/128 of a byte string with a 32-bit seed.
pub open spec fn murmur3_x64_128(data: Seq<u8>, seed: u32) -> (u64, u64) {
    let nblocks = data.len() / 16;
    let (h1, h2) = hash_blocks(data, nblocks, seed);
    let (t1, t2) = hash_tail(h1, h2, data.subrange((16 * nblocks) as int, data.len() as int));
    hash_finish(t1, t2, data.len() as u64)
}

/// The 16 lowercase hex digits of `x`, most significant first (`{:016x}`).
pub open spec fn hex16(x: u64) -> Seq<char> {
    Seq::new(16, |i: int| hex_digit(((x >> ((60 - 4 * i) as u64)) & 0xfu64) as u8))
}

/// The string that is hashed: `canvas~webgl~screen~ua`.
pub open spec fn fe_sign_input(user_agent: Seq<char>, canvas_fp: Seq<char>, webgl_fp: Seq<char>) -> Seq<char> {
    canvas_fp + "~"@ + webgl_fp + "~"@ + SCREEN_INFO@ + "~"@ + user_agent
}

/// The signature of the given fingerprints.
pub open spec fn spec_fe_sign(user_agent: Seq<char>, canvas_fp: Seq<char>, webgl_fp: Seq<char>) -> Seq<char> {
    let (h1, h2) = murmur3_x64_128(encode_utf8(fe_sign_input(user_agent, canvas_fp, webgl_fp)), 31);
    hex16(h1) + hex16(h2)
}

fn rotl(x: u64, r: u64) -> (res: u64)
    requires
        0 < r < 64,
    ensures
        res == rotl64(x, r),
{
    (x << r) | (x >> (64 - r))
}

pub fn fmix64(k: u64) -> (r: u64)
    ensures
        r == spec_fmix64(k),
{
    let mut k = k;
    k ^= k >> 33;
    k = k.wrapping_mul(0xff51afd7ed558ccd);
    k ^= k >> 33;
    k = k.wrapping_mul(0xc4ceb9fe1a85ec53);
    k ^= k >> 33;
    k
}

/// Reads `len <= 8` bytes starting at `start` as a little-endian word.
fn read_le(data: &[u8], start: usize, len: usize) -> (r: u64)
    requires
        len <= 8,
        start + len <= data@.len(),
    ensures
        r == le_word(data@.subrange(start as int, start + len)),
{
    let dlen = data.len();
    let mut acc: u64 = 0;
    let mut j: usize = len;
    assert(data@.subrange(start + len, start + len as int) =~= Seq::<u8>::empty());
    while j > 0
        invariant
            j <= len,
            start + len <= data@.len(),
            dlen == data@.len(),
            acc == le_word(data@.subrange(start + j, start + len)),
        decreases j,
    {
        j = j - 1;
        let ghost prev = data@.subrange(start + j + 1, start + len);
        assert(data@.subrange(start + j, start + len).drop_first() =~= prev);
        acc = (data[start + j] as u64) | (acc << 8);
    }
    acc
}

fn mix1(k: u64) -> (r: u64)
    ensures
        r == mix_k1(k),
{
    let a = k.wrapping_mul(0x87c37b91114253d5);
    let b = rotl(a, 31);
    b.wrapping_mul(0x4cf5ad432745937f)
}

fn mix2(k: u64) -> (r: u64)
    ensures
        r == mix_k2(k),
{
    let a = k.wrapping_mul(0x4cf5ad432745937f);
    let b = rotl(a, 33);
    b.wrapping_mul(0x87c37b91114253d5)
}

/// MurmurHash3 x64/128 of the UTF-8 bytes of `key`.
pub fn murmur_x64_128(key: &str, seed: u32) -> (r: (u64, u64))
    ensures
        r == murmur3_x64_128(encode_utf8(key@), seed),
{
    let data = key.as_bytes();
    let len = data.len();
    let nblocks = len / 16;
    let mut h1: u64 = seed as u64;
    let mut h2: u64 = seed as u64;
    let mut i: usize = 0;
    while i < nblocks
        invariant
            len == data@.len(),
            nblocks == len / 16,
            i <= nblocks,
            (h1, h2) == hash_blocks(data@, i as nat, seed),
        decreases nblocks - i,
    {
        assert(16 * i + 16 <= len) by (nonlinear_arith)
            requires
                i < nblocks,
                nblocks == len / 16,
        ;
        let k1 = read_le(data, 16 * i, 8);
        let k2 = read_le(data, 16 * i + 8, 8);
        let a = h1 ^ mix1(k1);
        let b = rotl(a, 27).wrapping_add(h2);
        h1 = b.wrapping_mul(5).wrapping_add(0x52dce729);
        let c = h2 ^ mix2(k2);
        let d = rotl(c, 31).wrapping_add(h1);
        h2 = d.wrapping_mul(5).wrapping_add(0x38495ab5);
        i = i + 1;
    }
    assert(16 * nblocks <= len) by (nonlinear_arith)
        requires
            nblocks == len / 16,
    ;
    let start = 16 * nblocks;
    let tail_len = len - start;
    let ghost tail = data@.subrange(start as int, len as int);
    if tail_len >= 9 {
        let k2 = read_le(data, start + 8, tail_len - 8);
        assert(data@.subrange(start + 8, len as int) =~= tail.subrange(8, tail.len() as int));
        h2 = h2 ^ mix2(k2);
    }
    if tail_len >= 1 {
        let n = if tail_len < 8 {
            tail_len
        } else {
            8
        };
        let k1 = read_le(data, start, n);
        assert(data@.subrange(start as int, start + n) =~= tail.subrange(0, n as int));
        h1 = h1 ^ mix1(k1);
    }
    let l = len as u64;
    h1 = h1 ^ l;
    h2 = h2 ^ l;
    h1 = h1.wrapping_add(h2);
    h2 = h2.wrapping_add(h1);
    h1 = fmix64(h1);
    h2 = fmix64(h2);
    h1 = h1.wrapping_add(h2);
    h2 = h2.wrapping_add(h1);
    (h1, h2)
}

/// Appends the 16 lowercase hex digits of `x` to `out`.
fn push_hex16(out: &mut String, x: u64)
    ensures
        final(out)@ == old(out)@ + hex16(x),
{
    let ghost start = out@;
    let mut i: u64 = 0;
    while i < 16
        invariant
            i <= 16,
            out@ == start + hex16(x).subrange(0, i as int),
        decreases 16 - i,
    {
        let sh: u64 = 60 - 4 * i;
        let v: u64 = (x >> sh) & 0xf;
        assert(v <= 15) by (bit_vector)
            requires
                v == (x >> sh) & 0xfu64,
        ;
        let d = v as u8;
        push_char(out, hex_char(d));
        assert(hex16(x).subrange(0, i + 1) =~= hex16(x).subrange(0, i as int).push(hex16(x)[i as int]));
        i = i + 1;
    }
    assert(hex16(x).subrange(0, 16) =~= hex16(x));
}

/// Every character of a signature is a lowercase hex digit and there are 32 of them.
pub proof fn lemma_fe_sign_shape(user_agent: Seq<char>, canvas_fp: Seq<char>, webgl_fp: Seq<char>)
    ensures
        spec_fe_sign(user_agent, canvas_fp, webgl_fp).len() == 32,
        forall|i: int|
            0 <= i < 32 ==> is_lower_hex_digit(#[trigger] spec_fe_sign(user_agent, canvas_fp, webgl_fp)[i]),
{
    let (h1, h2) = murmur3_x64_128(encode_utf8(fe_sign_input(user_agent, canvas_fp, webgl_fp)), 31);
    assert forall|x: u64, i: int| 0 <= i < 16 implies is_lower_hex_digit(#[trigger] hex16(x)[i]) by {
        let sh = (60 - 4 * i) as u64;
        let v = ((x >> sh) & 0xfu64);
        assert(v <= 15) by (bit_vector)
            requires
                v == ((x >> sh) & 0xfu64),
        ;
        crate::text::lemma_hex_digit_is_hex((v as u8));
    }
    let s = hex16(h1) + hex16(h2);
    assert forall|i: int| 0 <= i < 32 implies is_lower_hex_digit(#[trigger] s[i]) by {
        if i < 16 {
            assert(s[i] == hex16(h1)[i]);
        } else {
            assert(s[i] == hex16(h2)[i - 16]);
        }
    }
}

/// `feSign` of a user agent and two canvas/WebGL fingerprints:
/// `{h1:016x}{h2:016x}` of MurmurHash3 x64/128 (seed 31) over
/// `canvas~webgl~1699*834*24~ua`.
pub fn get_fe_sign(user_agent: &str, canvas_fp: &str, webgl_fp: &str) -> (res: String)
    ensures
        res@ == spec_fe_sign(user_agent@, canvas_fp@, webgl_fp@),
        res@.len() == 32,
        forall|i: int| 0 <= i < 32 ==> is_lower_hex_digit(#[trigger] res@[i]),
{
    let mut input = String::from_str(canvas_fp);
    input.append("~");
    input.append(webgl_fp);
    input.append("~");
    input.append(SCREEN_INFO);
    input.append("~");
    input.append(user_agent);
    assert(input@ =~= fe_sign_input(user_agent@, canvas_fp@, webgl_fp@));
    let (h1, h2) = murmur_x64_128(input.as_str(), 31);
    let mut out = String::new();
    push_hex16(&mut out, h1);
    push_hex16(&mut out, h2);
    proof {
        lemma_fe_sign_shape(user_agent@, canvas_fp@, webgl_fp@);
    }
    out
}

/// 32 random lowercase hex digits (a fake canvas/WebGL fingerprint).
pub fn random_hex_32() -> (res: String)
    ensures
        res@.len() == 32,
        forall|i: int| 0 <= i < 32 ==> is_lower_hex_digit(#[trigger] res@[i]),
{
    let mut out = String::new();
    let mut i: usize = 0;
    while i < 32
        invariant
            i <= 32,
            out@.len() == i,
            forall|j: int| 0 <= j < i ==> is_lower_hex_digit(#[trigger] out@[j]),
        decreases 32 - i,
    {
        let d = random_u32_in(0, 16);
        proof {
            crate::text::lemma_hex_digit_is_hex(d as u8);
        }
        push_char(&mut out, hex_char(d as u8));
        i = i + 1;
    }
    out
}

} // verus!
