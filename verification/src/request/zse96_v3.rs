//! The `x-zse-96` request signature (version 3 of the scheme).
//!
//! The signature is the MD5 digest of the request path, query and the
//! `d_c0` cookie, hex encoded, padded, enciphered with a 128-bit block
//! cipher in CBC mode and finally written out with a 64-letter alphabet.
use crate::util::address::{opt_view, parse_url, url_parts};
use crate::util::text::{encode_byte_lower, hex_lower, push_char};
use vstd::prelude::*;
use vstd::utf8::encode_utf8;

verus! {

/// The substitution box of the block cipher.
pub const H_ZB: [u8; 256] = [
    0x14, 0xdf, 0xf5, 0x07, 0xf8, 0x02, 0xc2, 0xd1, 0x57, 0x06, 0xe3, 0xfd, 0xf0, 0x80,
    0xde, 0x5b, 0xed, 0x09, 0x7d, 0x9d, 0xe6, 0x5d, 0xfc, 0xcd, 0x5a, 0x4f, 0x90, 0xc7,
    0x9f, 0xc5, 0xba, 0xa7, 0x27, 0x25, 0x9c, 0xc6, 0x26, 0x2a, 0x2b, 0xa8, 0xd9, 0x99,
    0x0f, 0x67, 0x50, 0xbd, 0x47, 0xbf, 0x61, 0x54, 0xf7, 0x5f, 0x24, 0x45, 0x0e, 0x23,
    0x0c, 0xab, 0x1c, 0x72, 0xb2, 0x94, 0x56, 0xb6, 0x20, 0x53, 0x9e, 0x6d, 0x16, 0xff,
    0x5e, 0xee, 0x97, 0x55, 0x4d, 0x7c, 0xfe, 0x12, 0x04, 0x1a, 0x7b, 0xb0, 0xe8, 0xc1,
    0x83, 0xac, 0x8f, 0x8e, 0x96, 0x1e, 0x0a, 0x92, 0xa2, 0x3e, 0xe0, 0xda, 0xc4, 0xe5,
    0x01, 0xc0, 0xd5, 0x1b, 0x6e, 0x38, 0xe7, 0xb4, 0x8a, 0x6b, 0xf2, 0xbb, 0x36, 0x78,
    0x13, 0x2c, 0x75, 0xe4, 0xd7, 0xcb, 0x35, 0xef, 0xfb, 0x7f, 0x51, 0x0b, 0x85, 0x60,
    0xcc, 0x84, 0x29, 0x73, 0x49, 0x37, 0xf9, 0x93, 0x66, 0x30, 0x7a, 0x91, 0x6a, 0x76,
    0x4a, 0xbe, 0x1d, 0x10, 0xae, 0x05, 0xb1, 0x81, 0x3f, 0x71, 0x63, 0x1f, 0xa1, 0x4c,
    0xf6, 0x22, 0xd3, 0x0d, 0x3c, 0x44, 0xcf, 0xa0, 0x41, 0x6f, 0x52, 0xa5, 0x43, 0xa9,
    0xe1, 0x39, 0x70, 0xf4, 0x9b, 0x33, 0xec, 0xc8, 0xe9, 0x3a, 0x3d, 0x2f, 0x64, 0x89,
    0xb9, 0x40, 0x11, 0x46, 0xea, 0xa3, 0xdb, 0x6c, 0xaa, 0xa6, 0x3b, 0x95, 0x34, 0x69,
    0x18, 0xd4, 0x4e, 0xad, 0x2d, 0x00, 0x74, 0xe2, 0x77, 0x88, 0xce, 0x87, 0xaf, 0xc3,
    0x19, 0x5c, 0x79, 0xd0, 0x7e, 0x8b, 0x03, 0x4b, 0x8d, 0x15, 0x82, 0x62, 0xf1, 0x28,
    0x9a, 0x42, 0xb8, 0x31, 0xb5, 0x2e, 0xf3, 0x58, 0x65, 0xb7, 0x08, 0x17, 0x48, 0xbc,
    0x68, 0xb3, 0xd2, 0x86, 0xfa, 0xc9, 0xa4, 0x59, 0xd8, 0xca, 0xdc, 0x32, 0xdd, 0x98,
    0x8c, 0x21, 0xeb, 0xd6,];

/// The round keys of the block cipher.
pub const H_ZK: [u32; 32] = [
    0x45c62932, 0x3d15f2fe, 0x5442e14f, 0xeb8921c0, 0xd256542e, 0xae28cbde,
    0xf7782b08, 0xee48a883, 0x733e8d1a, 0xc61cdffb, 0xe7c6016a, 0x1b713876,
    0xdf5eeb0a, 0x8f44a6ca, 0x9beb07a3, 0x7e564e94, 0x870bcbcb, 0x794d026c,
    0xa54f723a, 0xffaabf19, 0xfb5d9cc3, 0x832a8363, 0xb5e884fa, 0x5e2b60cf,
    0x4ec93b52, 0x1b3a7714, 0xad0d330f, 0xf2551fdf, 0x13ab7196, 0xd0f96ade,
    0x15ab9f7d, 0x8be5d87b,];

/// Rotation of a word to the left by `t` bits.
pub open spec fn rotl(e: u32, t: u32) -> u32
    recommends
        0 < t < 32,
{
    (e << t) | (e >> (32 - t) as u32)
}

/// The byte `k` (0 is the most significant) of a word.
pub open spec fn word_byte(e: u32, k: int) -> u8 {
    (e >> (8 * (3 - k)) as u32) as u8
}

/// The word whose big-endian bytes are `b0 b1 b2 b3`.
pub open spec fn word_of(b0: u8, b1: u8, b2: u8, b3: u8) -> u32 {
    ((b0 as u32) << 24u32) | ((b1 as u32) << 16u32) | ((b2 as u32) << 8u32) | (b3 as u32)
}

/// Each byte of the word replaced through the substitution box.
pub open spec fn substitute(e: u32) -> u32 {
    word_of(
        H_ZB@[word_byte(e, 0) as int],
        H_ZB@[word_byte(e, 1) as int],
        H_ZB@[word_byte(e, 2) as int],
        H_ZB@[word_byte(e, 3) as int],
    )
}

/// The linear diffusion step applied after substitution.
pub open spec fn diffuse(r: u32) -> u32 {
    r ^ rotl(r, 2) ^ rotl(r, 10) ^ rotl(r, 18) ^ rotl(r, 24)
}

/// The round function: substitution followed by diffusion.
pub open spec fn spec_g(e: u32) -> u32 {
    diffuse(substitute(e))
}

fn q(e: u32, t: u32) -> (r: u32)
    requires
        0 < t < 32,
    ensures
        r == rotl(e, t),
{
    (e << t) | (e >> (32 - t))
}

/// The round function of the block cipher.
pub fn g(e: u32) -> (r: u32)
    ensures
        r == spec_g(e),
{
    let b0 = H_ZB[((e >> 24u32) as u8) as usize];
    let b1 = H_ZB[((e >> 16u32) as u8) as usize];
    let b2 = H_ZB[((e >> 8u32) as u8) as usize];
    let b3 = H_ZB[((e >> 0u32) as u8) as usize];
    let r: u32 = ((b0 as u32) << 24u32) | ((b1 as u32) << 16u32) | ((b2 as u32) << 8u32) | (b3 as u32);
    r ^ q(r, 2) ^ q(r, 10) ^ q(r, 18) ^ q(r, 24)
}

/// The four big-endian bytes of a word.
pub open spec fn word_bytes(w: u32) -> Seq<u8> {
    seq![word_byte(w, 0), word_byte(w, 1), word_byte(w, 2), word_byte(w, 3)]
}

/// The word made of the bytes `k .. k + 4` of `p`.
pub open spec fn word_at(p: Seq<u8>, k: int) -> u32 {
    word_of(p[k], p[k + 1], p[k + 2], p[k + 3])
}

/// The cipher state after the first `k` rounds, starting from `(a, b, c, d)`.
///
/// Each round shifts the state by one word and appends
/// `a ^ g(b ^ c ^ d ^ key)`.
pub open spec fn rounds(a: u32, b: u32, c: u32, d: u32, k: nat) -> (u32, u32, u32, u32)
    decreases k,
{
    if k == 0 {
        (a, b, c, d)
    } else {
        let s = rounds(a, b, c, d, (k - 1) as nat);
        (s.1, s.2, s.3, s.0 ^ spec_g(s.1 ^ s.2 ^ s.3 ^ H_ZK@[k - 1]))
    }
}

/// One 16-byte block enciphered: 32 rounds, then the last four state words
/// written out in reverse order.
pub open spec fn encipher_block(p: Seq<u8>) -> Seq<u8>
    recommends
        p.len() == 16,
{
    let s = rounds(word_at(p, 0), word_at(p, 4), word_at(p, 8), word_at(p, 12), 32);
    word_bytes(s.3) + word_bytes(s.2) + word_bytes(s.1) + word_bytes(s.0)
}

/// Byte-wise exclusive or of two sequences (as long as the first).
pub open spec fn xor_bytes(a: Seq<u8>, b: Seq<u8>) -> Seq<u8> {
    Seq::new(a.len(), |i: int| a[i] ^ b[i])
}

/// Cipher block chaining over whole 16-byte blocks: each block is xored with
/// the previous cipher block (the first with `iv`) before it is enciphered.
pub open spec fn cbc_encipher(data: Seq<u8>, iv: Seq<u8>) -> Seq<u8>
    decreases data.len(),
{
    if data.len() < 16 {
        Seq::empty()
    } else {
        let c = encipher_block(xor_bytes(data.take(16), iv));
        c + cbc_encipher(data.skip(16), c)
    }
}

fn push_word(dest: &mut Vec<u8>, w: u32)
    ensures
        final(dest)@ == old(dest)@ + word_bytes(w),
{
    dest.push((w >> 24u32) as u8);
    dest.push((w >> 16u32) as u8);
    dest.push((w >> 8u32) as u8);
    dest.push((w >> 0u32) as u8);
    assert(dest@ =~= old(dest)@ + word_bytes(w));
}

fn read_word(e: &[u8], k: usize) -> (r: u32)
    requires
        k + 4 <= e@.len(),
    ensures
        r == word_at(e@, k as int),
{
    ((e[k] as u32) << 24u32) | ((e[k + 1] as u32) << 16u32) | ((e[k + 2] as u32) << 8u32) | (e[k + 3] as u32)
}

/// Enciphers one 16-byte block.
pub fn g_r(e: &[u8]) -> (r: Vec<u8>)
    requires
        e@.len() == 16,
    ensures
        r@ == encipher_block(e@),
{
    let ghost w0 = word_at(e@, 0);
    let ghost w1 = word_at(e@, 4);
    let ghost w2 = word_at(e@, 8);
    let ghost w3 = word_at(e@, 12);
    let mut a = read_word(e, 0);
    let mut b = read_word(e, 4);
    let mut c = read_word(e, 8);
    let mut d = read_word(e, 12);
    let mut i: usize = 0;
    while i < 32
        invariant
            0 <= i <= 32,
            (a, b, c, d) == rounds(w0, w1, w2, w3, i as nat),
        decreases 32 - i,
    {
        let n = a ^ g(b ^ c ^ d ^ H_ZK[i]);
        a = b;
        b = c;
        c = d;
        d = n;
        i = i + 1;
    }
    let mut r: Vec<u8> = Vec::new();
    push_word(&mut r, d);
    push_word(&mut r, c);
    push_word(&mut r, b);
    push_word(&mut r, a);
    assert(r@ =~= encipher_block(e@));
    r
}

/// Enciphers two 16-byte blocks in CBC mode with the initial vector `t`.
pub fn g_x(e: &[u8], t: &[u8]) -> (r: Vec<u8>)
    requires
        e@.len() == 32,
        t@.len() == 16,
    ensures
        r@ == cbc_encipher(e@, t@),
{
    let mut v: Vec<u8> = Vec::new();
    let mut i: usize = 0;
    while i < 16
        invariant
            0 <= i <= 16,
            e@.len() == 32,
            t@.len() == 16,
            v@ =~= xor_bytes(e@.take(16), t@).take(i as int),
        decreases 16 - i,
    {
        v.push(e[i] ^ t[i]);
        i = i + 1;
    }
    let mut r = g_r(v.as_slice());
    let mut w: Vec<u8> = Vec::new();
    let mut j: usize = 0;
    while j < 16
        invariant
            0 <= j <= 16,
            e@.len() == 32,
            r@.len() == 16,
            w@ =~= xor_bytes(e@.skip(16).take(16), r@).take(j as int),
        decreases 16 - j,
    {
        w.push(e[j + 16] ^ r[j]);
        j = j + 1;
    }
    let second = g_r(w.as_slice());
    proof {
        let c1 = encipher_block(xor_bytes(e@.take(16), t@));
        let rest = e@.skip(16);
        assert(v@ =~= xor_bytes(e@.take(16), t@));
        assert(w@ =~= xor_bytes(rest.take(16), c1));
        assert(rest.skip(16).len() == 0);
        assert(cbc_encipher(rest.skip(16), second@) == Seq::<u8>::empty());
        assert(cbc_encipher(rest, c1) =~= second@ + Seq::<u8>::empty());
    }
    r.extend_from_slice(second.as_slice());
    assert(r@ =~= cbc_encipher(e@, t@));
    r
}

/// The ASCII text xored (together with 42) into the first plaintext block.
pub const TABLE: [u8; 16] = [
    0x30, 0x35, 0x39, 0x30, 0x35, 0x33, 0x66, 0x37, 0x64, 0x31, 0x35, 0x65, 0x30, 0x31, 0x64, 0x37,
];

/// The alphabet of the final textual encoding.
pub const TABLE_55: [char; 65] = [
    '6', 'f', 'p', 'L', 'R', 'q', 'J', 'O', '8', 'M', '/', 'c', '3', 'j', 'n', 'Y',
    'x', 'F', 'k', 'U', 'V', 'C', '4', 'Z', 'I', 'G', '1', '2', 'S', 'i', 'H', '=',
    '5', 'v', '0', 'm', 'X', 'D', 'a', 'z', 'W', 'B', 'T', 's', 'u', 'w', '7', 'Q',
    'e', 't', 'b', 'K', 'd', 'o', 'P', 'y', 'A', 'l', '+', 'h', 'N', '9', 'r', 'g',
    'E',
];

/// The 48-byte plaintext: the bytes 63 and 0, the hex text of the digest,
/// and 14 padding bytes of value 14.
pub open spec fn framed_digest(d: Seq<u8>) -> Seq<u8> {
    seq![63u8, 0u8] + hex_lower(d) + Seq::new(14, |i: int| 14u8)
}

/// The initial vector of the chaining: the bytes of `TABLE` xored with 42.
pub open spec fn cbc_iv() -> Seq<u8> {
    Seq::new(16, |i: int| TABLE@[i] ^ 42u8)
}

/// Byte number `k` of the ciphertext in encoding order (last byte first),
/// xored with 58 at every fourth position.
pub open spec fn masked_byte(c: Seq<u8>, k: int) -> u32 {
    (c[47 - k] as u32) ^ (if k % 4 == 0 { 58u32 } else { 0u32 })
}

/// The 24-bit group `j`: three masked bytes, least significant first.
pub open spec fn group_value(c: Seq<u8>, j: int) -> u32 {
    masked_byte(c, 3 * j) | (masked_byte(c, 3 * j + 1) << 8u32) | (masked_byte(c, 3 * j + 2)
        << 16u32)
}

/// Letter `i` of the encoding: the 6-bit digits of each group, least
/// significant first, looked up in `TABLE_55`.
pub open spec fn letter(c: Seq<u8>, i: int) -> char {
    TABLE_55@[((group_value(c, i / 4) >> (6 * (i % 4)) as u32) & 63u32) as int]
}

/// The signature text of a 16-byte digest.
pub open spec fn spec_encode_zse96(d: Seq<u8>) -> Seq<char> {
    let c = cbc_encipher(framed_digest(d), cbc_iv());
    seq!['2', '.', '0', '_'] + Seq::new(64, |i: int| letter(c, i))
}

fn l58(l53: &[u8], l56: u32, i: usize) -> (r: u32)
    requires
        i < l53@.len(),
    ensures
        r == (l53@[i as int] as u32) ^ (if l56 % 4 == 0 { 58u32 } else { 0u32 }),
{
    assert((l56 & 3u32) <= 3u32 && ((58u32 >> ((8 * (l56 & 3u32)) % 32)) & 255u32) == (if l56 % 4
        == 0 {
        58u32
    } else {
        0u32
    })) by (bit_vector);
    let sh: u32 = (8 * (l56 & 3)) % 32;
    (l53[i] as u32) ^ ((58u32 >> sh) & 255u32)
}

/// The framed plaintext of a digest (see `framed_digest`).
fn frame_digest(d: &[u8; 16]) -> (l50: Vec<u8>)
    ensures
        l50@ == framed_digest(d@),
{
    let mut l50: Vec<u8> = Vec::new();
    l50.push(63u8);
    l50.push(0u8);
    let mut i: usize = 0;
    while i < 16
        invariant
            0 <= i <= 16,
            d@.len() == 16,
            l50@ =~= seq![63u8, 0u8] + hex_lower(d@.take(i as int)),
        decreases 16 - i,
    {
        let h = encode_byte_lower(d[i]);
        l50.push(h[0]);
        l50.push(h[1]);
        proof {
            assert(d@.take(i + 1).take(i as int) =~= d@.take(i as int));
        }
        i = i + 1;
    }
    assert(d@.take(16) =~= d@);
    while l50.len() < 48
        invariant
            34 <= l50@.len() <= 48,
            l50@.take(34) =~= seq![63u8, 0u8] + hex_lower(d@),
            forall|k: int| 34 <= k < l50@.len() ==> l50@[k] == 14u8,
        decreases 48 - l50@.len(),
    {
        let ghost before = l50@;
        l50.push(14u8);
        assert(l50@.take(34) =~= before.take(34));
    }
    assert(l50@ =~= framed_digest(d@));
    l50
}

/// The 48-byte plaintext enciphered in CBC mode with `cbc_iv()`.
fn encipher(mut l50: Vec<u8>) -> (l53: Vec<u8>)
    requires
        l50@.len() == 48,
    ensures
        l53@ == cbc_encipher(l50@, cbc_iv()),
        l53@.len() == 48,
{
    let mut first: Vec<u8> = Vec::new();
    let mut j: usize = 0;
    while j < 16
        invariant
            0 <= j <= 16,
            l50@.len() == 48,
            first@ =~= xor_bytes(l50@.take(16), cbc_iv()).take(j as int),
        decreases 16 - j,
    {
        first.push(l50[j] ^ (TABLE[j] ^ 42u8));
        j = j + 1;
    }
    let ghost plain = l50@;
    let tail = l50.split_off(16);
    let mut l53 = g_r(first.as_slice());
    let rest = g_x(tail.as_slice(), l53.as_slice());
    proof {
        assert(first@ =~= xor_bytes(plain.take(16), cbc_iv()));
        assert(tail@ =~= plain.skip(16));
        assert(rest@ == cbc_encipher(plain.skip(16), l53@));
        lemma_cbc_length(plain.skip(16), l53@);
    }
    l53.extend_from_slice(rest.as_slice());
    assert(l53@ =~= cbc_encipher(plain, cbc_iv()));
    l53
}

/// Chaining yields one 16-byte block per whole input block.
proof fn lemma_cbc_length(data: Seq<u8>, iv: Seq<u8>)
    ensures
        cbc_encipher(data, iv).len() == 16 * (data.len() / 16),
    decreases data.len(),
{
    if data.len() >= 16 {
        let c = encipher_block(xor_bytes(data.take(16), iv));
        lemma_cbc_length(data.skip(16), c);
    }
}

/// The textual encoding of the 48 cipher bytes.
fn letters(l53: &[u8]) -> (l57: String)
    requires
        l53@.len() == 48,
    ensures
        l57@ == seq!['2', '.', '0', '_'] + Seq::new(64, |i: int| letter(l53@, i)),
{
    let ghost c = l53@;
    let mut l57 = String::new();
    push_char(&mut l57, '2');
    push_char(&mut l57, '.');
    push_char(&mut l57, '0');
    push_char(&mut l57, '_');
    let mut l56: u32 = 0;
    let mut l13: usize = 47;
    let mut k: usize = 0;
    while k < 16
        invariant
            0 <= k <= 16,
            l53@ == c,
            c.len() == 48,
            l56 == 3 * k,
            l13 + 3 * k == 47 || (k == 16 && l13 == 2),
            l57@ =~= seq!['2', '.', '0', '_'] + Seq::new(4 * k as nat, |i: int| letter(c, i)),
        decreases 16 - k,
    {
        let x0 = l58(l53, l56, l13);
        let x1 = l58(l53, l56 + 1, l13 - 1);
        let x2 = l58(l53, l56 + 2, l13 - 2);
        let l59: u32 = x0 | (x1 << 8u32) | (x2 << 16u32);
        assert(l59 == group_value(c, k as int));
        assert((l59 & 63u32) < 64 && ((l59 >> 6u32) & 63u32) < 64 && ((l59 >> 12u32) & 63u32) < 64
            && ((l59 >> 18u32) & 63u32) < 64 && (l59 >> 0u32) == l59) by (bit_vector);
        let ghost before = l57@;
        push_char(&mut l57, TABLE_55[(l59 & 63u32) as usize]);
        push_char(&mut l57, TABLE_55[((l59 >> 6u32) & 63u32) as usize]);
        push_char(&mut l57, TABLE_55[((l59 >> 12u32) & 63u32) as usize]);
        push_char(&mut l57, TABLE_55[((l59 >> 18u32) & 63u32) as usize]);
        proof {
            let b = 4 * k as int;
            assert(b / 4 == k && (b + 1) / 4 == k && (b + 2) / 4 == k && (b + 3) / 4 == k);
            assert(b % 4 == 0 && (b + 1) % 4 == 1 && (b + 2) % 4 == 2 && (b + 3) % 4 == 3);
            assert(letter(c, b) == TABLE_55@[(l59 & 63u32) as int]);
            assert(letter(c, b + 1) == TABLE_55@[((l59 >> 6u32) & 63u32) as int]);
            assert(letter(c, b + 2) == TABLE_55@[((l59 >> 12u32) & 63u32) as int]);
            assert(letter(c, b + 3) == TABLE_55@[((l59 >> 18u32) & 63u32) as int]);
            assert(l57@ =~= before + seq![letter(c, b), letter(c, b + 1), letter(c, b + 2), letter(c, b + 3)]);
        }
        l56 = l56 + 3;
        if k < 15 {
            l13 = l13 - 3;
        }
        k = k + 1;
    }
    l57
}

/// The `x-zse-96` signature text of a 16-byte MD5 digest.
pub fn encode_zse96(d: &[u8; 16]) -> (r: String)
    ensures
        r@ == spec_encode_zse96(d@),
{
    let l50 = frame_digest(d);
    let l53 = encipher(l50);
    letters(l53.as_slice())
}

/// The MD5 digest of a byte string, as the `md-5` crate computes it.
pub uninterp spec fn md5_digest(data: Seq<u8>) -> Seq<u8>;

/// The path and the query (if any) of a URL, as the `url` crate parses it;
/// `None` where the text is no valid URL.
pub open spec fn url_path_and_query(input: Seq<char>) -> Option<(Seq<char>, Option<Seq<char>>)> {
    match url_parts(input) {
        Some(u) => Some((u.path, u.query)),
        None => None,
    }
}

/// `<md5::Md5 as md5::Digest>::digest` (crate `md-5`): the 16-byte MD5 digest
/// of `data`. Its value is named by `md5_digest`, nothing more is claimed.
#[verifier::external_body]
fn md5(data: &[u8]) -> (r: [u8; 16])
    ensures
        r@ == md5_digest(data@),
{
    <md5::Md5 as md5::Digest>::digest(data).into()
}

/// The text whose MD5 digest is signed: `101_3_3.0+`, the path, `?` and the
/// query when there is one, `+`, and the `d_c0` cookie value.
pub open spec fn spec_digest_input(path: Seq<char>, query: Option<Seq<char>>, d_c0: Seq<char>) -> Seq<
    char,
> {
    "101_3_3.0+"@ + path + match query {
        Some(q) => "?"@ + q,
        None => Seq::empty(),
    } + "+"@ + d_c0
}

/// The signature of a request with the given path, query and `d_c0` cookie.
pub open spec fn spec_signature(path: Seq<char>, query: Option<Seq<char>>, d_c0: Seq<char>) -> Seq<
    char,
> {
    spec_encode_zse96(md5_digest(encode_utf8(spec_digest_input(path, query, d_c0))))
}

/// The value of the `x-zse-93` header that accompanies the signature.
pub open spec fn spec_zse93() -> Seq<char> {
    "101_3_3.0"@
}

/// Marker of the version 3 signing scheme.
pub struct Zse96V3;

impl Zse96V3 {
    /// The value of the `x-zse-93` header sent with every signed request.
    pub fn zse93() -> (r: String)
        ensures
            r@ == spec_zse93(),
    {
        String::from_str("101_3_3.0")
    }

    /// The text that is hashed for a request (see `spec_digest_input`).
    pub fn digest_input(path: &str, query: Option<&str>, d_c0: &str) -> (r: String)
        ensures
            r@ == spec_digest_input(path@, match query {
                Some(q) => Some(q@),
                None => None,
            }, d_c0@),
    {
        let mut s = String::from_str("101_3_3.0+");
        s.append(path);
        match query {
            Some(q) => {
                s.append("?");
                s.append(q);
            },
            None => {},
        }
        s.append("+");
        s.append(d_c0);
        proof {
            let qv = match query {
                Some(q) => Some(q@),
                None => None,
            };
            assert(s@ =~= spec_digest_input(path@, qv, d_c0@));
        }
        s
    }

    /// The `x-zse-96` header value for a request with the given path, query
    /// and `d_c0` cookie value.
    pub fn signature_for(path: &str, query: Option<&str>, d_c0: &str) -> (r: String)
        ensures
            r@ == spec_signature(path@, match query {
                Some(q) => Some(q@),
                None => None,
            }, d_c0@),
    {
        let input = Self::digest_input(path, query, d_c0);
        let digest = md5(input.as_str().as_bytes());
        encode_zse96(&digest)
    }

    /// The `x-zse-96` header value for a request to `url` made with the
    /// `d_c0` cookie value; `None` when `url` is no valid URL, since no
    /// request can be made to it: the caller refuses such a request.
    pub fn signature(url: &str, d_c0: &str) -> (r: Option<String>)
        ensures
            match url_path_and_query(url@) {
                Some((p, q)) => r is Some && r.unwrap()@ == spec_signature(p, q, d_c0@),
                None => r is None,
            },
    {
        match parse_url(url) {
            Some(u) => {
                let p = u.path;
                let q = u.query;
                let qr: Option<&str> = match &q {
                    Some(v) => Some(v.as_str()),
                    None => None,
                };
                proof {
                    assert(match qr {
                        Some(v) => Some(v@),
                        None => None,
                    } == opt_view(q));
                }
                Some(Self::signature_for(p.as_str(), qr, d_c0))
            },
            None => None,
        }
    }
}

} // verus!
