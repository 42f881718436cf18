use vstd::prelude::*;

verus! {

/// The four supported BLAKE digest sizes.
#[derive(Clone, Copy, PartialEq, Eq, Structural, Debug)]
pub enum Variant {
    B224,
    B256,
    B384,
    B512,
}

/// The two word-width families: 32-bit words (BLAKE-224/256) and 64-bit
/// words (BLAKE-384/512).
#[derive(Clone, Copy, PartialEq, Eq, Structural, Debug)]
pub enum Family {
    W32,
    W64,
}

pub open spec fn spec_family(v: Variant) -> Family {
    match v {
        Variant::B224 => Family::W32,
        Variant::B256 => Family::W32,
        Variant::B384 => Family::W64,
        Variant::B512 => Family::W64,
    }
}

pub fn family(v: Variant) -> (f: Family)
    ensures
        f == spec_family(v),
{
    match v {
        Variant::B224 => Family::W32,
        Variant::B256 => Family::W32,
        Variant::B384 => Family::W64,
        Variant::B512 => Family::W64,
    }
}

/// Bytes in one message block: 64 for the 32-bit family, 128 for the 64-bit one.
pub open spec fn spec_block_bytes(f: Family) -> int {
    match f {
        Family::W32 => 64,
        Family::W64 => 128,
    }
}

pub fn block_bytes(f: Family) -> (n: usize)
    ensures
        n == spec_block_bytes(f),
{
    match f {
        Family::W32 => 64,
        Family::W64 => 128,
    }
}

/// Bytes in one word.
pub open spec fn spec_word_bytes(f: Family) -> int {
    match f {
        Family::W32 => 4,
        Family::W64 => 8,
    }
}

pub fn word_bytes(f: Family) -> (n: usize)
    ensures
        n == spec_word_bytes(f),
{
    match f {
        Family::W32 => 4,
        Family::W64 => 8,
    }
}

/// Compression rounds: 14 for the 32-bit family, 16 for the 64-bit one.
pub open spec fn spec_rounds(f: Family) -> int {
    match f {
        Family::W32 => 14,
        Family::W64 => 16,
    }
}

pub fn rounds(f: Family) -> (n: usize)
    ensures
        n == spec_rounds(f),
{
    match f {
        Family::W32 => 14,
        Family::W64 => 16,
    }
}

/// Salt length in bytes: four words.
pub open spec fn spec_salt_bytes(f: Family) -> int {
    match f {
        Family::W32 => 16,
        Family::W64 => 32,
    }
}

pub fn salt_bytes(f: Family) -> (n: usize)
    ensures
        n == spec_salt_bytes(f),
{
    match f {
        Family::W32 => 16,
        Family::W64 => 32,
    }
}

/// Digest length in bytes.
pub open spec fn spec_digest_bytes(v: Variant) -> int {
    match v {
        Variant::B224 => 28,
        Variant::B256 => 32,
        Variant::B384 => 48,
        Variant::B512 => 64,
    }
}

pub fn digest_bytes(v: Variant) -> (n: usize)
    ensures
        n == spec_digest_bytes(v),
{
    match v {
        Variant::B224 => 28,
        Variant::B256 => 32,
        Variant::B384 => 48,
        Variant::B512 => 64,
    }
}

/// How many chaining-value words the digest keeps.
pub open spec fn spec_out_words(v: Variant) -> int {
    match v {
        Variant::B224 => 7,
        Variant::B256 => 8,
        Variant::B384 => 6,
        Variant::B512 => 8,
    }
}

pub fn out_words(v: Variant) -> (n: usize)
    ensures
        n == spec_out_words(v),
{
    match v {
        Variant::B224 => 7,
        Variant::B256 => 8,
        Variant::B384 => 6,
        Variant::B512 => 8,
    }
}

/// Index of the domain-separation byte in a final block: the last byte
/// before the bit-length field.
pub open spec fn spec_fill_index(f: Family) -> int {
    match f {
        Family::W32 => 55,
        Family::W64 => 111,
    }
}

pub fn fill_index(f: Family) -> (n: usize)
    ensures
        n == spec_fill_index(f),
{
    match f {
        Family::W32 => 55,
        Family::W64 => 111,
    }
}

/// The full-width variants (256, 512) set the domain-separation bit in the
/// padding; their truncated siblings (224, 384) leave it clear.
pub open spec fn spec_domain_mark(v: Variant) -> bool {
    match v {
        Variant::B224 => false,
        Variant::B256 => true,
        Variant::B384 => false,
        Variant::B512 => true,
    }
}

pub fn domain_mark(v: Variant) -> (b: bool)
    ensures
        b == spec_domain_mark(v),
{
    match v {
        Variant::B224 => false,
        Variant::B256 => true,
        Variant::B384 => false,
        Variant::B512 => true,
    }
}

/// Largest value a word of the family can hold.
pub open spec fn spec_mask(f: Family) -> u64 {
    match f {
        Family::W32 => 0xFFFF_FFFFu64,
        Family::W64 => 0xFFFF_FFFF_FFFF_FFFFu64,
    }
}

/// Word modulus: 2^32 or 2^64.
pub open spec fn spec_wmod(f: Family) -> int {
    match f {
        Family::W32 => 0x1_0000_0000,
        Family::W64 => 0x1_0000_0000_0000_0000,
    }
}

/// Counter modulus: the double-width bit counter wraps at 2^64 or 2^128.
pub open spec fn spec_cmod(f: Family) -> int {
    match f {
        Family::W32 => 0x1_0000_0000_0000_0000,
        Family::W64 => 0x1_0000_0000_0000_0000int * 0x1_0000_0000_0000_0000int,
    }
}

/// A value lies within the family word width.
pub open spec fn fits(f: Family, x: u64) -> bool {
    x <= spec_mask(f)
}

pub open spec fn fits_all(f: Family, s: Seq<u64>) -> bool {
    forall|i: int| 0 <= i < s.len() ==> fits(f, #[trigger] s[i])
}

/// Round constants: leading hex digits of pi, as family-width words.
pub open spec fn spec_cons_at(f: Family, i: int) -> u64 {
    match f {
        Family::W32 => (
            if i == 0 { 0x243F6A88u64 }
            else if i == 1 { 0x85A308D3u64 }
            else if i == 2 { 0x13198A2Eu64 }
            else if i == 3 { 0x03707344u64 }
            else if i == 4 { 0xA4093822u64 }
            else if i == 5 { 0x299F31D0u64 }
            else if i == 6 { 0x082EFA98u64 }
            else if i == 7 { 0xEC4E6C89u64 }
            else if i == 8 { 0x452821E6u64 }
            else if i == 9 { 0x38D01377u64 }
            else if i == 10 { 0xBE5466CFu64 }
            else if i == 11 { 0x34E90C6Cu64 }
            else if i == 12 { 0xC0AC29B7u64 }
            else if i == 13 { 0xC97C50DDu64 }
            else if i == 14 { 0x3F84D5B5u64 }
            else { 0xB5470917u64 }
        ),
        Family::W64 => (
            if i == 0 { 0x243F6A8885A308D3u64 }
            else if i == 1 { 0x13198A2E03707344u64 }
            else if i == 2 { 0xA4093822299F31D0u64 }
            else if i == 3 { 0x082EFA98EC4E6C89u64 }
            else if i == 4 { 0x452821E638D01377u64 }
            else if i == 5 { 0xBE5466CF34E90C6Cu64 }
            else if i == 6 { 0xC0AC29B7C97C50DDu64 }
            else if i == 7 { 0x3F84D5B5B5470917u64 }
            else if i == 8 { 0x9216D5D98979FB1Bu64 }
            else if i == 9 { 0xD1310BA698DFB5ACu64 }
            else if i == 10 { 0x2FFD72DBD01ADFB7u64 }
            else if i == 11 { 0xB8E1AFED6A267E96u64 }
            else if i == 12 { 0xBA7C9045F12C7F99u64 }
            else if i == 13 { 0x24A19947B3916CF7u64 }
            else if i == 14 { 0x0801F2E2858EFC16u64 }
            else { 0x636920D871574E69u64 }
        ),
    }
}

pub fn cons_at(f: Family, i: usize) -> (w: u64)
    requires
        i < 16,
    ensures
        w == spec_cons_at(f, i as int),
        fits(f, w),
{
    match f {
        Family::W32 => (match i {
            0 => 0x243F6A88u64,
            1 => 0x85A308D3u64,
            2 => 0x13198A2Eu64,
            3 => 0x03707344u64,
            4 => 0xA4093822u64,
            5 => 0x299F31D0u64,
            6 => 0x082EFA98u64,
            7 => 0xEC4E6C89u64,
            8 => 0x452821E6u64,
            9 => 0x38D01377u64,
            10 => 0xBE5466CFu64,
            11 => 0x34E90C6Cu64,
            12 => 0xC0AC29B7u64,
            13 => 0xC97C50DDu64,
            14 => 0x3F84D5B5u64,
            _ => 0xB5470917u64,
        }),
        Family::W64 => (match i {
            0 => 0x243F6A8885A308D3u64,
            1 => 0x13198A2E03707344u64,
            2 => 0xA4093822299F31D0u64,
            3 => 0x082EFA98EC4E6C89u64,
            4 => 0x452821E638D01377u64,
            5 => 0xBE5466CF34E90C6Cu64,
            6 => 0xC0AC29B7C97C50DDu64,
            7 => 0x3F84D5B5B5470917u64,
            8 => 0x9216D5D98979FB1Bu64,
            9 => 0xD1310BA698DFB5ACu64,
            10 => 0x2FFD72DBD01ADFB7u64,
            11 => 0xB8E1AFED6A267E96u64,
            12 => 0xBA7C9045F12C7F99u64,
            13 => 0x24A19947B3916CF7u64,
            14 => 0x0801F2E2858EFC16u64,
            _ => 0x636920D871574E69u64,
        }),
    }
}

/// Initialization vectors; the truncated variants carry their own tables.
pub open spec fn spec_iv_at(v: Variant, i: int) -> u64 {
    match v {
        Variant::B224 => (
            if i == 0 { 0xC1059ED8u64 }
            else if i == 1 { 0x367CD507u64 }
            else if i == 2 { 0x3070DD17u64 }
            else if i == 3 { 0xF70E5939u64 }
            else if i == 4 { 0xFFC00B31u64 }
            else if i == 5 { 0x68581511u64 }
            else if i == 6 { 0x64F98FA7u64 }
            else { 0xBEFA4FA4u64 }
        ),
        Variant::B256 => (
            if i == 0 { 0x6A09E667u64 }
            else if i == 1 { 0xBB67AE85u64 }
            else if i == 2 { 0x3C6EF372u64 }
            else if i == 3 { 0xA54FF53Au64 }
            else if i == 4 { 0x510E527Fu64 }
            else if i == 5 { 0x9B05688Cu64 }
            else if i == 6 { 0x1F83D9ABu64 }
            else { 0x5BE0CD19u64 }
        ),
        Variant::B384 => (
            if i == 0 { 0xCBBB9D5DC1059ED8u64 }
            else if i == 1 { 0x629A292A367CD507u64 }
            else if i == 2 { 0x9159015A3070DD17u64 }
            else if i == 3 { 0x152FECD8F70E5939u64 }
            else if i == 4 { 0x67332667FFC00B31u64 }
            else if i == 5 { 0x8EB44A8768581511u64 }
            else if i == 6 { 0xDB0C2E0D64F98FA7u64 }
            else { 0x47B5481DBEFA4FA4u64 }
        ),
        Variant::B512 => (
            if i == 0 { 0x6A09E667F3BCC908u64 }
            else if i == 1 { 0xBB67AE8584CAA73Bu64 }
            else if i == 2 { 0x3C6EF372FE94F82Bu64 }
            else if i == 3 { 0xA54FF53A5F1D36F1u64 }
            else if i == 4 { 0x510E527FADE682D1u64 }
            else if i == 5 { 0x9B05688C2B3E6C1Fu64 }
            else if i == 6 { 0x1F83D9ABFB41BD6Bu64 }
            else { 0x5BE0CD19137E2179u64 }
        ),
    }
}

pub open spec fn spec_iv(v: Variant) -> Seq<u64> {
    Seq::new(8, |i: int| spec_iv_at(v, i))
}

pub fn iv_word(v: Variant, i: usize) -> (w: u64)
    requires
        i < 8,
    ensures
        w == spec_iv_at(v, i as int),
        fits(spec_family(v), w),
{
    match v {
        Variant::B224 => (match i {
            0 => 0xC1059ED8u64,
            1 => 0x367CD507u64,
            2 => 0x3070DD17u64,
            3 => 0xF70E5939u64,
            4 => 0xFFC00B31u64,
            5 => 0x68581511u64,
            6 => 0x64F98FA7u64,
            _ => 0xBEFA4FA4u64,
        }),
        Variant::B256 => (match i {
            0 => 0x6A09E667u64,
            1 => 0xBB67AE85u64,
            2 => 0x3C6EF372u64,
            3 => 0xA54FF53Au64,
            4 => 0x510E527Fu64,
            5 => 0x9B05688Cu64,
            6 => 0x1F83D9ABu64,
            _ => 0x5BE0CD19u64,
        }),
        Variant::B384 => (match i {
            0 => 0xCBBB9D5DC1059ED8u64,
            1 => 0x629A292A367CD507u64,
            2 => 0x9159015A3070DD17u64,
            3 => 0x152FECD8F70E5939u64,
            4 => 0x67332667FFC00B31u64,
            5 => 0x8EB44A8768581511u64,
            6 => 0xDB0C2E0D64F98FA7u64,
            _ => 0x47B5481DBEFA4FA4u64,
        }),
        Variant::B512 => (match i {
            0 => 0x6A09E667F3BCC908u64,
            1 => 0xBB67AE8584CAA73Bu64,
            2 => 0x3C6EF372FE94F82Bu64,
            3 => 0xA54FF53A5F1D36F1u64,
            4 => 0x510E527FADE682D1u64,
            5 => 0x9B05688C2B3E6C1Fu64,
            6 => 0x1F83D9ABFB41BD6Bu64,
            _ => 0x5BE0CD19137E2179u64,
        }),
    }
}

pub fn make_iv(v: Variant) -> (h: Vec<u64>)
    ensures
        h@ == spec_iv(v),
        h@.len() == 8,
        fits_all(spec_family(v), h@),
{
    let mut h: Vec<u64> = Vec::new();
    let mut i: usize = 0;
    while i < 8
        invariant
            h@.len() == i,
            i <= 8,
            forall|j: int| 0 <= j < i ==> h@[j] == spec_iv_at(v, j),
            fits_all(spec_family(v), h@),
        decreases 8 - i,
    {
        let w = iv_word(v, i);
        h.push(w);
        i += 1;
    }
    proof {
        assert(h@ =~= spec_iv(v));
    }
    h
}

/// The message-schedule permutation; rows repeat with period ten.
pub open spec fn spec_sigma(r: int, j: int) -> int {
    let rr = r % 10;
    if rr == 0 {
        if j == 0 { 0 }
        else if j == 1 { 1 }
        else if j == 2 { 2 }
        else if j == 3 { 3 }
        else if j == 4 { 4 }
        else if j == 5 { 5 }
        else if j == 6 { 6 }
        else if j == 7 { 7 }
        else if j == 8 { 8 }
        else if j == 9 { 9 }
        else if j == 10 { 10 }
        else if j == 11 { 11 }
        else if j == 12 { 12 }
        else if j == 13 { 13 }
        else if j == 14 { 14 }
        else { 15 }
    } else if rr == 1 {
        if j == 0 { 14 }
        else if j == 1 { 10 }
        else if j == 2 { 4 }
        else if j == 3 { 8 }
        else if j == 4 { 9 }
        else if j == 5 { 15 }
        else if j == 6 { 13 }
        else if j == 7 { 6 }
        else if j == 8 { 1 }
        else if j == 9 { 12 }
        else if j == 10 { 0 }
        else if j == 11 { 2 }
        else if j == 12 { 11 }
        else if j == 13 { 7 }
        else if j == 14 { 5 }
        else { 3 }
    } else if rr == 2 {
        if j == 0 { 11 }
        else if j == 1 { 8 }
        else if j == 2 { 12 }
        else if j == 3 { 0 }
        else if j == 4 { 5 }
        else if j == 5 { 2 }
        else if j == 6 { 15 }
        else if j == 7 { 13 }
        else if j == 8 { 10 }
        else if j == 9 { 14 }
        else if j == 10 { 3 }
        else if j == 11 { 6 }
        else if j == 12 { 7 }
        else if j == 13 { 1 }
        else if j == 14 { 9 }
        else { 4 }
    } else if rr == 3 {
        if j == 0 { 7 }
        else if j == 1 { 9 }
        else if j == 2 { 3 }
        else if j == 3 { 1 }
        else if j == 4 { 13 }
        else if j == 5 { 12 }
        else if j == 6 { 11 }
        else if j == 7 { 14 }
        else if j == 8 { 2 }
        else if j == 9 { 6 }
        else if j == 10 { 5 }
        else if j == 11 { 10 }
        else if j == 12 { 4 }
        else if j == 13 { 0 }
        else if j == 14 { 15 }
        else { 8 }
    } else if rr == 4 {
        if j == 0 { 9 }
        else if j == 1 { 0 }
        else if j == 2 { 5 }
        else if j == 3 { 7 }
        else if j == 4 { 2 }
        else if j == 5 { 4 }
        else if j == 6 { 10 }
        else if j == 7 { 15 }
        else if j == 8 { 14 }
        else if j == 9 { 1 }
        else if j == 10 { 11 }
        else if j == 11 { 12 }
        else if j == 12 { 6 }
        else if j == 13 { 8 }
        else if j == 14 { 3 }
        else { 13 }
    } else if rr == 5 {
        if j == 0 { 2 }
        else if j == 1 { 12 }
        else if j == 2 { 6 }
        else if j == 3 { 10 }
        else if j == 4 { 0 }
        else if j == 5 { 11 }
        else if j == 6 { 8 }
        else if j == 7 { 3 }
        else if j == 8 { 4 }
        else if j == 9 { 13 }
        else if j == 10 { 7 }
        else if j == 11 { 5 }
        else if j == 12 { 15 }
        else if j == 13 { 14 }
        else if j == 14 { 1 }
        else { 9 }
    } else if rr == 6 {
        if j == 0 { 12 }
        else if j == 1 { 5 }
        else if j == 2 { 1 }
        else if j == 3 { 15 }
        else if j == 4 { 14 }
        else if j == 5 { 13 }
        else if j == 6 { 4 }
        else if j == 7 { 10 }
        else if j == 8 { 0 }
        else if j == 9 { 7 }
        else if j == 10 { 6 }
        else if j == 11 { 3 }
        else if j == 12 { 9 }
        else if j == 13 { 2 }
        else if j == 14 { 8 }
        else { 11 }
    } else if rr == 7 {
        if j == 0 { 13 }
        else if j == 1 { 11 }
        else if j == 2 { 7 }
        else if j == 3 { 14 }
        else if j == 4 { 12 }
        else if j == 5 { 1 }
        else if j == 6 { 3 }
        else if j == 7 { 9 }
        else if j == 8 { 5 }
        else if j == 9 { 0 }
        else if j == 10 { 15 }
        else if j == 11 { 4 }
        else if j == 12 { 8 }
        else if j == 13 { 6 }
        else if j == 14 { 2 }
        else { 10 }
    } else if rr == 8 {
        if j == 0 { 6 }
        else if j == 1 { 15 }
        else if j == 2 { 14 }
        else if j == 3 { 9 }
        else if j == 4 { 11 }
        else if j == 5 { 3 }
        else if j == 6 { 0 }
        else if j == 7 { 8 }
        else if j == 8 { 12 }
        else if j == 9 { 2 }
        else if j == 10 { 13 }
        else if j == 11 { 7 }
        else if j == 12 { 1 }
        else if j == 13 { 4 }
        else if j == 14 { 10 }
        else { 5 }
    } else {
        if j == 0 { 10 }
        else if j == 1 { 2 }
        else if j == 2 { 8 }
        else if j == 3 { 4 }
        else if j == 4 { 7 }
        else if j == 5 { 6 }
        else if j == 6 { 1 }
        else if j == 7 { 5 }
        else if j == 8 { 15 }
        else if j == 9 { 11 }
        else if j == 10 { 9 }
        else if j == 11 { 14 }
        else if j == 12 { 3 }
        else if j == 13 { 12 }
        else if j == 14 { 13 }
        else { 0 }
    }
}

pub fn sigma_at(r: usize, j: usize) -> (s: usize)
    requires
        j < 16,
    ensures
        s as int == spec_sigma(r as int, j as int),
        s < 16,
{
    let rr = r % 10;
    match rr {
        0 => (match j {
            0 => 0,
            1 => 1,
            2 => 2,
            3 => 3,
            4 => 4,
            5 => 5,
            6 => 6,
            7 => 7,
            8 => 8,
            9 => 9,
            10 => 10,
            11 => 11,
            12 => 12,
            13 => 13,
            14 => 14,
            _ => 15,
        }),
        1 => (match j {
            0 => 14,
            1 => 10,
            2 => 4,
            3 => 8,
            4 => 9,
            5 => 15,
            6 => 13,
            7 => 6,
            8 => 1,
            9 => 12,
            10 => 0,
            11 => 2,
            12 => 11,
            13 => 7,
            14 => 5,
            _ => 3,
        }),
        2 => (match j {
            0 => 11,
            1 => 8,
            2 => 12,
            3 => 0,
            4 => 5,
            5 => 2,
            6 => 15,
            7 => 13,
            8 => 10,
            9 => 14,
            10 => 3,
            11 => 6,
            12 => 7,
            13 => 1,
            14 => 9,
            _ => 4,
        }),
        3 => (match j {
            0 => 7,
            1 => 9,
            2 => 3,
            3 => 1,
            4 => 13,
            5 => 12,
            6 => 11,
            7 => 14,
            8 => 2,
            9 => 6,
            10 => 5,
            11 => 10,
            12 => 4,
            13 => 0,
            14 => 15,
            _ => 8,
        }),
        4 => (match j {
            0 => 9,
            1 => 0,
            2 => 5,
            3 => 7,
            4 => 2,
            5 => 4,
            6 => 10,
            7 => 15,
            8 => 14,
            9 => 1,
            10 => 11,
            11 => 12,
            12 => 6,
            13 => 8,
            14 => 3,
            _ => 13,
        }),
        5 => (match j {
            0 => 2,
            1 => 12,
            2 => 6,
            3 => 10,
            4 => 0,
            5 => 11,
            6 => 8,
            7 => 3,
            8 => 4,
            9 => 13,
            10 => 7,
            11 => 5,
            12 => 15,
            13 => 14,
            14 => 1,
            _ => 9,
        }),
        6 => (match j {
            0 => 12,
            1 => 5,
            2 => 1,
            3 => 15,
            4 => 14,
            5 => 13,
            6 => 4,
            7 => 10,
            8 => 0,
            9 => 7,
            10 => 6,
            11 => 3,
            12 => 9,
            13 => 2,
            14 => 8,
            _ => 11,
        }),
        7 => (match j {
            0 => 13,
            1 => 11,
            2 => 7,
            3 => 14,
            4 => 12,
            5 => 1,
            6 => 3,
            7 => 9,
            8 => 5,
            9 => 0,
            10 => 15,
            11 => 4,
            12 => 8,
            13 => 6,
            14 => 2,
            _ => 10,
        }),
        8 => (match j {
            0 => 6,
            1 => 15,
            2 => 14,
            3 => 9,
            4 => 11,
            5 => 3,
            6 => 0,
            7 => 8,
            8 => 12,
            9 => 2,
            10 => 13,
            11 => 7,
            12 => 1,
            13 => 4,
            14 => 10,
            _ => 5,
        }),
        _ => (match j {
            0 => 10,
            1 => 2,
            2 => 8,
            3 => 4,
            4 => 7,
            5 => 6,
            6 => 1,
            7 => 5,
            8 => 15,
            9 => 11,
            10 => 9,
            11 => 14,
            12 => 3,
            13 => 12,
            14 => 13,
            _ => 0,
        }),
    }
}

} // verus!
