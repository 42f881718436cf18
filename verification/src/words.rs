//! Word-level arithmetic for both families: modular addition, right
//! rotation, big-endian byte/word conversions, and the double-width bit
//! counter.

use vstd::prelude::*;
use crate::params::{Family, fits, spec_wmod, spec_cmod, spec_word_bytes};

verus! {

/// Addition modulo the family word width.
pub open spec fn spec_wadd(f: Family, a: u64, b: u64) -> u64 {
    ((a + b) % spec_wmod(f)) as u64
}

pub fn wadd(f: Family, a: u64, b: u64) -> (r: u64)
    requires
        fits(f, a),
        fits(f, b),
    ensures
        r == spec_wadd(f, a, b),
        fits(f, r),
{
    match f {
        Family::W32 => {
            (a + b) % 0x1_0000_0000u64
        }
        Family::W64 => {
            if a <= 0xFFFF_FFFF_FFFF_FFFFu64 - b {
                proof {
                    vstd::arithmetic::div_mod::lemma_small_mod(
                        (a + b) as nat,
                        0x1_0000_0000_0000_0000nat,
                    );
                }
                a + b
            } else {
                let r = a - (0xFFFF_FFFF_FFFF_FFFFu64 - b) - 1;
                proof {
                    vstd::arithmetic::div_mod::lemma_mod_multiples_vanish(
                        1,
                        a + b - 0x1_0000_0000_0000_0000,
                        0x1_0000_0000_0000_0000,
                    );
                    vstd::arithmetic::div_mod::lemma_small_mod(
                        (a + b - 0x1_0000_0000_0000_0000) as nat,
                        0x1_0000_0000_0000_0000nat,
                    );
                }
                r
            }
        }
    }
}

/// Exclusive or keeps a value inside the family word width.
pub proof fn lemma_xor_fits(f: Family, a: u64, b: u64)
    requires
        fits(f, a),
        fits(f, b),
    ensures
        fits(f, a ^ b),
{
    if f is W32 {
        assert((a ^ b) <= 0xFFFF_FFFFu64) by (bit_vector)
            requires
                a <= 0xFFFF_FFFFu64,
                b <= 0xFFFF_FFFFu64,
        ;
    }
}

/// Right rotation of a family-width word.
pub open spec fn spec_rotr(f: Family, x: u64, n: u64) -> u64 {
    match f {
        Family::W32 => (x >> n) | ((x << ((32 - n) as u64)) & 0xFFFF_FFFFu64),
        Family::W64 => (x >> n) | (x << ((64 - n) as u64)),
    }
}

pub fn rotr(f: Family, x: u64, n: u64) -> (r: u64)
    requires
        fits(f, x),
        0 < n < 32 || (f is W64 && 0 < n < 64),
    ensures
        r == spec_rotr(f, x, n),
        fits(f, r),
{
    match f {
        Family::W32 => {
            let m: u64 = 32 - n;
            let r = (x >> n) | ((x << m) & 0xFFFF_FFFFu64);
            proof {
                assert(((x >> n) | ((x << m) & 0xFFFF_FFFFu64)) <= 0xFFFF_FFFFu64)
                    by (bit_vector)
                    requires
                        x <= 0xFFFF_FFFFu64,
                        m < 64u64,
                ;
            }
            r
        }
        Family::W64 => {
            let m: u64 = 64 - n;
            (x >> n) | (x << m)
        }
    }
}

/// The big-endian word standing at byte offset `pos`.
pub open spec fn spec_word_of_bytes(f: Family, b: Seq<u8>, pos: int) -> u64 {
    match f {
        Family::W32 => (b[pos] * 0x100_0000 + b[pos + 1] * 0x1_0000 + b[pos + 2] * 0x100
            + b[pos + 3]) as u64,
        Family::W64 => (b[pos] * 0x100_0000_0000_0000 + b[pos + 1] * 0x1_0000_0000_0000
            + b[pos + 2] * 0x100_0000_0000 + b[pos + 3] * 0x1_0000_0000
            + b[pos + 4] * 0x100_0000 + b[pos + 5] * 0x1_0000 + b[pos + 6] * 0x100
            + b[pos + 7]) as u64,
    }
}

pub fn word_of_bytes(f: Family, b: &Vec<u8>, pos: usize) -> (w: u64)
    requires
        pos + spec_word_bytes(f) <= b@.len(),
    ensures
        w == spec_word_of_bytes(f, b@, pos as int),
        fits(f, w),
{
    // fetching the length binds the view length to a machine word, so the
    // index sums below stay within usize
    let n = b.len();
    match f {
        Family::W32 => {
            (b[pos] as u64) * 0x100_0000 + (b[pos + 1] as u64) * 0x1_0000
                + (b[pos + 2] as u64) * 0x100 + (b[pos + 3] as u64)
        }
        Family::W64 => {
            (b[pos] as u64) * 0x100_0000_0000_0000 + (b[pos + 1] as u64) * 0x1_0000_0000_0000
                + (b[pos + 2] as u64) * 0x100_0000_0000 + (b[pos + 3] as u64) * 0x1_0000_0000
                + (b[pos + 4] as u64) * 0x100_0000 + (b[pos + 5] as u64) * 0x1_0000
                + (b[pos + 6] as u64) * 0x100 + (b[pos + 7] as u64)
        }
    }
}

/// The big-endian bytes of one family-width word.
pub open spec fn spec_be_bytes(f: Family, w: u64) -> Seq<u8> {
    match f {
        Family::W32 => seq![
            ((w / 0x100_0000) % 0x100) as u8,
            ((w / 0x1_0000) % 0x100) as u8,
            ((w / 0x100) % 0x100) as u8,
            (w % 0x100) as u8,
        ],
        Family::W64 => seq![
            ((w / 0x100_0000_0000_0000) % 0x100) as u8,
            ((w / 0x1_0000_0000_0000) % 0x100) as u8,
            ((w / 0x100_0000_0000) % 0x100) as u8,
            ((w / 0x1_0000_0000) % 0x100) as u8,
            ((w / 0x100_0000) % 0x100) as u8,
            ((w / 0x1_0000) % 0x100) as u8,
            ((w / 0x100) % 0x100) as u8,
            (w % 0x100) as u8,
        ],
    }
}

/// Appends the big-endian bytes of `w` to `out`.
pub fn push_be_bytes(f: Family, out: &mut Vec<u8>, w: u64)
    ensures
        final(out)@ == old(out)@ + spec_be_bytes(f, w),
{
    match f {
        Family::W32 => {
            out.push(((w / 0x100_0000) % 0x100) as u8);
            out.push(((w / 0x1_0000) % 0x100) as u8);
            out.push(((w / 0x100) % 0x100) as u8);
            out.push((w % 0x100) as u8);
        }
        Family::W64 => {
            out.push(((w / 0x100_0000_0000_0000) % 0x100) as u8);
            out.push(((w / 0x1_0000_0000_0000) % 0x100) as u8);
            out.push(((w / 0x100_0000_0000) % 0x100) as u8);
            out.push(((w / 0x1_0000_0000) % 0x100) as u8);
            out.push(((w / 0x100_0000) % 0x100) as u8);
            out.push(((w / 0x1_0000) % 0x100) as u8);
            out.push(((w / 0x100) % 0x100) as u8);
            out.push((w % 0x100) as u8);
        }
    }
    proof {
        assert(out@ =~= old(out)@ + spec_be_bytes(f, w));
    }
}

/// Advances the double-width bit counter, wrapping at the family's
/// counter modulus.
pub fn bump_counter(f: Family, t: u128, add_bits: u64) -> (r: u128)
    requires
        t < spec_cmod(f),
        add_bits <= 1024,
    ensures
        r == (t + add_bits) % spec_cmod(f),
        r < spec_cmod(f),
{
    match f {
        Family::W32 => {
            (t + add_bits as u128) % 0x1_0000_0000_0000_0000u128
        }
        Family::W64 => {
            if t <= 0xFFFF_FFFF_FFFF_FFFF_FFFF_FFFF_FFFF_FFFFu128 - add_bits as u128 {
                proof {
                    vstd::arithmetic::div_mod::lemma_small_mod(
                        (t + add_bits) as nat,
                        spec_cmod(Family::W64) as nat,
                    );
                }
                t + add_bits as u128
            } else {
                let r = t - (0xFFFF_FFFF_FFFF_FFFF_FFFF_FFFF_FFFF_FFFFu128 - add_bits as u128)
                    - 1;
                proof {
                    vstd::arithmetic::div_mod::lemma_mod_multiples_vanish(
                        1,
                        t + add_bits - spec_cmod(Family::W64),
                        spec_cmod(Family::W64),
                    );
                    vstd::arithmetic::div_mod::lemma_small_mod(
                        (t + add_bits - spec_cmod(Family::W64)) as nat,
                        spec_cmod(Family::W64) as nat,
                    );
                }
                r
            }
        }
    }
}

/// Low word of the double-width counter.
pub open spec fn spec_lo_word(f: Family, t: int) -> u64 {
    ((t % spec_cmod(f)) % spec_wmod(f)) as u64
}

/// High word of the double-width counter.
pub open spec fn spec_hi_word(f: Family, t: int) -> u64 {
    ((t % spec_cmod(f)) / spec_wmod(f)) as u64
}

pub fn split_counter(f: Family, t: u128) -> (r: (u64, u64))
    requires
        t < spec_cmod(f),
    ensures
        r.0 == spec_lo_word(f, t as int),
        r.1 == spec_hi_word(f, t as int),
        fits(f, r.0),
        fits(f, r.1),
{
    proof {
        vstd::arithmetic::div_mod::lemma_small_mod(t as nat, spec_cmod(f) as nat);
    }
    match f {
        Family::W32 => {
            let lo = (t % 0x1_0000_0000u128) as u64;
            let hi = (t / 0x1_0000_0000u128) as u64;
            (lo, hi)
        }
        Family::W64 => {
            let lo = (t % 0x1_0000_0000_0000_0000u128) as u64;
            let hi = (t / 0x1_0000_0000_0000_0000u128) as u64;
            (lo, hi)
        }
    }
}

/// The big-endian encoding of the total bit length, as one word pair.
pub open spec fn spec_len_bytes(f: Family, t: int) -> Seq<u8> {
    spec_be_bytes(f, spec_hi_word(f, t)) + spec_be_bytes(f, spec_lo_word(f, t))
}

pub fn len_bytes(f: Family, t: u128) -> (b: Vec<u8>)
    requires
        t < spec_cmod(f),
    ensures
        b@ == spec_len_bytes(f, t as int),
        b@.len() == 2 * spec_word_bytes(f),
{
    let (lo, hi) = split_counter(f, t);
    let mut b: Vec<u8> = Vec::new();
    push_be_bytes(f, &mut b, hi);
    push_be_bytes(f, &mut b, lo);
    proof {
        assert(b@ =~= spec_len_bytes(f, t as int));
    }
    b
}

} // verus!
