//! The compression function: expands the chaining value and one message
//! block into a 16-word working state, mixes it for the family's round
//! count, and folds it back, XORing in the salt and the block counter.

use vstd::prelude::*;
use crate::params::{
    Family, fits, fits_all, spec_block_bytes, spec_cons_at, spec_rounds, spec_sigma,
    spec_word_bytes, cons_at, rounds, sigma_at, word_bytes,
};
use crate::words::{
    spec_wadd, spec_rotr, spec_word_of_bytes, spec_lo_word, spec_hi_word, wadd, rotr,
    word_of_bytes, lemma_xor_fits,
};

verus! {

/// Rotation distances used by the four mixing steps.
pub open spec fn spec_rot(f: Family, k: int) -> u64 {
    match f {
        Family::W32 => (
            if k == 0 { 16u64 } else if k == 1 { 12u64 } else if k == 2 { 8u64 } else { 7u64 }
        ),
        Family::W64 => (
            if k == 0 { 32u64 } else if k == 1 { 25u64 } else if k == 2 { 16u64 } else { 11u64 }
        ),
    }
}

pub fn rot_amount(f: Family, k: usize) -> (n: u64)
    requires
        k < 4,
    ensures
        n == spec_rot(f, k as int),
        f is W32 ==> 0 < n < 32,
        f is W64 ==> 0 < n < 64,
{
    match f {
        Family::W32 => (match k {
            0 => 16,
            1 => 12,
            2 => 8,
            _ => 7,
        }),
        Family::W64 => (match k {
            0 => 32,
            1 => 25,
            2 => 16,
            _ => 11,
        }),
    }
}

/// One mixing step: updates the four working-state words at `a`, `b`,
/// `cc`, `d` from message words chosen by the round permutation.
pub open spec fn spec_g(
    f: Family,
    v: Seq<u64>,
    m: Seq<u64>,
    r: int,
    i: int,
    a: int,
    b: int,
    cc: int,
    d: int,
) -> Seq<u64> {
    let s0 = spec_sigma(r, 2 * i);
    let s1 = spec_sigma(r, 2 * i + 1);
    let va1 = spec_wadd(f, spec_wadd(f, v[a], v[b]), m[s0] ^ spec_cons_at(f, s1));
    let vd1 = spec_rotr(f, v[d] ^ va1, spec_rot(f, 0));
    let vc1 = spec_wadd(f, v[cc], vd1);
    let vb1 = spec_rotr(f, v[b] ^ vc1, spec_rot(f, 1));
    let va2 = spec_wadd(f, spec_wadd(f, va1, vb1), m[s1] ^ spec_cons_at(f, s0));
    let vd2 = spec_rotr(f, vd1 ^ va2, spec_rot(f, 2));
    let vc2 = spec_wadd(f, vc1, vd2);
    let vb2 = spec_rotr(f, vb1 ^ vc2, spec_rot(f, 3));
    v.update(a, va2).update(b, vb2).update(cc, vc2).update(d, vd2)
}

fn g_mix(
    f: Family,
    v: &mut Vec<u64>,
    m: &Vec<u64>,
    r: usize,
    i: usize,
    a: usize,
    b: usize,
    cc: usize,
    d: usize,
)
    requires
        old(v)@.len() == 16,
        fits_all(f, old(v)@),
        m@.len() == 16,
        fits_all(f, m@),
        i < 8,
        a < 16,
        b < 16,
        cc < 16,
        d < 16,
    ensures
        final(v)@ == spec_g(
            f,
            old(v)@,
            m@,
            r as int,
            i as int,
            a as int,
            b as int,
            cc as int,
            d as int,
        ),
        final(v)@.len() == 16,
        fits_all(f, final(v)@),
{
    let s0 = sigma_at(r, 2 * i);
    let s1 = sigma_at(r, 2 * i + 1);
    let x0 = m[s0] ^ cons_at(f, s1);
    proof {
        lemma_xor_fits(f, m@[s0 as int], spec_cons_at(f, s1 as int));
    }
    let va1 = wadd(f, wadd(f, v[a], v[b]), x0);
    proof {
        lemma_xor_fits(f, v@[d as int], va1);
    }
    let vd1 = rotr(f, v[d] ^ va1, rot_amount(f, 0));
    let vc1 = wadd(f, v[cc], vd1);
    proof {
        lemma_xor_fits(f, v@[b as int], vc1);
    }
    let vb1 = rotr(f, v[b] ^ vc1, rot_amount(f, 1));
    let x1 = m[s1] ^ cons_at(f, s0);
    proof {
        lemma_xor_fits(f, m@[s1 as int], spec_cons_at(f, s0 as int));
    }
    let va2 = wadd(f, wadd(f, va1, vb1), x1);
    proof {
        lemma_xor_fits(f, vd1, va2);
    }
    let vd2 = rotr(f, vd1 ^ va2, rot_amount(f, 2));
    let vc2 = wadd(f, vc1, vd2);
    proof {
        lemma_xor_fits(f, vb1, vc2);
    }
    let vb2 = rotr(f, vb1 ^ vc2, rot_amount(f, 3));
    v.set(a, va2);
    v.set(b, vb2);
    v.set(cc, vc2);
    v.set(d, vd2);
    proof {
        assert(fits_all(f, v@)) by {
            assert forall|j: int| 0 <= j < 16 implies fits(f, #[trigger] v@[j]) by {
                if j != a && j != b && j != cc && j != d {
                    assert(v@[j] == old(v)@[j]);
                }
            }
        }
    }
}

/// One full round: four column steps then four diagonal steps.
#[verifier::opaque]
pub open spec fn spec_round(f: Family, v: Seq<u64>, m: Seq<u64>, r: int) -> Seq<u64> {
    let v1 = spec_g(f, v, m, r, 0, 0, 4, 8, 12);
    let v2 = spec_g(f, v1, m, r, 1, 1, 5, 9, 13);
    let v3 = spec_g(f, v2, m, r, 2, 2, 6, 10, 14);
    let v4 = spec_g(f, v3, m, r, 3, 3, 7, 11, 15);
    let v5 = spec_g(f, v4, m, r, 4, 0, 5, 10, 15);
    let v6 = spec_g(f, v5, m, r, 5, 1, 6, 11, 12);
    let v7 = spec_g(f, v6, m, r, 6, 2, 7, 8, 13);
    spec_g(f, v7, m, r, 7, 3, 4, 9, 14)
}

fn do_round(f: Family, v: &mut Vec<u64>, m: &Vec<u64>, r: usize)
    requires
        old(v)@.len() == 16,
        fits_all(f, old(v)@),
        m@.len() == 16,
        fits_all(f, m@),
    ensures
        final(v)@ == spec_round(f, old(v)@, m@, r as int),
        final(v)@.len() == 16,
        fits_all(f, final(v)@),
{
    proof {
        reveal(spec_round);
    }
    g_mix(f, v, m, r, 0, 0, 4, 8, 12);
    g_mix(f, v, m, r, 1, 1, 5, 9, 13);
    g_mix(f, v, m, r, 2, 2, 6, 10, 14);
    g_mix(f, v, m, r, 3, 3, 7, 11, 15);
    g_mix(f, v, m, r, 4, 0, 5, 10, 15);
    g_mix(f, v, m, r, 5, 1, 6, 11, 12);
    g_mix(f, v, m, r, 6, 2, 7, 8, 13);
    g_mix(f, v, m, r, 7, 3, 4, 9, 14);
}

/// The sixteen big-endian message words of one block.
pub open spec fn spec_block_words(f: Family, block: Seq<u8>) -> Seq<u64> {
    Seq::new(16, |i: int| spec_word_of_bytes(f, block, i * spec_word_bytes(f)))
}

fn block_words(f: Family, block: &Vec<u8>) -> (m: Vec<u64>)
    requires
        block@.len() == spec_block_bytes(f),
    ensures
        m@ == spec_block_words(f, block@),
        m@.len() == 16,
        fits_all(f, m@),
{
    let wb = word_bytes(f);
    let mut m: Vec<u64> = Vec::new();
    let mut i: usize = 0;
    let mut pos: usize = 0;
    while i < 16
        invariant
            i <= 16,
            pos == i * spec_word_bytes(f),
            wb == spec_word_bytes(f),
            block@.len() == spec_block_bytes(f),
            m@.len() == i,
            fits_all(f, m@),
            forall|j: int| 0 <= j < i ==> m@[j] == spec_word_of_bytes(
                f,
                block@,
                j * spec_word_bytes(f),
            ),
        decreases 16 - i,
    {
        proof {
            assert((i + 1) * spec_word_bytes(f) == i * spec_word_bytes(f) + spec_word_bytes(f))
                by (nonlinear_arith);
            assert(16 * spec_word_bytes(f) == spec_block_bytes(f));
            assert(i * spec_word_bytes(f) + spec_word_bytes(f) <= 16 * spec_word_bytes(f))
                by (nonlinear_arith)
                requires
                    i < 16,
                    spec_word_bytes(f) > 0,
            ;
        }
        let w = word_of_bytes(f, block, pos);
        m.push(w);
        pos = pos + wb;
        i += 1;
    }
    proof {
        assert(m@ =~= spec_block_words(f, block@));
    }
    m
}

/// The initial working state: chaining value, salted constants, and the
/// counter words (skipped when `nullt` marks a block with no message bits).
pub open spec fn spec_init_v(
    f: Family,
    h: Seq<u64>,
    s: Seq<u64>,
    t0: u64,
    t1: u64,
    nullt: bool,
) -> Seq<u64> {
    Seq::new(
        16,
        |i: int|
            if i < 8 {
                h[i]
            } else if i < 12 {
                s[i - 8] ^ spec_cons_at(f, i - 8)
            } else if nullt {
                spec_cons_at(f, i - 8)
            } else if i < 14 {
                spec_cons_at(f, i - 8) ^ t0
            } else {
                spec_cons_at(f, i - 8) ^ t1
            },
    )
}

fn init_v(f: Family, h: &Vec<u64>, s: &Vec<u64>, t0: u64, t1: u64, nullt: bool) -> (v: Vec<u64>)
    requires
        h@.len() == 8,
        fits_all(f, h@),
        s@.len() == 4,
        fits_all(f, s@),
        fits(f, t0),
        fits(f, t1),
    ensures
        v@ == spec_init_v(f, h@, s@, t0, t1, nullt),
        v@.len() == 16,
        fits_all(f, v@),
{
    let mut v: Vec<u64> = Vec::new();
    let mut i: usize = 0;
    while i < 8
        invariant
            i <= 8,
            v@.len() == i,
            h@.len() == 8,
            fits_all(f, h@),
            fits_all(f, v@),
            forall|j: int| 0 <= j < i ==> v@[j] == h@[j],
        decreases 8 - i,
    {
        v.push(h[i]);
        i += 1;
    }
    let mut j: usize = 0;
    while j < 4
        invariant
            j <= 4,
            v@.len() == 8 + j,
            s@.len() == 4,
            fits_all(f, s@),
            fits_all(f, v@),
            forall|k: int| 0 <= k < 8 ==> v@[k] == h@[k],
            forall|k: int| 0 <= k < j ==> v@[8 + k] == (s@[k] ^ spec_cons_at(f, k)),
        decreases 4 - j,
    {
        let x = s[j] ^ cons_at(f, j);
        proof {
            lemma_xor_fits(f, s@[j as int], spec_cons_at(f, j as int));
        }
        v.push(x);
        j += 1;
    }
    let mut k: usize = 0;
    while k < 4
        invariant
            k <= 4,
            v@.len() == 12 + k,
            fits_all(f, v@),
            fits(f, t0),
            fits(f, t1),
            forall|q: int| 0 <= q < 8 ==> v@[q] == h@[q],
            forall|q: int| 0 <= q < 4 ==> v@[8 + q] == (s@[q] ^ spec_cons_at(f, q)),
            forall|q: int| 0 <= q < k ==> #[trigger] v@[12 + q] == (
                if nullt {
                    spec_cons_at(f, 4 + q)
                } else if q < 2 {
                    spec_cons_at(f, 4 + q) ^ t0
                } else {
                    spec_cons_at(f, 4 + q) ^ t1
                }
            ),
        decreases 4 - k,
    {
        let base = cons_at(f, 4 + k);
        let x = if nullt {
            base
        } else if k < 2 {
            proof {
                lemma_xor_fits(f, spec_cons_at(f, 4 + k as int), t0);
            }
            base ^ t0
        } else {
            proof {
                lemma_xor_fits(f, spec_cons_at(f, 4 + k as int), t1);
            }
            base ^ t1
        };
        v.push(x);
        k += 1;
    }
    proof {
        assert forall|i: int| 0 <= i < 16 implies v@[i] == spec_init_v(
            f,
            h@,
            s@,
            t0,
            t1,
            nullt,
        )[i] by {
            if i < 8 {
                assert(v@[i] == h@[i]);
            } else if i < 12 {
                assert(v@[8 + (i - 8)] == (s@[i - 8] ^ spec_cons_at(f, i - 8)));
            } else {
                assert(v@[12 + (i - 12)] == (
                    if nullt {
                        spec_cons_at(f, 4 + (i - 12))
                    } else if i - 12 < 2 {
                        spec_cons_at(f, 4 + (i - 12)) ^ t0
                    } else {
                        spec_cons_at(f, 4 + (i - 12)) ^ t1
                    }
                ));
            }
        }
        assert(v@ =~= spec_init_v(f, h@, s@, t0, t1, nullt));
    }
    v
}

/// Iterated rounds of the working state.
pub open spec fn spec_do_rounds(f: Family, v: Seq<u64>, m: Seq<u64>, n: int) -> Seq<u64>
    decreases n,
{
    if n <= 0 {
        v
    } else {
        spec_round(f, spec_do_rounds(f, v, m, n - 1), m, n - 1)
    }
}

/// The whole compression function, as a mathematical map from the old
/// chaining value to the new one.
pub open spec fn spec_compress(
    f: Family,
    h: Seq<u64>,
    s: Seq<u64>,
    block: Seq<u8>,
    t0: u64,
    t1: u64,
    nullt: bool,
) -> Seq<u64> {
    let m = spec_block_words(f, block);
    let vf = spec_do_rounds(f, spec_init_v(f, h, s, t0, t1, nullt), m, spec_rounds(f));
    Seq::new(
        8,
        |i: int| h[i] ^ (if i < 4 {
            s[i]
        } else {
            s[i - 4]
        }) ^ vf[i] ^ vf[i + 8],
    )
}

#[verifier::rlimit(100)]
pub fn compress(
    f: Family,
    h: &mut Vec<u64>,
    s: &Vec<u64>,
    block: &Vec<u8>,
    t0: u64,
    t1: u64,
    nullt: bool,
)
    requires
        old(h)@.len() == 8,
        fits_all(f, old(h)@),
        s@.len() == 4,
        fits_all(f, s@),
        block@.len() == spec_block_bytes(f),
        fits(f, t0),
        fits(f, t1),
    ensures
        final(h)@ == spec_compress(f, old(h)@, s@, block@, t0, t1, nullt),
        final(h)@.len() == 8,
        fits_all(f, final(h)@),
{
    let m = block_words(f, block);
    let mut v = init_v(f, h, s, t0, t1, nullt);
    let nr = rounds(f);
    let mut r: usize = 0;
    while r < nr
        invariant
            r <= nr,
            nr == spec_rounds(f),
            m@ == spec_block_words(f, block@),
            m@.len() == 16,
            fits_all(f, m@),
            v@.len() == 16,
            fits_all(f, v@),
            h@ == old(h)@,
            h@.len() == 8,
            v@ == spec_do_rounds(
                f,
                spec_init_v(f, old(h)@, s@, t0, t1, nullt),
                m@,
                r as int,
            ),
        decreases nr - r,
    {
        do_round(f, &mut v, &m, r);
        r += 1;
    }
    let mut i: usize = 0;
    while i < 8
        invariant
            i <= 8,
            h@.len() == 8,
            s@.len() == 4,
            fits_all(f, s@),
            fits_all(f, old(h)@),
            fits_all(f, h@),
            v@.len() == 16,
            fits_all(f, v@),
            v@ == spec_do_rounds(
                f,
                spec_init_v(f, old(h)@, s@, t0, t1, nullt),
                spec_block_words(f, block@),
                spec_rounds(f),
            ),
            forall|j: int| i <= j < 8 ==> h@[j] == old(h)@[j],
            forall|j: int| 0 <= j < i ==> h@[j] == (old(h)@[j] ^ (if j < 4 {
                s@[j]
            } else {
                s@[j - 4]
            }) ^ v@[j] ^ v@[j + 8]),
        decreases 8 - i,
    {
        let sj = if i < 4 {
            s[i]
        } else {
            s[i - 4]
        };
        proof {
            lemma_xor_fits(f, h@[i as int], sj);
            lemma_xor_fits(f, h@[i as int] ^ sj, v@[i as int]);
            lemma_xor_fits(f, h@[i as int] ^ sj ^ v@[i as int], v@[i as int + 8]);
        }
        let x = h[i] ^ sj ^ v[i] ^ v[i + 8];
        h.set(i, x);
        i += 1;
    }
    proof {
        assert(h@ =~= spec_compress(f, old(h)@, s@, block@, t0, t1, nullt));
    }
}

/// Folds the compression function over the whole blocks of a message,
/// carrying the bit counter along: the counter handed to each call counts
/// every message bit up to and including that block.
pub open spec fn spec_absorb(
    f: Family,
    s: Seq<u64>,
    h: Seq<u64>,
    blocks: Seq<u8>,
    done_bits: int,
) -> Seq<u64>
    decreases blocks.len(),
{
    let bb = spec_block_bytes(f);
    if blocks.len() < bb {
        h
    } else {
        let tb = done_bits + 8 * bb;
        let h1 = spec_compress(
            f,
            h,
            s,
            blocks.take(bb),
            spec_lo_word(f, tb),
            spec_hi_word(f, tb),
            false,
        );
        spec_absorb(f, s, h1, blocks.skip(bb), tb)
    }
}

/// Absorbing one more whole block equals one more compression call.
#[verifier::rlimit(100)]
pub proof fn lemma_absorb_snoc(
    f: Family,
    s: Seq<u64>,
    h: Seq<u64>,
    blocks: Seq<u8>,
    tail: Seq<u8>,
    d: int,
)
    requires
        blocks.len() as int % spec_block_bytes(f) == 0,
        tail.len() == spec_block_bytes(f),
    ensures
        ({
            let tb = d + 8 * blocks.len() + 8 * spec_block_bytes(f);
            spec_absorb(f, s, h, blocks + tail, d) == spec_compress(
                f,
                spec_absorb(f, s, h, blocks, d),
                s,
                tail,
                spec_lo_word(f, tb),
                spec_hi_word(f, tb),
                false,
            )
        }),
    decreases blocks.len(),
{
    reveal_with_fuel(spec_absorb, 3);
    let bb = spec_block_bytes(f);
    if blocks.len() == 0 {
        assert(blocks + tail =~= tail);
        assert(tail.take(bb) =~= tail);
        assert(tail.skip(bb).len() < bb);
    } else {
        if blocks.len() < bb {
            vstd::arithmetic::div_mod::lemma_small_mod(blocks.len(), bb as nat);
            assert(false);
        }
        let h1 = spec_compress(
            f,
            h,
            s,
            blocks.take(bb),
            spec_lo_word(f, d + 8 * bb),
            spec_hi_word(f, d + 8 * bb),
            false,
        );
        assert((blocks + tail).take(bb) =~= blocks.take(bb));
        assert((blocks + tail).skip(bb) =~= blocks.skip(bb) + tail);
        vstd::arithmetic::div_mod::lemma_mod_multiples_vanish(-1, blocks.len() as int, bb);
        lemma_absorb_snoc(f, s, h1, blocks.skip(bb), tail, d + 8 * bb);
    }
}

} // verus!
