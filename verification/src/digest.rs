//! Padding, length encoding, and digest extraction: the functional model
//! of what finalization appends after the message and how the chaining
//! value becomes output bytes.

use vstd::prelude::*;
use crate::params::{
    Family, Variant, spec_block_bytes, spec_digest_bytes, spec_domain_mark, spec_family,
    spec_fill_index, spec_iv, spec_out_words, spec_word_bytes,
};
use crate::words::{
    spec_be_bytes, spec_len_bytes, spec_lo_word, spec_hi_word, push_be_bytes,
};
use crate::compress::{spec_absorb, spec_compress};

verus! {

pub open spec fn spec_zeros(n: int) -> Seq<u8> {
    Seq::new(n as nat, |i: int| 0u8)
}

/// Appends `n` zero bytes.
pub fn push_zeros(out: &mut Vec<u8>, n: usize)
    ensures
        final(out)@ == old(out)@ + spec_zeros(n as int),
{
    let mut k: usize = 0;
    while k < n
        invariant
            k <= n,
            out@ == old(out)@ + spec_zeros(k as int),
        decreases n - k,
    {
        out.push(0);
        proof {
            assert(old(out)@ + spec_zeros(k as int) + seq![0u8] =~= old(out)@ + spec_zeros(
                k + 1,
            ));
        }
        k += 1;
    }
    proof {
        assert(out@ =~= old(out)@ + spec_zeros(n as int));
    }
}

/// Appends a copy of `src`.
pub fn append_bytes(out: &mut Vec<u8>, src: &Vec<u8>)
    ensures
        final(out)@ == old(out)@ + src@,
{
    let mut k: usize = 0;
    while k < src.len()
        invariant
            k <= src@.len(),
            out@ == old(out)@ + src@.take(k as int),
        decreases src@.len() - k,
    {
        let b = src[k];
        out.push(b);
        proof {
            assert(old(out)@ + src@.take(k as int) + seq![src@[k as int]] =~= old(out)@
                + src@.take(k + 1));
        }
        k += 1;
    }
    proof {
        assert(out@ =~= old(out)@ + src@);
    }
}

/// A `Vec` holding the bytes of a slice.
pub fn vec_of_slice(src: &[u8]) -> (v: Vec<u8>)
    ensures
        v@ == src@,
{
    let mut v: Vec<u8> = Vec::new();
    let mut k: usize = 0;
    while k < src.len()
        invariant
            k <= src@.len(),
            v@ == src@.take(k as int),
        decreases src@.len() - k,
    {
        let b = src[k];
        v.push(b);
        proof {
            assert(src@.take(k as int) + seq![src@[k as int]] =~= src@.take(k + 1));
        }
        k += 1;
    }
    proof {
        assert(v@ =~= src@);
    }
    v
}

/// The big-endian bytes of the first `n` chaining-value words.
pub open spec fn spec_words_bytes(f: Family, h: Seq<u64>, n: int) -> Seq<u8>
    decreases n,
{
    if n <= 0 {
        Seq::empty()
    } else {
        spec_words_bytes(f, h, n - 1) + spec_be_bytes(f, h[n - 1])
    }
}

pub proof fn lemma_words_bytes_len(f: Family, h: Seq<u64>, n: int)
    requires
        n >= 0,
    ensures
        spec_words_bytes(f, h, n).len() == n * spec_word_bytes(f),
    decreases n,
{
    if n > 0 {
        lemma_words_bytes_len(f, h, n - 1);
        assert(n * spec_word_bytes(f) == (n - 1) * spec_word_bytes(f) + spec_word_bytes(f))
            by (nonlinear_arith);
    }
}

pub fn digest_vec(f: Family, h: &Vec<u64>, nw: usize) -> (d: Vec<u8>)
    requires
        nw <= h@.len(),
    ensures
        d@ == spec_words_bytes(f, h@, nw as int),
{
    let mut d: Vec<u8> = Vec::new();
    let mut i: usize = 0;
    while i < nw
        invariant
            i <= nw,
            nw <= h@.len(),
            d@ == spec_words_bytes(f, h@, i as int),
        decreases nw - i,
    {
        push_be_bytes(f, &mut d, h[i]);
        i += 1;
    }
    d
}

/// The digest of a whole message: absorb every full block, pad the
/// remainder (one or two final blocks, domain-separation byte, big-endian
/// bit length), and keep the variant's share of the chaining value.
pub open spec fn spec_digest_of(v: Variant, s: Seq<u64>, msg: Seq<u8>) -> Seq<u8> {
    let f = spec_family(v);
    let bb = spec_block_bytes(f);
    let fill = spec_fill_index(f);
    let r = msg.len() as int % bb;
    let clen = msg.len() - r;
    let h0 = spec_absorb(f, s, spec_iv(v), msg.take(clen), 0);
    let lbits = 8 * msg.len() as int;
    let t0 = spec_lo_word(f, lbits);
    let t1 = spec_hi_word(f, lbits);
    let zo: u8 = if spec_domain_mark(v) {
        0x01u8
    } else {
        0x00u8
    };
    let oz: u8 = if spec_domain_mark(v) {
        0x81u8
    } else {
        0x80u8
    };
    let rem = msg.skip(clen);
    let lenb = spec_len_bytes(f, lbits);
    let hf = if r == fill {
        spec_compress(f, h0, s, rem + seq![oz] + lenb, t0, t1, false)
    } else if r < fill {
        spec_compress(
            f,
            h0,
            s,
            rem + seq![0x80u8] + spec_zeros(fill - r - 1) + seq![zo] + lenb,
            t0,
            t1,
            r == 0,
        )
    } else {
        let h1 = spec_compress(f, h0, s, rem + seq![0x80u8] + spec_zeros(bb - r - 1), t0, t1, false);
        spec_compress(f, h1, s, spec_zeros(fill) + seq![zo] + lenb, 0u64, 0u64, true)
    };
    spec_words_bytes(f, hf, spec_out_words(v))
}

/// The digest always holds exactly the variant's byte count.
pub proof fn lemma_digest_len(v: Variant, s: Seq<u64>, msg: Seq<u8>)
    ensures
        spec_digest_of(v, s, msg).len() == spec_digest_bytes(v),
{
    let f = spec_family(v);
    assert forall|hh: Seq<u64>|
        #[trigger] spec_words_bytes(f, hh, spec_out_words(v)).len() == spec_out_words(v)
            * spec_word_bytes(f) by {
        lemma_words_bytes_len(f, hh, spec_out_words(v));
    }
}

} // verus!
