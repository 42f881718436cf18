//! The BLAKE hash family (224/256/384/512-bit digests) as a verified
//! library: a one-shot driver and an incremental state machine whose
//! output is pinned down, byte for byte, by a functional model of the
//! whole construction (compression rounds, padding, length encoding,
//! salting, and the block-buffering state machine).

pub mod params;
pub mod words;
pub mod compress;
pub mod digest;

use vstd::prelude::*;
use crate::params::{
    Family, Variant, fits_all, spec_block_bytes, spec_cmod, spec_digest_bytes, spec_family,
    spec_iv, spec_salt_bytes, spec_word_bytes, block_bytes, digest_bytes, domain_mark,
    family, fill_index, make_iv, out_words, salt_bytes, word_bytes,
};
use crate::words::{
    spec_word_of_bytes, spec_lo_word, spec_hi_word, spec_len_bytes, bump_counter,
    split_counter, len_bytes, word_of_bytes,
};
use crate::compress::{compress, spec_absorb, lemma_absorb_snoc};
use crate::digest::{
    spec_digest_of, spec_zeros, lemma_digest_len, digest_vec, push_zeros, append_bytes,
    vec_of_slice,
};

verus! {

/// Everything a call of this library can fail with.
#[derive(Clone, Copy, Debug, Hash, PartialEq, Eq, Structural)]
pub enum BlakeError {
    /// The requested digest size is not one of 224, 256, 384, 512.
    BadDigestLength,
    /// The salt does not have the variant's salt length.
    BadSaltLength,
    /// A call the state machine no longer permits: salting after data
    /// arrived, or any use of a finalised state.
    InvalidStateTransition,
    /// The caller's output buffer is shorter than the digest.
    OutputBufferTooSmall,
}

impl BlakeError {
    /// A short description of the error, in words.
    pub fn description(&self) -> String {
        match self {
            BlakeError::BadDigestLength => "digest length not one of 224, 256, 384, 512".to_string(),
            BlakeError::BadSaltLength => "salt length does not match the variant".to_string(),
            BlakeError::InvalidStateTransition => "call not permitted in this state".to_string(),
            BlakeError::OutputBufferTooSmall => "output buffer shorter than the digest".to_string(),
        }
    }
}

/// The variant selected by a digest bit length; meaningful only for the
/// four supported values.
pub open spec fn spec_variant_of_bits(n: int) -> Variant {
    if n == 224 {
        Variant::B224
    } else if n == 256 {
        Variant::B256
    } else if n == 384 {
        Variant::B384
    } else {
        Variant::B512
    }
}

/// The salt words when no salt was set.
pub open spec fn spec_zero_salt() -> Seq<u64> {
    seq![0u64, 0u64, 0u64, 0u64]
}

/// The four big-endian salt words read from a salt byte string.
pub open spec fn spec_salt_words(f: Family, b: Seq<u8>) -> Seq<u64> {
    Seq::new(4, |i: int| spec_word_of_bytes(f, b, i * spec_word_bytes(f)))
}

fn salt_words(f: Family, b: &Vec<u8>) -> (w: Vec<u64>)
    requires
        b@.len() == spec_salt_bytes(f),
    ensures
        w@ == spec_salt_words(f, b@),
        w@.len() == 4,
        fits_all(f, w@),
{
    let wb = word_bytes(f);
    let mut w: Vec<u64> = Vec::new();
    let mut i: usize = 0;
    let mut pos: usize = 0;
    while i < 4
        invariant
            i <= 4,
            pos == i * spec_word_bytes(f),
            wb == spec_word_bytes(f),
            b@.len() == spec_salt_bytes(f),
            w@.len() == i,
            fits_all(f, w@),
            forall|j: int| 0 <= j < i ==> w@[j] == spec_word_of_bytes(
                f,
                b@,
                j * spec_word_bytes(f),
            ),
        decreases 4 - i,
    {
        proof {
            assert((i + 1) * spec_word_bytes(f) == i * spec_word_bytes(f) + spec_word_bytes(f))
                by (nonlinear_arith);
            assert(4 * spec_word_bytes(f) == spec_salt_bytes(f));
            assert(i * spec_word_bytes(f) + spec_word_bytes(f) <= 4 * spec_word_bytes(f))
                by (nonlinear_arith)
                requires
                    i < 4,
                    spec_word_bytes(f) > 0,
            ;
        }
        let word = word_of_bytes(f, b, pos);
        w.push(word);
        pos = pos + wb;
        i += 1;
    }
    proof {
        assert(w@ =~= spec_salt_words(f, b@));
    }
    w
}

/// Hashing state for incremental input.
///
/// Construction selects a variant; data then arrives through `update` in
/// pieces of any size, and `finalise` writes the digest. The digest that
/// `finalise` promises depends only on the variant, the salt, and the
/// concatenation of every `update`'s bytes, so any chunking of the same
/// message yields the same digest as the one-shot `hash`.
pub struct Blake {
    variant: Variant,
    h: Vec<u64>,
    buf: Vec<u8>,
    tcount: u128,
    salt: Vec<u64>,
    finalized: bool,
    salt_locked: bool,
    msg: Ghost<Seq<u8>>,
}

impl Blake {
    /// The variant selected at construction.
    pub closed spec fn spec_variant(self) -> Variant {
        self.variant
    }

    /// Every byte fed so far, in order.
    pub closed spec fn spec_msg(self) -> Seq<u8> {
        self.msg@
    }

    /// The salt words mixed into every compression call.
    pub closed spec fn spec_salt(self) -> Seq<u64> {
        self.salt@
    }

    /// Whether `finalise` has consumed this state.
    pub closed spec fn spec_finalized(self) -> bool {
        self.finalized
    }

    /// Whether an `update` has already locked the salt.
    pub closed spec fn spec_salt_locked(self) -> bool {
        self.salt_locked
    }

    spec fn wf_open(self) -> bool {
        let f = spec_family(self.variant);
        let bb = spec_block_bytes(f);
        let clen = self.msg@.len() - self.buf@.len();
        &&& self.h@.len() == 8
        &&& fits_all(f, self.h@)
        &&& self.salt@.len() == 4
        &&& fits_all(f, self.salt@)
        &&& self.buf@.len() < bb
        &&& self.buf@.len() <= self.msg@.len()
        &&& clen % bb == 0
        &&& self.buf@ == self.msg@.skip(clen)
        &&& self.tcount == (8 * clen) % spec_cmod(f)
        &&& self.h@ == spec_absorb(f, self.salt@, spec_iv(self.variant), self.msg@.take(clen), 0)
        &&& (!self.salt_locked ==> self.msg@ == Seq::<u8>::empty())
    }

    /// The state invariant: an open state carries a chaining value that
    /// equals the absorption of every full block fed so far.
    pub closed spec fn wf(self) -> bool {
        self.finalized || self.wf_open()
    }

    /// Creates a state for the given digest bit length.
    ///
    /// Exactly 224, 256, 384 and 512 are accepted; anything else is
    /// rejected with `BadDigestLength` and no state is created.
    pub fn new(hashbitlen: i32) -> (r: Result<Blake, BlakeError>)
        ensures
            (hashbitlen == 224 || hashbitlen == 256 || hashbitlen == 384 || hashbitlen == 512)
                <==> r is Ok,
            r is Err ==> r->Err_0 == BlakeError::BadDigestLength,
            r is Ok ==> ({
                let b = r->Ok_0;
                &&& b.wf()
                &&& b.spec_variant() == spec_variant_of_bits(hashbitlen as int)
                &&& b.spec_msg() == Seq::<u8>::empty()
                &&& b.spec_salt() == spec_zero_salt()
                &&& !b.spec_finalized()
                &&& !b.spec_salt_locked()
            }),
    {
        let variant = if hashbitlen == 224 {
            Variant::B224
        } else if hashbitlen == 256 {
            Variant::B256
        } else if hashbitlen == 384 {
            Variant::B384
        } else if hashbitlen == 512 {
            Variant::B512
        } else {
            return Err(BlakeError::BadDigestLength);
        };
        let h = make_iv(variant);
        let mut salt: Vec<u64> = Vec::new();
        salt.push(0);
        salt.push(0);
        salt.push(0);
        salt.push(0);
        let b = Blake {
            variant,
            h,
            buf: Vec::new(),
            tcount: 0,
            salt,
            finalized: false,
            salt_locked: false,
            msg: Ghost(Seq::empty()),
        };
        proof {
            assert(b.salt@ =~= spec_zero_salt());
            assert(b.msg@.skip(0) =~= b.buf@);
            assert(b.msg@.take(0) =~= Seq::<u8>::empty());
        }
        Ok(b)
    }

    /// Stores a salt, legal only before the first `update`.
    ///
    /// The salt must hold exactly 16 bytes for the 224/256 variants and
    /// 32 bytes for 384/512; a wrong length is `BadSaltLength`, and a
    /// call after any `update` or after `finalise` is
    /// `InvalidStateTransition`. On error the state is unchanged.
    pub fn add_salt(&mut self, salt: &[u8]) -> (r: Result<(), BlakeError>)
        requires
            old(self).wf(),
        ensures
            final(self).wf(),
            old(self).spec_finalized() ==> r == Err::<(), BlakeError>(
                BlakeError::InvalidStateTransition,
            ) && *final(self) == *old(self),
            !old(self).spec_finalized() && old(self).spec_salt_locked() ==> r == Err::<
                (),
                BlakeError,
            >(BlakeError::InvalidStateTransition) && *final(self) == *old(self),
            !old(self).spec_finalized() && !old(self).spec_salt_locked() && salt@.len()
                != spec_salt_bytes(spec_family(old(self).spec_variant())) ==> r == Err::<
                (),
                BlakeError,
            >(BlakeError::BadSaltLength) && *final(self) == *old(self),
            !old(self).spec_finalized() && !old(self).spec_salt_locked() && salt@.len()
                == spec_salt_bytes(spec_family(old(self).spec_variant())) ==> ({
                &&& r == Ok::<(), BlakeError>(())
                &&& final(self).spec_salt() == spec_salt_words(
                    spec_family(old(self).spec_variant()),
                    salt@,
                )
                &&& final(self).spec_variant() == old(self).spec_variant()
                &&& final(self).spec_msg() == old(self).spec_msg()
                &&& !final(self).spec_finalized()
                &&& !final(self).spec_salt_locked()
            }),
    {
        if self.finalized {
            return Err(BlakeError::InvalidStateTransition);
        }
        if self.salt_locked {
            return Err(BlakeError::InvalidStateTransition);
        }
        let f = family(self.variant);
        let sb = salt_bytes(f);
        if salt.len() != sb {
            return Err(BlakeError::BadSaltLength);
        }
        let sv = vec_of_slice(salt);
        let words = salt_words(f, &sv);
        self.salt = words;
        proof {
            assert(self.msg@.take(0) =~= Seq::<u8>::empty());
            assert(self.msg@.skip(0) =~= self.msg@);
        }
        Ok(())
    }

    /// Feeds more message bytes.
    ///
    /// Whole blocks are compressed as they fill; the remainder stays
    /// buffered. The only failure is a call after `finalise`.
    #[verifier::rlimit(100)]
    pub fn update(&mut self, data: &[u8]) -> (r: Result<(), BlakeError>)
        requires
            old(self).wf(),
        ensures
            final(self).wf(),
            old(self).spec_finalized() ==> r == Err::<(), BlakeError>(
                BlakeError::InvalidStateTransition,
            ) && *final(self) == *old(self),
            !old(self).spec_finalized() ==> ({
                &&& r == Ok::<(), BlakeError>(())
                &&& final(self).spec_msg() == old(self).spec_msg() + data@
                &&& final(self).spec_variant() == old(self).spec_variant()
                &&& final(self).spec_salt() == old(self).spec_salt()
                &&& !final(self).spec_finalized()
                &&& final(self).spec_salt_locked()
            }),
    {
        if self.finalized {
            return Err(BlakeError::InvalidStateTransition);
        }
        self.salt_locked = true;
        let f = family(self.variant);
        let bb = block_bytes(f);
        let bbits: u64 = (bb * 8) as u64;
        let mut k: usize = 0;
        while k < data.len()
            invariant
                k <= data@.len(),
                self.wf_open(),
                self.variant == old(self).variant,
                self.salt@ == old(self).salt@,
                !self.finalized,
                self.salt_locked,
                self.msg@ == old(self).msg@ + data@.take(k as int),
                f == spec_family(self.variant),
                bb == spec_block_bytes(f),
                bbits == 8 * spec_block_bytes(f),
            decreases data@.len() - k,
        {
            let ghost pre = *self;
            let ghost clen = pre.msg@.len() - pre.buf@.len();
            let b = data[k];
            self.buf.push(b);
            self.msg = Ghost(self.msg@ + seq![b]);
            proof {
                assert(pre.buf@.push(b) =~= pre.buf@ + seq![b]);
                assert(self.msg@.take(clen) =~= pre.msg@.take(clen));
                assert(self.msg@.skip(clen) =~= pre.msg@.skip(clen) + seq![b]);
                assert(old(self).msg@ + data@.take(k + 1) =~= (old(self).msg@ + data@.take(
                    k as int,
                )) + seq![data@[k as int]]);
            }
            if self.buf.len() == bb {
                let newt = bump_counter(f, self.tcount, bbits);
                let (lo, hi) = split_counter(f, newt);
                proof {
                    vstd::arithmetic::div_mod::lemma_small_mod(
                        (8 * spec_block_bytes(f)) as nat,
                        spec_cmod(f) as nat,
                    );
                    vstd::arithmetic::div_mod::lemma_add_mod_noop(
                        8 * clen,
                        8 * spec_block_bytes(f),
                        spec_cmod(f),
                    );
                    vstd::arithmetic::div_mod::lemma_small_mod(
                        newt as nat,
                        spec_cmod(f) as nat,
                    );
                    assert(newt == (8 * clen + 8 * spec_block_bytes(f)) % spec_cmod(f));
                }
                compress(f, &mut self.h, &self.salt, &self.buf, lo, hi, false);
                self.tcount = newt;
                self.buf = Vec::new();
                proof {
                    let full = self.msg@;
                    let tail = full.skip(clen);
                    assert(tail.len() == spec_block_bytes(f));
                    assert(full.take(clen) + tail =~= full);
                    lemma_absorb_snoc(
                        f,
                        self.salt@,
                        spec_iv(self.variant),
                        full.take(clen),
                        tail,
                        0,
                    );
                    assert(full.take(full.len() as int) =~= full);
                    assert(full.skip(full.len() as int) =~= self.buf@);
                }
            }
            k += 1;
        }
        proof {
            assert(old(self).msg@ + data@.take(data@.len() as int) =~= old(self).msg@ + data@);
        }
        Ok(())
    }

    /// Pads the pending remainder, compresses the one or two final
    /// blocks, and writes the digest into the front of `out`.
    ///
    /// `out` must hold at least the variant's digest length; bytes past
    /// the digest are left as they were. The state is consumed: any
    /// later call fails with `InvalidStateTransition`. A too-small `out`
    /// is reported as `OutputBufferTooSmall` with nothing changed.
    #[verifier::rlimit(100)]
    pub fn finalise(&mut self, out: &mut Vec<u8>) -> (r: Result<(), BlakeError>)
        requires
            old(self).wf(),
        ensures
            final(self).wf(),
            old(self).spec_finalized() ==> r == Err::<(), BlakeError>(
                BlakeError::InvalidStateTransition,
            ) && *final(self) == *old(self) && *final(out) == *old(out),
            !old(self).spec_finalized() && old(out)@.len() < spec_digest_bytes(
                old(self).spec_variant(),
            ) ==> r == Err::<(), BlakeError>(BlakeError::OutputBufferTooSmall) && *final(self)
                == *old(self) && *final(out) == *old(out),
            !old(self).spec_finalized() && old(out)@.len() >= spec_digest_bytes(
                old(self).spec_variant(),
            ) ==> ({
                &&& r == Ok::<(), BlakeError>(())
                &&& final(self).spec_finalized()
                &&& final(out)@ == spec_digest_of(
                    old(self).spec_variant(),
                    old(self).spec_salt(),
                    old(self).spec_msg(),
                ) + old(out)@.skip(spec_digest_bytes(old(self).spec_variant()))
                &&& final(out)@.len() == old(out)@.len()
            }),
    {
        if self.finalized {
            return Err(BlakeError::InvalidStateTransition);
        }
        let db = digest_bytes(self.variant);
        if out.len() < db {
            return Err(BlakeError::OutputBufferTooSmall);
        }
        let f = family(self.variant);
        let bb = block_bytes(f);
        let fill = fill_index(f);
        let rlen = self.buf.len();
        let ghost msgv = self.msg@;
        let ghost sv = self.salt@;
        let ghost vv = self.variant;
        let ghost clen = msgv.len() - rlen;
        let ghost remv = self.buf@;
        proof {
            vstd::arithmetic::div_mod::lemma_fundamental_div_mod(clen, bb as int);
            vstd::arithmetic::div_mod::lemma_mod_multiples_vanish(
                clen / (bb as int),
                rlen as int,
                bb as int,
            );
            vstd::arithmetic::div_mod::lemma_small_mod(rlen as nat, bb as nat);
            assert(msgv.len() as int % spec_block_bytes(f) == rlen as int);
        }
        let rbits: u64 = (rlen * 8) as u64;
        let lt = bump_counter(f, self.tcount, rbits);
        proof {
            vstd::arithmetic::div_mod::lemma_small_mod((8 * rlen) as nat, spec_cmod(f) as nat);
            vstd::arithmetic::div_mod::lemma_add_mod_noop(8 * clen, 8 * rlen, spec_cmod(f));
            vstd::arithmetic::div_mod::lemma_small_mod(lt as nat, spec_cmod(f) as nat);
            assert(lt == (8 * msgv.len() as int) % spec_cmod(f));
            assert(spec_lo_word(f, lt as int) == spec_lo_word(f, 8 * msgv.len() as int));
            assert(spec_hi_word(f, lt as int) == spec_hi_word(f, 8 * msgv.len() as int));
        }
        let (t0, t1) = split_counter(f, lt);
        let zo: u8 = if domain_mark(self.variant) {
            0x01
        } else {
            0x00
        };
        let lenb = len_bytes(f, lt);
        proof {
            assert(lenb@ == spec_len_bytes(f, 8 * msgv.len() as int));
        }
        if rlen == fill {
            let oz: u8 = if domain_mark(self.variant) {
                0x81
            } else {
                0x80
            };
            self.buf.push(oz);
            append_bytes(&mut self.buf, &lenb);
            proof {
                assert(self.buf@ =~= remv + seq![oz] + lenb@);
            }
            compress(f, &mut self.h, &self.salt, &self.buf, t0, t1, false);
        } else if rlen < fill {
            self.buf.push(0x80);
            push_zeros(&mut self.buf, fill - rlen - 1);
            self.buf.push(zo);
            append_bytes(&mut self.buf, &lenb);
            proof {
                assert(self.buf@ =~= remv + seq![0x80u8] + spec_zeros(fill - rlen - 1)
                    + seq![zo] + lenb@);
            }
            compress(f, &mut self.h, &self.salt, &self.buf, t0, t1, rlen == 0);
        } else {
            self.buf.push(0x80);
            push_zeros(&mut self.buf, bb - rlen - 1);
            proof {
                assert(self.buf@ =~= remv + seq![0x80u8] + spec_zeros(bb - rlen - 1));
            }
            compress(f, &mut self.h, &self.salt, &self.buf, t0, t1, false);
            let mut blk2: Vec<u8> = Vec::new();
            push_zeros(&mut blk2, fill);
            blk2.push(zo);
            append_bytes(&mut blk2, &lenb);
            proof {
                assert(blk2@ =~= spec_zeros(fill as int) + seq![zo] + lenb@);
            }
            compress(f, &mut self.h, &self.salt, &blk2, 0, 0, true);
        }
        proof {
            lemma_digest_len(vv, sv, msgv);
        }
        let ow = out_words(self.variant);
        let dv = digest_vec(f, &self.h, ow);
        proof {
            assert(dv@ == spec_digest_of(vv, sv, msgv));
            assert(dv@.len() == db);
        }
        let mut j: usize = 0;
        while j < db
            invariant
                j <= db,
                db <= out@.len(),
                dv@.len() == db,
                out@.len() == old(out)@.len(),
                forall|q: int| 0 <= q < j ==> out@[q] == dv@[q],
                forall|q: int| j <= q < out@.len() ==> out@[q] == old(out)@[q],
            decreases db - j,
        {
            let x = dv[j];
            out.set(j, x);
            j += 1;
        }
        proof {
            assert(out@ =~= dv@ + old(out)@.skip(db as int));
        }
        self.finalized = true;
        Ok(())
    }
}

/// One-shot digest: create a state, feed `data` once, finalise into the
/// front of `hashval`; bytes past the digest are left as they were.
pub fn hash(hashbitlen: i32, data: &[u8], hashval: &mut Vec<u8>) -> (r: Result<(), BlakeError>)
    ensures
        !(hashbitlen == 224 || hashbitlen == 256 || hashbitlen == 384 || hashbitlen == 512)
            ==> r == Err::<(), BlakeError>(BlakeError::BadDigestLength) && *final(hashval)
            == *old(hashval),
        (hashbitlen == 224 || hashbitlen == 256 || hashbitlen == 384 || hashbitlen == 512)
            && old(hashval)@.len() < spec_digest_bytes(spec_variant_of_bits(hashbitlen as int))
            ==> r == Err::<(), BlakeError>(BlakeError::OutputBufferTooSmall) && *final(hashval)
            == *old(hashval),
        (hashbitlen == 224 || hashbitlen == 256 || hashbitlen == 384 || hashbitlen == 512)
            && old(hashval)@.len() >= spec_digest_bytes(spec_variant_of_bits(hashbitlen as int))
            ==> ({
            let v = spec_variant_of_bits(hashbitlen as int);
            &&& r == Ok::<(), BlakeError>(())
            &&& final(hashval)@ == spec_digest_of(v, spec_zero_salt(), data@) + old(
                hashval,
            )@.skip(spec_digest_bytes(v))
            &&& final(hashval)@.len() == old(hashval)@.len()
        }),
{
    match Blake::new(hashbitlen) {
        Err(e) => Err(e),
        Ok(mut state) => {
            // a fresh state is never finalised, so this update cannot fail
            let _ = state.update(data);
            state.finalise(hashval)
        }
    }
}

/// The concatenation of a list of chunks, in order.
pub open spec fn spec_concat(chunks: Seq<Seq<u8>>) -> Seq<u8>
    decreases chunks.len(),
{
    if chunks.len() == 0 {
        Seq::empty()
    } else {
        chunks[0] + spec_concat(chunks.drop_first())
    }
}

/// Concatenation distributes over appending chunk lists.
pub proof fn lemma_concat_append(xs: Seq<Seq<u8>>, ys: Seq<Seq<u8>>)
    ensures
        spec_concat(xs + ys) == spec_concat(xs) + spec_concat(ys),
    decreases xs.len(),
{
    if xs.len() == 0 {
        assert(xs + ys =~= ys);
        assert(Seq::<u8>::empty() + spec_concat(ys) =~= spec_concat(ys));
    } else {
        assert((xs + ys).drop_first() =~= xs.drop_first() + ys);
        assert((xs + ys)[0] == xs[0]);
        lemma_concat_append(xs.drop_first(), ys);
        assert(xs[0] + (spec_concat(xs.drop_first()) + spec_concat(ys)) =~= (xs[0]
            + spec_concat(xs.drop_first())) + spec_concat(ys));
    }
}

/// Chunk invariance. `update` appends to the fed message
/// (`final(self).spec_msg() == old(self).spec_msg() + data@`), so after a
/// run of updates the fed message is the concatenation of the chunks, and
/// `finalise` promises the digest of exactly that message. This lemma
/// closes the argument: splitting any one chunk in two, anywhere in the
/// run, concatenates to the same message and so yields the same digest,
/// for every variant and salt. Repeated splits reach every partition of
/// a byte string.
pub proof fn lemma_chunk_invariance(
    v: Variant,
    s: Seq<u64>,
    pre: Seq<Seq<u8>>,
    a: Seq<u8>,
    b: Seq<u8>,
    post: Seq<Seq<u8>>,
)
    ensures
        spec_concat(pre + seq![a + b] + post) == spec_concat(pre + seq![a] + seq![b] + post),
        spec_digest_of(v, s, spec_concat(pre + seq![a + b] + post)) == spec_digest_of(
            v,
            s,
            spec_concat(pre + seq![a] + seq![b] + post),
        ),
{
    lemma_concat_append(pre + seq![a + b], post);
    lemma_concat_append(pre, seq![a + b]);
    lemma_concat_append(pre + seq![a] + seq![b], post);
    lemma_concat_append(pre + seq![a], seq![b]);
    lemma_concat_append(pre, seq![a]);
    assert(spec_concat(Seq::<Seq<u8>>::empty()) =~= Seq::<u8>::empty());
    assert(seq![a + b].drop_first() =~= Seq::<Seq<u8>>::empty());
    assert(seq![a].drop_first() =~= Seq::<Seq<u8>>::empty());
    assert(seq![b].drop_first() =~= Seq::<Seq<u8>>::empty());
    assert(spec_concat(seq![a + b]) =~= a + b);
    assert(spec_concat(seq![a]) =~= a);
    assert(spec_concat(seq![b]) =~= b);
    assert(spec_concat(pre + seq![a + b] + post) =~= spec_concat(pre + seq![a] + seq![b]
        + post));
}

/// Determinism: the digest is a function of variant, salt and message
/// alone, so hashing the same input twice yields identical output.
pub proof fn lemma_digest_deterministic(
    v: Variant,
    s: Seq<u64>,
    msg: Seq<u8>,
    d1: Seq<u8>,
    d2: Seq<u8>,
)
    requires
        d1 == spec_digest_of(v, s, msg),
        d2 == spec_digest_of(v, s, msg),
    ensures
        d1 == d2,
{
}

} // verus!
