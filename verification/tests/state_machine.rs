//! Chunk invariance, boundary block sizes, salting, digest lengths, and
//! the error paths of the state machine.

use blake::{hash, Blake, BlakeError};

fn one_shot(bits: i32, data: &[u8]) -> Vec<u8> {
    let n = (bits / 8) as usize;
    let mut out = vec![0u8; n];
    hash(bits, data, &mut out).unwrap();
    out
}

fn incremental(bits: i32, chunks: &[&[u8]]) -> Vec<u8> {
    let n = (bits / 8) as usize;
    let mut state = Blake::new(bits).unwrap();
    for c in chunks {
        state.update(c).unwrap();
    }
    let mut out = vec![0u8; n];
    state.finalise(&mut out).unwrap();
    out
}

fn pattern(n: usize) -> Vec<u8> {
    let mut v = Vec::new();
    for i in 0..n {
        v.push((i % 251) as u8);
    }
    v
}

#[test]
fn chunking_matches_one_shot() {
    let data = pattern(200);
    for bits in [224, 256, 384, 512] {
        let whole = one_shot(bits, &data);
        for cut in [0usize, 1, 63, 64, 65, 127, 128, 129, 199, 200] {
            let split = incremental(bits, &[&data[..cut], &data[cut..]]);
            assert_eq!(whole, split);
        }
        let mut many: Vec<&[u8]> = Vec::new();
        for c in data.chunks(7) {
            many.push(c);
        }
        assert_eq!(whole, incremental(bits, &many));
    }
}

#[test]
fn boundary_block_sizes_32bit_family() {
    for bits in [224, 256] {
        for n in [54usize, 55, 56, 63, 64, 65, 127, 128, 129] {
            let data = pattern(n);
            let whole = one_shot(bits, &data);
            assert_eq!(whole.len(), (bits / 8) as usize);
            let split = incremental(bits, &[&data[..n / 2], &data[n / 2..]]);
            assert_eq!(whole, split);
        }
    }
}

#[test]
fn boundary_block_sizes_64bit_family() {
    for bits in [384, 512] {
        for n in [110usize, 111, 112, 127, 128, 129, 255, 256, 257] {
            let data = pattern(n);
            let whole = one_shot(bits, &data);
            assert_eq!(whole.len(), (bits / 8) as usize);
            let split = incremental(bits, &[&data[..n / 2], &data[n / 2..]]);
            assert_eq!(whole, split);
        }
    }
}

#[test]
fn digest_lengths() {
    assert_eq!(one_shot(224, b"abc").len(), 28);
    assert_eq!(one_shot(256, b"abc").len(), 32);
    assert_eq!(one_shot(384, b"abc").len(), 48);
    assert_eq!(one_shot(512, b"abc").len(), 64);
}

#[test]
fn sibling_variants_differ() {
    let a = one_shot(224, b"sibling");
    let b = one_shot(256, b"sibling");
    assert_ne!(a, b[..28].to_vec());
    let c = one_shot(384, b"sibling");
    let d = one_shot(512, b"sibling");
    assert_ne!(c, d[..48].to_vec());
}

#[test]
fn deterministic_repeat() {
    let data = pattern(100);
    for bits in [224, 256, 384, 512] {
        assert_eq!(one_shot(bits, &data), one_shot(bits, &data));
    }
}

#[test]
fn salt_changes_digest() {
    let mut salted = Blake::new(512).unwrap();
    salted.add_salt(b"Violent  murder  of  the  proles").unwrap();
    salted.update(&[]).unwrap();
    let mut out_salted = vec![0u8; 64];
    salted.finalise(&mut out_salted).unwrap();

    let mut plain = Blake::new(512).unwrap();
    plain.update(&[]).unwrap();
    let mut out_plain = vec![0u8; 64];
    plain.finalise(&mut out_plain).unwrap();

    assert_ne!(out_salted, out_plain);
}

#[test]
fn salt_changes_digest_32bit_family() {
    let mut salted = Blake::new(256).unwrap();
    salted.add_salt(b"0123456789abcdef").unwrap();
    salted.update(b"data").unwrap();
    let mut out_salted = vec![0u8; 32];
    salted.finalise(&mut out_salted).unwrap();

    assert_ne!(out_salted, one_shot(256, b"data"));
}

#[test]
fn bad_digest_lengths_rejected() {
    assert_eq!(Blake::new(0).map(|_| ()), Err(BlakeError::BadDigestLength));
    assert_eq!(Blake::new(1).map(|_| ()), Err(BlakeError::BadDigestLength));
    assert_eq!(
        Blake::new(1024).map(|_| ()),
        Err(BlakeError::BadDigestLength)
    );
    let mut out = vec![0u8; 64];
    assert_eq!(hash(0, b"x", &mut out), Err(BlakeError::BadDigestLength));
    assert_eq!(hash(513, b"x", &mut out), Err(BlakeError::BadDigestLength));
}

#[test]
fn bad_salt_length_rejected() {
    let mut state = Blake::new(256).unwrap();
    assert_eq!(state.add_salt(b"short"), Err(BlakeError::BadSaltLength));
    let mut state64 = Blake::new(512).unwrap();
    assert_eq!(
        state64.add_salt(b"0123456789abcdef"),
        Err(BlakeError::BadSaltLength)
    );
}

#[test]
fn salt_after_update_rejected() {
    let mut state = Blake::new(256).unwrap();
    state.update(b"x").unwrap();
    assert_eq!(
        state.add_salt(b"0123456789abcdef"),
        Err(BlakeError::InvalidStateTransition)
    );
}

#[test]
fn use_after_finalise_rejected() {
    let mut state = Blake::new(256).unwrap();
    state.update(b"x").unwrap();
    let mut out = vec![0u8; 32];
    state.finalise(&mut out).unwrap();
    assert_eq!(
        state.update(b"y"),
        Err(BlakeError::InvalidStateTransition)
    );
    assert_eq!(
        state.finalise(&mut out),
        Err(BlakeError::InvalidStateTransition)
    );
    assert_eq!(
        state.add_salt(b"0123456789abcdef"),
        Err(BlakeError::InvalidStateTransition)
    );
}

#[test]
fn short_output_buffer_rejected() {
    let mut state = Blake::new(512).unwrap();
    state.update(b"x").unwrap();
    let mut short = vec![0u8; 63];
    assert_eq!(
        state.finalise(&mut short),
        Err(BlakeError::OutputBufferTooSmall)
    );
    // the state stays usable after the size error
    let mut out = vec![0u8; 64];
    state.finalise(&mut out).unwrap();
    assert_eq!(out, {
        let mut again = vec![0u8; 64];
        hash(512, b"x", &mut again).unwrap();
        again
    });

    let mut small = vec![0u8; 27];
    assert_eq!(
        hash(224, b"x", &mut small),
        Err(BlakeError::OutputBufferTooSmall)
    );
}

#[test]
fn output_past_digest_untouched() {
    let mut out = vec![0xAAu8; 40];
    hash(256, b"tail", &mut out).unwrap();
    assert_eq!(&out[32..], &[0xAAu8; 8][..]);
    assert_ne!(&out[..32], &[0xAAu8; 32][..]);
}

#[test]
fn error_descriptions_distinct() {
    let kinds = [
        BlakeError::BadDigestLength,
        BlakeError::BadSaltLength,
        BlakeError::InvalidStateTransition,
        BlakeError::OutputBufferTooSmall,
    ];
    for i in 0..kinds.len() {
        assert!(!kinds[i].description().is_empty());
        for j in 0..i {
            assert_ne!(kinds[i].description(), kinds[j].description());
        }
    }
}
