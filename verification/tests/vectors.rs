//! Known-answer vectors for all four variants.

use blake::{hash, Blake};

fn hx(s: &str) -> Vec<u8> {
    let b = s.as_bytes();
    assert!(b.len() % 2 == 0);
    let mut out = Vec::new();
    let mut i = 0;
    while i < b.len() {
        let hi = (b[i] as char).to_digit(16).unwrap() as u8;
        let lo = (b[i + 1] as char).to_digit(16).unwrap() as u8;
        out.push(hi * 16 + lo);
        i += 2;
    }
    out
}

fn one_shot(bits: i32, data: &[u8]) -> Vec<u8> {
    let n = (bits / 8) as usize;
    let mut out = vec![0u8; n];
    hash(bits, data, &mut out).unwrap();
    out
}

#[test]
fn empty_input_224() {
    assert_eq!(
        one_shot(224, b""),
        hx("7dc5313b1c04512a174bd6503b89607aecbee0903d40a8a569c94eed")
    );
}

#[test]
fn empty_input_256() {
    assert_eq!(
        one_shot(256, b""),
        hx("716f6e863f744b9ac22c97ec7b76ea5f5908bc5b2f67c61510bfc4751384ea7a")
    );
}

#[test]
fn empty_input_384() {
    assert_eq!(
        one_shot(384, b""),
        hx("c6cbd89c926ab525c242e6621f2f5fa73aa4afe3d9e24aed727faaadd6af38b6\
            20bdb623dd2b4788b1c8086984af8706".replace(char::is_whitespace, "").as_str())
    );
}

#[test]
fn empty_input_512() {
    assert_eq!(
        one_shot(512, b""),
        hx("a8cfbbd73726062df0c6864dda65defe58ef0cc52a5625090fa17601e1eecd1b\
            628e94f396ae402a00acc9eab77b4d4c2e852aaaa25a636d80af3fc7913ef5b8"
            .replace(char::is_whitespace, "").as_str())
    );
}

#[test]
fn lazy_fox_256() {
    assert_eq!(
        one_shot(256, b"The lazy fox jumps over the lazy dog"),
        hx("1b597c7a889fceb1cc756d6c6c06a7f9225e02bb0c026e8bc5eb4ea7610ebb9e")
    );
}

#[test]
fn lazy_fox_period_224() {
    assert_eq!(
        one_shot(224, b"The lazy fox jumps over the lazy dog."),
        hx("3497890fbc6a981cd2213497e4a80a66d65f4c053d710f7eab81a42f")
    );
}

#[test]
fn lazy_fox_period_256() {
    assert_eq!(
        one_shot(256, b"The lazy fox jumps over the lazy dog."),
        hx("f2e5a9d093d8aa234e6c545061e817be838b57d8998f15df72e1037fbfeb4fc7")
    );
}

#[test]
fn lazy_fox_period_384() {
    assert_eq!(
        one_shot(384, b"The lazy fox jumps over the lazy dog."),
        hx("dd681e3b56e48001395af7b7367e50d274612bc8cbfb42ee0cec30459c8d0166\
            fcb542e28cb059728d7b0a16054eb2eb".replace(char::is_whitespace, "").as_str())
    );
}

#[test]
fn lazy_fox_period_512() {
    assert_eq!(
        one_shot(512, b"The lazy fox jumps over the lazy dog."),
        hx("9ad466cf818b469d298c6200acd306f9a2f4a49e268ca117b58f378486351b0a\
            711b60d41b687fd35f30be2e00a825d6666d9c4c23a523d310a0583f1e7cccfe"
            .replace(char::is_whitespace, "").as_str())
    );
}

#[test]
fn incremental_512_known_answer() {
    let mut state = Blake::new(512).unwrap();
    state
        .update("Za\u{17c}\u{f3}\u{142}\u{107} ".as_bytes())
        .unwrap();
    state.update("g\u{119}\u{15b}l\u{105} ".as_bytes()).unwrap();
    state.update("ja\u{17a}\u{144}".as_bytes()).unwrap();
    let mut out = vec![0u8; 64];
    state.finalise(&mut out).unwrap();
    assert_eq!(
        out,
        hx("3443d3150060fe8dbbb12174877b8aa26719edc966d6ecb58f94bde35ad89699\
            ea03ebc20e2bcd805c0b09956a1eee3d1f072b3364471568109e43c40ce127da"
            .replace(char::is_whitespace, "").as_str())
    );
}

#[test]
fn incremental_256_known_answer() {
    let mut state = Blake::new(256).unwrap();
    state.update(b"Abolish ").unwrap();
    state.update(b"the ").unwrap();
    state.update(b"bourgeoisie").unwrap();
    state.update(b"!").unwrap();
    let mut out = vec![0u8; 32];
    state.finalise(&mut out).unwrap();
    assert_eq!(
        out,
        hx("35bf9c70ff63f1266ae72cc9946f59bb0b21d8cc8e4dbb5324df10b711f9821c")
    );
}
