//! Scenario tests: exact observable output for concrete streams, default
//! handling of absent parameters, and progress against adversarial input.

use ansi_interpreter::dispatch::decode_sequence;
use ansi_interpreter::dispatch::Action;
use ansi_interpreter::dispatch::DecodeError;
use ansi_interpreter::dispatch::InvalidEraseDisplayArg;
use ansi_interpreter::dispatch::InvalidEraseLineArg;
use ansi_interpreter::dispatch::WriteError;
use ansi_interpreter::intercept::AnsiIntercept;
use ansi_interpreter::params::MalformedSeq;
use ansi_interpreter::tape::TapeInterpret;

fn run(input: &[u8]) -> String {
    let mut intercept = AnsiIntercept::new(TapeInterpret::new());
    let mut buf = input;
    while buf.len() > 0 {
        match intercept.write(buf) {
            Ok(0) => panic!("interceptor accepted nothing"),
            Ok(n) => {
                buf = &buf[n..];
            },
            Err(e) => panic!("interceptor failed: {:?}", e),
        }
    }
    String::from_utf8(intercept.interpreter().out.clone()).unwrap()
}

/// Feed the input in fixed-size pieces, writing each piece again until it
/// is consumed; a zero count only follows the overflow dump and the retry
/// then makes progress.
fn run_chunked(input: &[u8], piece: usize) -> String {
    let mut intercept = AnsiIntercept::new(TapeInterpret::new());
    for chunk in input.chunks(piece) {
        let mut buf = chunk;
        while buf.len() > 0 {
            match intercept.write(buf) {
                Ok(n) => {
                    buf = &buf[n..];
                },
                Err(e) => panic!("interceptor failed: {:?}", e),
            }
        }
    }
    String::from_utf8(intercept.interpreter().out.clone()).unwrap()
}

#[test]
fn sgr_roundtrip_in_text() {
    assert_eq!(run(b"Hello, \x1b[31mWorld\x1b[m!"), "Hello, [SGR:31]World[SGR:0]!");
}

#[test]
fn cursor_position_two_params() {
    assert_eq!(run(b"\x1b[4;12H"), "[CUP:4,12]");
}

#[test]
fn erase_display_variants() {
    assert_eq!(run(b"\x1b[1J and \x1b[J and \x1b[2J"), "[ED:1] and [ED:0] and [ED:2]");
}

#[test]
fn osc_title_with_bel() {
    assert_eq!(run(b"\x1b]2;Title\x07"), "[OSC:2,\"Title\"]");
}

#[test]
fn osc_title_with_st() {
    assert_eq!(run(b"\x1b]0;Title\x1b\\"), "[OSC:0,\"Title\"]");
}

#[test]
fn chunked_sequence_emits_once_complete() {
    let mut intercept = AnsiIntercept::new(TapeInterpret::new());
    assert_eq!(intercept.write(b"\x1b"), Ok(1));
    assert_eq!(intercept.interpreter().out.len(), 0);
    assert_eq!(intercept.write(b"[31m"), Ok(4));
    assert_eq!(intercept.write(b"X"), Ok(1));
    assert_eq!(
        String::from_utf8(intercept.interpreter().out.clone()).unwrap(),
        "[SGR:31]X"
    );
}

#[test]
fn long_invalid_sequence_makes_progress() {
    let mut input: Vec<u8> = Vec::new();
    input.extend_from_slice(b"\x1b[");
    for i in 0..300usize {
        input.push(b'0' + ((i % 10) as u8));
    }
    input.push(b'.');
    let out = run(&input);
    // every byte emerges as plain text, and at least a window's worth did
    assert!(out.as_bytes().len() >= 256);
    assert_eq!(out.as_bytes(), &input[..]);
}

#[test]
fn chunking_is_invisible_even_across_overflow() {
    // mixed text, sequences, and an unterminated over-window flood: every
    // split of the stream observes the same bytes and sequences
    let mut input: Vec<u8> = Vec::new();
    input.extend_from_slice(b"plain \x1b[31mred\x1b[m ");
    input.extend_from_slice(b"\x1b[");
    for i in 0..300usize {
        input.push(b'0' + ((i % 10) as u8));
    }
    input.extend_from_slice(b" tail \x1b[4;12H.");
    let whole = run(&input);
    for piece in [1usize, 2, 7, 255, 256, 257, 4096] {
        assert_eq!(run_chunked(&input, piece), whole);
    }
}

#[test]
fn defaults_differ_from_explicit_zero() {
    // `ESC [ m`, `ESC [ 0 m` and `ESC [ ; m` all dispatch sgr([0])
    assert_eq!(decode_sequence(b"[m"), Ok(Action::Sgr(vec![0])));
    assert_eq!(decode_sequence(b"[0m"), Ok(Action::Sgr(vec![0])));
    assert_eq!(decode_sequence(b"[;m"), Ok(Action::Sgr(vec![0])));
    // an absent cursor count defaults to 1; an explicit 0 stays 0
    assert_eq!(decode_sequence(b"[A"), Ok(Action::Cuu(1)));
    assert_eq!(decode_sequence(b"[0A"), Ok(Action::Cuu(0)));
    assert_eq!(run(b"\x1b[A\x1b[0A"), "[CUU:1][CUU:0]");
}

#[test]
fn dsr_six_only() {
    assert_eq!(decode_sequence(b"[6n"), Ok(Action::Dsr));
    assert_eq!(decode_sequence(b"[5n"), Ok(Action::Other(b"[5n".to_vec())));
    assert_eq!(decode_sequence(b"[n"), Ok(Action::Other(b"[n".to_vec())));
}

#[test]
fn malformed_parameters_fail_the_write() {
    assert_eq!(
        decode_sequence(b"[1;2;3J"),
        Err(DecodeError::Malformed(MalformedSeq))
    );
    assert_eq!(
        decode_sequence(b"[3J"),
        Err(DecodeError::InvalidEraseDisplay(InvalidEraseDisplayArg))
    );
    assert_eq!(
        decode_sequence(b"[5K"),
        Err(DecodeError::InvalidEraseLine(InvalidEraseLineArg))
    );
    let mut intercept = AnsiIntercept::new(TapeInterpret::new());
    assert_eq!(
        intercept.write(b"\x1b[1;2;3JX"),
        Err(WriteError::InvalidData(DecodeError::Malformed(MalformedSeq)))
    );
    // nothing was consumed and nothing was emitted
    assert_eq!(intercept.interpreter().out.len(), 0);
}

#[test]
fn osc_without_selector_is_malformed() {
    assert_eq!(
        decode_sequence(b"];t\x07"),
        Err(DecodeError::Malformed(MalformedSeq))
    );
    // a selector without `;` is delivered opaquely
    assert_eq!(
        decode_sequence(b"]2\x07"),
        Err(DecodeError::Malformed(MalformedSeq))
    );
}

#[test]
fn opaque_one_byte_sequence() {
    // ESC followed by any non-`[`, non-`]` byte is one opaque sequence
    assert_eq!(run(b"\x1b(ok"), "[UNK:28]ok");
}
