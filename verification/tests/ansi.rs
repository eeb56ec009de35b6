//! Tests of the extraction cap and the parameter parsers.

use ansi_interpreter::dispatch::EscSeqParse;
use ansi_interpreter::extract::MAX_SEQ_SIZE;
use ansi_interpreter::extract::MIN_BUFFER_SIZE;
use ansi_interpreter::params::parse_0n;
use ansi_interpreter::params::parse_1n;
use ansi_interpreter::params::parse_2n;
use ansi_interpreter::params::parse_ns;
use ansi_interpreter::params::parse_num;
use ansi_interpreter::params::MalformedSeq;

#[test]
fn test_max_seq_size() {
    assert!(MIN_BUFFER_SIZE < MAX_SEQ_SIZE);
}

#[test]
fn test_esc_seq_parse_used_bytes_size() {
    let dummy = match EscSeqParse::UsedBytes(0) {
        EscSeqParse::UsedBytes(v) => v,
        _ => panic!("wat"),
    };
    let max_size = (1usize << (8 * std::mem::size_of_val(&dummy))) - 1;
    assert!(max_size >= MAX_SEQ_SIZE);
}

#[test]
fn test_parse_0n() {
    assert_eq!(parse_0n(b""), Ok(()));
    assert_eq!(parse_0n(b";"), Err(MalformedSeq));
    assert_eq!(parse_0n(b"0"), Err(MalformedSeq));
    assert_eq!(parse_0n(b"0m"), Err(MalformedSeq));
    assert_eq!(parse_0n(b"0;0"), Err(MalformedSeq));
    assert_eq!(parse_0n(b"0;0m"), Err(MalformedSeq));
}

#[test]
fn test_parse_1n() {
    assert_eq!(parse_1n(b""), Ok(None));
    assert_eq!(parse_1n(b"0"), Ok(Some(0)));
    assert_eq!(parse_1n(b";"), Err(MalformedSeq));
    assert_eq!(parse_1n(b"m"), Err(MalformedSeq));
    assert_eq!(parse_1n(b"0m"), Err(MalformedSeq));
    assert_eq!(parse_1n(b";0"), Err(MalformedSeq));
    assert_eq!(parse_1n(b"0;0"), Err(MalformedSeq));
    assert_eq!(parse_1n(b"0;0m"), Err(MalformedSeq));
}

#[test]
fn test_parse_2n() {
    assert_eq!(parse_2n(b""), Ok((None, None)));
    assert_eq!(parse_2n(b"0"), Ok((Some(0), None)));
    assert_eq!(parse_2n(b";"), Ok((None, None)));
    assert_eq!(parse_2n(b"m"), Err(MalformedSeq));
    assert_eq!(parse_2n(b"0m"), Err(MalformedSeq));
    assert_eq!(parse_2n(b";1"), Ok((None, Some(1))));
    assert_eq!(parse_2n(b"0;1"), Ok((Some(0), Some(1))));
    assert_eq!(parse_2n(b"0;1m"), Err(MalformedSeq));
}

#[test]
fn test_parse_ns() {
    assert_eq!(parse_ns(b""), Ok(vec![]));
    assert_eq!(parse_ns(b"0"), Ok(vec![0]));
    assert_eq!(parse_ns(b";"), Ok(vec![]));
    assert_eq!(parse_ns(b"m"), Err(MalformedSeq));
    assert_eq!(parse_ns(b"0m"), Err(MalformedSeq));
    assert_eq!(parse_ns(b";1"), Ok(vec![1]));
    assert_eq!(parse_ns(b"0;1"), Ok(vec![0, 1]));
    assert_eq!(parse_ns(b"0;1m"), Err(MalformedSeq));
}

#[test]
fn test_parse_num() {
    fn bs(b: &[u8]) -> &[u8] {
        b
    }
    assert_eq!(parse_num(b""), Ok((bs(b""), None)));
    assert_eq!(parse_num(b"0"), Ok((bs(b""), Some(0))));
    assert_eq!(parse_num(b"0;"), Ok((bs(b";"), Some(0))));
    assert_eq!(parse_num(b"0;1"), Ok((bs(b";1"), Some(0))));
    assert_eq!(parse_num(b"1"), Ok((bs(b""), Some(1))));
    assert_eq!(parse_num(b"1;2"), Ok((bs(b";2"), Some(1))));
    assert_eq!(parse_num(b"12"), Ok((bs(b""), Some(12))));
    assert_eq!(parse_num(b"12;3"), Ok((bs(b";3"), Some(12))));

    assert_eq!(parse_num(b"m"), Err(MalformedSeq));
    assert_eq!(parse_num(b"0m"), Err(MalformedSeq));
}

#[test]
fn test_parse_num_saturates() {
    // a parameter too large for u16 saturates instead of wrapping
    assert_eq!(parse_num(b"65535"), Ok((&b""[..], Some(65535))));
    assert_eq!(parse_num(b"99999"), Ok((&b""[..], Some(65535))));
    // and an SGR parameter too large for u8 saturates to 255
    assert_eq!(parse_ns(b"300"), Ok(vec![255]));
}
