//! The extraction state machine: given bytes positioned just after a leading
//! `ESC`, it consumes bytes until a complete sequence has been seen (`End`),
//! the input runs out (incomplete), or a safety cap is hit.

use vstd::prelude::*;

verus! {

/// The escape byte that introduces every recognized sequence.
pub const ESC: u8 = 0x1b;

/// How long we let a sequence get before giving up on it: the extractor reads
/// at most this many bytes after the leading `ESC`, and the carry-over buffer
/// never grows beyond it.
pub const MAX_SEQ_SIZE: usize = 256;

/// Inline capacity of the carry-over buffer: two pointers' worth, so the
/// small-vector storage is used fully in the common case of short sequences.
pub const MIN_BUFFER_SIZE: usize = 16;

pub fn is_escape_start(b: u8) -> (r: bool)
    ensures
        r == (b == ESC),
{
    b == ESC
}

pub fn is_escape_end(b: u8) -> (r: bool)
    ensures
        r == (0x40 <= b && b <= 0x7e),
{
    0x40 <= b && b <= 0x7e
}

/// States of the sequence extractor, entered just after the leading `ESC`.
#[derive(Copy, Clone, PartialEq, Eq, Structural, Debug)]
pub enum ExtractState {
    Start,
    CsiStart,
    CsiBody,
    CsiTail,
    Osc,
    OscEsc,
    End,
}

/// The transition function of the extractor: the state after reading byte `b`
/// in state `st`. `End` is absorbing.
pub open spec fn push_spec(st: ExtractState, b: u8) -> ExtractState {
    match st {
        ExtractState::Start => {
            if b == 0x5b {
                ExtractState::CsiStart
            } else if b == 0x5d {
                ExtractState::Osc
            } else {
                ExtractState::End
            }
        },
        ExtractState::CsiStart => {
            if 0x3c <= b && b <= 0x3f {
                ExtractState::CsiStart
            } else if (0x30 <= b && b <= 0x39) || b == 0x3b {
                ExtractState::CsiBody
            } else if 0x20 <= b && b <= 0x2f {
                ExtractState::CsiTail
            } else {
                ExtractState::End
            }
        },
        ExtractState::CsiBody => {
            if (0x30 <= b && b <= 0x39) || b == 0x3b {
                ExtractState::CsiBody
            } else if 0x20 <= b && b <= 0x2f {
                ExtractState::CsiTail
            } else {
                ExtractState::End
            }
        },
        ExtractState::CsiTail => {
            if 0x20 <= b && b <= 0x2f {
                ExtractState::CsiTail
            } else {
                ExtractState::End
            }
        },
        ExtractState::Osc => {
            if b == 0x07 {
                ExtractState::End
            } else if b == 0x1b {
                ExtractState::OscEsc
            } else {
                ExtractState::Osc
            }
        },
        ExtractState::OscEsc => {
            if b == 0x5c {
                ExtractState::End
            } else {
                ExtractState::Osc
            }
        },
        ExtractState::End => ExtractState::End,
    }
}

impl ExtractState {
    /// Feed one byte to the extractor. Returns `false` exactly when the
    /// machine had already reached `End`, in which case the byte is not
    /// consumed and the state does not change.
    pub fn push(&mut self, b: u8) -> (more: bool)
        ensures
            more == (*old(self) != ExtractState::End),
            *final(self) == push_spec(*old(self), b),
    {
        match *self {
            ExtractState::End => false,
            _ => {
                *self = match (*self, b) {
                    (ExtractState::Start, 0x5b) => ExtractState::CsiStart,
                    (ExtractState::Start, 0x5d) => ExtractState::Osc,
                    (ExtractState::Start, _) => ExtractState::End,
                    (ExtractState::CsiStart, 0x3c..=0x3f) => ExtractState::CsiStart,
                    (ExtractState::CsiStart, 0x30..=0x39) | (ExtractState::CsiStart, 0x3b) => ExtractState::CsiBody,
                    (ExtractState::CsiStart, 0x20..=0x2f) => ExtractState::CsiTail,
                    (ExtractState::CsiStart, _) => ExtractState::End,
                    (ExtractState::CsiBody, 0x30..=0x39) | (ExtractState::CsiBody, 0x3b) => ExtractState::CsiBody,
                    (ExtractState::CsiBody, 0x20..=0x2f) => ExtractState::CsiTail,
                    (ExtractState::CsiBody, _) => ExtractState::End,
                    (ExtractState::CsiTail, 0x20..=0x2f) => ExtractState::CsiTail,
                    (ExtractState::CsiTail, _) => ExtractState::End,
                    (ExtractState::Osc, 0x07) => ExtractState::End,
                    (ExtractState::Osc, 0x1b) => ExtractState::OscEsc,
                    (ExtractState::Osc, _) => ExtractState::Osc,
                    (ExtractState::OscEsc, 0x5c) => ExtractState::End,
                    (ExtractState::OscEsc, _) => ExtractState::Osc,
                    (ExtractState::End, _) => ExtractState::End,
                };
                true
            },
        }
    }
}

/// The number of bytes the extractor consumes from `s`, starting in state
/// `st`, before reaching `End`; `None` if it runs out of input first.
pub open spec fn scan_len(st: ExtractState, s: Seq<u8>) -> Option<int>
    decreases s.len(),
{
    if st == ExtractState::End {
        Some(0)
    } else if s.len() == 0 {
        None
    } else {
        match scan_len(push_spec(st, s[0]), s.skip(1)) {
            Some(n) => Some(n + 1),
            None => None,
        }
    }
}

/// The total length (leading `ESC` included) of the complete escape sequence
/// at the front of `s`, scanning at most `MAX_SEQ_SIZE` bytes after the
/// `ESC`; `None` if no terminator appears within that window.
pub open spec fn extract_res(s: Seq<u8>) -> Option<int> {
    let body = s.skip(1).take(vstd::math::min(MAX_SEQ_SIZE as int, s.len() - 1));
    match scan_len(ExtractState::Start, body) {
        Some(n) => Some(n + 1),
        None => None,
    }
}

pub proof fn lemma_scan_len_bounds(st: ExtractState, s: Seq<u8>)
    ensures
        match scan_len(st, s) {
            Some(k) => 0 <= k <= s.len() && (st != ExtractState::End ==> k >= 1),
            None => true,
        },
    decreases s.len(),
{
    if st == ExtractState::End {
    } else if s.len() == 0 {
    } else {
        lemma_scan_len_bounds(push_spec(st, s[0]), s.skip(1));
    }
}

/// A complete scan is decided by the bytes it consumed: extending the input
/// cannot change it.
pub proof fn lemma_scan_len_prefix(st: ExtractState, s: Seq<u8>, t: Seq<u8>)
    requires
        scan_len(st, s) matches Some(k),
    ensures
        scan_len(st, s + t) == scan_len(st, s),
    decreases s.len(),
{
    if st == ExtractState::End {
    } else {
        assert(s.len() > 0);
        assert((s + t)[0] == s[0]);
        assert((s + t).skip(1) =~= s.skip(1) + t);
        lemma_scan_len_prefix(push_spec(st, s[0]), s.skip(1), t);
    }
}

/// If the scan of `s` is incomplete but the scan of `s + t` completes, the
/// completed scan consumed more than all of `s`.
pub proof fn lemma_scan_len_extend(st: ExtractState, s: Seq<u8>, t: Seq<u8>)
    requires
        scan_len(st, s) is None,
        scan_len(st, s + t) matches Some(k),
    ensures
        scan_len(st, s + t) matches Some(k) && k > s.len(),
    decreases s.len(),
{
    assert(st != ExtractState::End);
    if s.len() == 0 {
        assert(s + t =~= t);
        lemma_scan_len_bounds(st, s + t);
    } else {
        assert((s + t)[0] == s[0]);
        assert((s + t).skip(1) =~= s.skip(1) + t);
        lemma_scan_len_extend(push_spec(st, s[0]), s.skip(1), t);
    }
}

/// Bounds of a successful extraction: a complete sequence has its leading
/// `ESC`, at least one more byte, and lies entirely within `s`.
pub proof fn lemma_extract_res_bounds(s: Seq<u8>)
    requires
        s.len() >= 1,
    ensures
        match extract_res(s) {
            Some(n) => 2 <= n <= s.len() && n <= MAX_SEQ_SIZE + 1,
            None => true,
        },
{
    let body = s.skip(1).take(vstd::math::min(MAX_SEQ_SIZE as int, s.len() - 1));
    lemma_scan_len_bounds(ExtractState::Start, body);
}

/// A complete extraction is decided by the bytes it consumed: extending the
/// input cannot change it.
pub proof fn lemma_extract_res_prefix(s: Seq<u8>, t: Seq<u8>)
    requires
        s.len() >= 1,
        extract_res(s) matches Some(n),
    ensures
        extract_res(s + t) == extract_res(s),
{
    let body_s = s.skip(1).take(vstd::math::min(MAX_SEQ_SIZE as int, s.len() - 1));
    let body_st = (s + t).skip(1).take(vstd::math::min(MAX_SEQ_SIZE as int, s.len() + t.len() - 1));
    assert(body_s.len() <= body_st.len());
    let mid = body_st.skip(body_s.len() as int);
    assert(body_st =~= body_s + mid);
    lemma_scan_len_prefix(ExtractState::Start, body_s, mid);
}

/// Once the scanning window is full, further input is never looked at.
pub proof fn lemma_extract_res_cap(s: Seq<u8>, t: Seq<u8>)
    requires
        s.len() >= MAX_SEQ_SIZE + 1,
    ensures
        extract_res(s + t) == extract_res(s),
{
    let body_s = s.skip(1).take(vstd::math::min(MAX_SEQ_SIZE as int, s.len() - 1));
    let body_st = (s + t).skip(1).take(
        vstd::math::min(MAX_SEQ_SIZE as int, s.len() + t.len() - 1),
    );
    assert(body_s =~= body_st);
}

/// If `s` holds no complete sequence but `s + t` does, the complete sequence
/// needs more than all of `s`.
pub proof fn lemma_extract_res_extend(s: Seq<u8>, t: Seq<u8>)
    requires
        s.len() >= 1,
        extract_res(s) is None,
        extract_res(s + t) matches Some(n),
    ensures
        extract_res(s + t) matches Some(n) && n > s.len(),
{
    if s.len() >= MAX_SEQ_SIZE + 1 {
        lemma_extract_res_cap(s, t);
        assert(false);
    } else {
        let body_s = s.skip(1).take(vstd::math::min(MAX_SEQ_SIZE as int, s.len() - 1));
        assert(body_s =~= s.skip(1));
        let body_st = (s + t).skip(1).take(
            vstd::math::min(MAX_SEQ_SIZE as int, s.len() + t.len() - 1),
        );
        let mid = body_st.skip(body_s.len() as int);
        assert(body_st =~= body_s + mid);
        lemma_scan_len_extend(ExtractState::Start, body_s, mid);
    }
}

/// Scan a slice whose first byte is `ESC` for a complete escape sequence.
/// Returns the total sequence length (leading `ESC` included), or `None` if
/// the slice ends, or the scanning window fills, before a terminator.
pub fn scan_sequence(s: &[u8]) -> (r: Option<usize>)
    requires
        s@.len() >= 1,
        s@[0] == ESC,
    ensures
        match r {
            Some(n) => extract_res(s@) == Some(n as int) && 2 <= n <= s@.len(),
            None => extract_res(s@) is None,
        },
{
    let ghost body = s@.skip(1).take(vstd::math::min(MAX_SEQ_SIZE as int, s@.len() - 1));
    let mut st = ExtractState::Start;
    let mut i: usize = 1;
    let end: usize = if s.len() - 1 > MAX_SEQ_SIZE {
        MAX_SEQ_SIZE + 1
    } else {
        s.len()
    };
    proof {
        assert(body.len() == end - 1);
        assert(body =~= body.skip(0));
    }
    while i < end && st != ExtractState::End
        invariant
            1 <= i <= end,
            end == vstd::math::min(MAX_SEQ_SIZE as int, s@.len() - 1) + 1,
            end <= s@.len(),
            body == s@.skip(1).take(vstd::math::min(MAX_SEQ_SIZE as int, s@.len() - 1)),
            body.len() == end - 1,
            forall|j: int| 0 <= j < body.len() ==> body[j] == s@[j + 1],
            match scan_len(st, body.skip(i - 1)) {
                Some(k) => scan_len(ExtractState::Start, body) == Some(k + i - 1),
                None => scan_len(ExtractState::Start, body) is None,
            },
        decreases end - i,
    {
        let b = *vstd::slice::slice_index_get(s, i);
        proof {
            assert(body.skip(i - 1).len() > 0);
            assert(body.skip(i - 1)[0] == body[i - 1]);
            assert(body[i - 1] == s@[i as int]);
            assert(body.skip(i - 1).skip(1) =~= body.skip(i as int));
        }
        st.push(b);
        i = i + 1;
    }
    if st == ExtractState::End {
        proof {
            assert(scan_len(st, body.skip(i - 1)) == Some(0int));
            lemma_scan_len_bounds(ExtractState::Start, body);
        }
        Some(i)
    } else {
        proof {
            assert(i == end);
            assert(body.skip(i - 1).len() == 0);
            assert(scan_len(st, body.skip(i - 1)) is None);
        }
        None
    }
}

} // verus!
