//! The mathematical model of the interceptor: what one `write` call does as
//! a function of the carry-over buffer and the chunk, and what a whole byte
//! stream means when processed in one piece.

use vstd::prelude::*;
use crate::dispatch::DecodeError;
use crate::dispatch::decode_spec;
use crate::extract::ESC;
use crate::extract::MAX_SEQ_SIZE;
use crate::extract::extract_res;
use crate::extract::lemma_extract_res_bounds;
use crate::interp::Event;

verus! {

/// Length of the run of bytes at the front of `c` that holds no `ESC`.
pub open spec fn esc_run(c: Seq<u8>) -> int
    decreases c.len(),
{
    if c.len() == 0 || c[0] == ESC {
        0
    } else {
        1 + esc_run(c.skip(1))
    }
}

pub proof fn lemma_esc_run(c: Seq<u8>)
    ensures
        0 <= esc_run(c) <= c.len(),
        forall|j: int| 0 <= j < esc_run(c) ==> c[j] != ESC,
        esc_run(c) < c.len() ==> c[esc_run(c)] == ESC,
    decreases c.len(),
{
    if c.len() == 0 || c[0] == ESC {
    } else {
        lemma_esc_run(c.skip(1));
        assert(forall|j: int| 1 <= j < esc_run(c) ==> c[j] == c.skip(1)[j - 1]);
    }
}

/// The carry-over buffer between writes: empty, or the beginning of an
/// escape sequence that has no terminator yet, never longer than the cap.
pub open spec fn pending_inv(b: Seq<u8>) -> bool {
    &&& b.len() <= MAX_SEQ_SIZE
    &&& b.len() > 0 ==> b[0] == ESC && extract_res(b) is None
}

/// The outcome of one `write` call on the interceptor, at the model level
/// where the backend accepts every callback.
pub struct WStep {
    /// Whether the write succeeds (no malformed parameter section).
    pub ok: bool,
    /// On failure, the decode error surfaced to the caller.
    pub err: Option<DecodeError>,
    /// How many bytes of the chunk the caller sees consumed.
    pub consumed: int,
    /// The interpreter callbacks this write makes.
    pub events: Seq<Event>,
    /// The carry-over buffer after the write.
    pub buffer: Seq<u8>,
}

/// What one `write` of chunk `c`, with carry-over buffer `b`, does.
///
/// With the buffer empty, a leading run of plain text is passed through.
/// Otherwise buffer and chunk are read as one input: a complete sequence is
/// dispatched and its bytes consumed; an incomplete one is buffered whole if
/// it fits, and otherwise the overflow policy dumps the buffer and the
/// chunk's share of the window as plain text, so that unbounded malformed
/// input cannot block the stream.
pub open spec fn wstep(b: Seq<u8>, c: Seq<u8>) -> WStep {
    if b.len() == 0 && esc_run(c) > 0 {
        WStep {
            ok: true,
            err: None,
            consumed: esc_run(c),
            events: seq![Event::Text(c.take(esc_run(c)))],
            buffer: b,
        }
    } else if c.len() == 0 {
        WStep { ok: true, err: None, consumed: 0, events: seq![], buffer: b }
    } else {
        let s = b + c;
        match extract_res(s) {
            Some(n) => match decode_spec(s.subrange(1, n)) {
                Ok(e) => WStep {
                    ok: true,
                    err: None,
                    consumed: n - b.len(),
                    events: seq![e],
                    buffer: Seq::empty(),
                },
                Err(de) => WStep {
                    ok: false,
                    err: Some(de),
                    consumed: 0,
                    events: seq![],
                    buffer: b,
                },
            },
            None => if s.len() <= MAX_SEQ_SIZE {
                WStep { ok: true, err: None, consumed: c.len() as int, events: seq![], buffer: s }
            } else {
                let limit = vstd::math::min(MAX_SEQ_SIZE - b.len(), c.len() as int);
                WStep {
                    ok: true,
                    err: None,
                    consumed: limit,
                    events: seq![Event::Text(b), Event::Text(c.take(limit))],
                    buffer: Seq::empty(),
                }
            },
        }
    }
}

/// One observable unit of the interceptor's behaviour: a passthrough byte,
/// or a dispatched sequence event. Text is flattened to single bytes so
/// that how a run was split across `write_text` calls does not count.
pub enum Obs {
    Byte(u8),
    Act(Event),
}

/// A run of bytes, observed one by one.
pub open spec fn byte_obs(s: Seq<u8>) -> Seq<Obs> {
    s.map_values(|b: u8| Obs::Byte(b))
}

/// The observation one event makes.
pub open spec fn obs_of_event(e: Event) -> Seq<Obs> {
    match e {
        Event::Text(s) => byte_obs(s),
        _ => seq![Obs::Act(e)],
    }
}

/// The observation a whole trace of events makes.
pub open spec fn obs_of_events(es: Seq<Event>) -> Seq<Obs>
    decreases es.len(),
{
    if es.len() == 0 {
        Seq::empty()
    } else {
        obs_of_events(es.drop_last()) + obs_of_event(es.last())
    }
}

/// The bytes of all text events of a trace, in order.
pub open spec fn text_concat(es: Seq<Event>) -> Seq<u8>
    decreases es.len(),
{
    if es.len() == 0 {
        Seq::empty()
    } else {
        text_concat(es.drop_last()) + (match es.last() {
            Event::Text(s) => s,
            _ => Seq::<u8>::empty(),
        })
    }
}

/// How the canonical one-piece processing of a stream ends.
pub enum ProcEnd {
    /// All input consumed; this unterminated tail stays pending.
    Pending(Seq<u8>),
    /// A malformed parameter section stopped the stream.
    Malformed,
}

/// The canonical meaning of a byte stream: its observations and its end.
pub struct Proc {
    pub obs: Seq<Obs>,
    pub end: ProcEnd,
}

/// Process a whole stream in one piece: bytes before an `ESC` pass through
/// one by one; at an `ESC`, a complete sequence is decoded, observed, and
/// skipped; an unterminated sequence longer than the scanning window is the
/// overflow policy's case, whose window passes through as plain text. The
/// stream ends pending on an unterminated tail that fits the window, and
/// stops on a malformed sequence.
pub open spec fn process(s: Seq<u8>) -> Proc
    decreases s.len(),
    via process_decreases
{
    if s.len() == 0 {
        Proc { obs: Seq::empty(), end: ProcEnd::Pending(Seq::empty()) }
    } else if s[0] != ESC {
        let p = process(s.skip(1));
        Proc { obs: seq![Obs::Byte(s[0])] + p.obs, end: p.end }
    } else {
        match extract_res(s) {
            Some(n) => match decode_spec(s.subrange(1, n)) {
                Ok(e) => {
                    let p = process(s.skip(n));
                    Proc { obs: obs_of_event(e) + p.obs, end: p.end }
                },
                Err(_) => Proc { obs: Seq::empty(), end: ProcEnd::Malformed },
            },
            None => if s.len() <= MAX_SEQ_SIZE {
                Proc { obs: Seq::empty(), end: ProcEnd::Pending(s) }
            } else {
                let p = process(s.skip(MAX_SEQ_SIZE as int));
                Proc { obs: byte_obs(s.take(MAX_SEQ_SIZE as int)) + p.obs, end: p.end }
            },
        }
    }
}

#[via_fn]
proof fn process_decreases(s: Seq<u8>) {
    if s.len() > 0 && s[0] == ESC {
        lemma_extract_res_bounds(s);
    }
}

/// The outcome of feeding one chunk to quiescence: a driver that writes
/// each write's unconsumed remainder again until the chunk is consumed.
/// A write can report zero consumed only right after the overflow policy
/// dumped a full buffer, which empties the buffer, so writing the same
/// bytes again then makes progress. `ok` is false when the chunk could not
/// be finished: a failed write.
pub struct FeedOut {
    pub ok: bool,
    pub events: Seq<Event>,
    pub buffer: Seq<u8>,
}

/// Feed one chunk to quiescence.
pub open spec fn wfeed(b: Seq<u8>, c: Seq<u8>) -> FeedOut
    decreases c.len(), b.len(),
{
    if c.len() == 0 {
        FeedOut { ok: true, events: Seq::empty(), buffer: b }
    } else {
        let st = wstep(b, c);
        if !st.ok {
            FeedOut { ok: false, events: Seq::empty(), buffer: b }
        } else if st.consumed == 0 && st.buffer.len() < b.len() {
            // nothing consumed, but the buffer shrank: write the same bytes again
            let rest = wfeed(st.buffer, c);
            FeedOut { ok: rest.ok, events: st.events + rest.events, buffer: rest.buffer }
        } else if st.consumed <= 0 || st.consumed > c.len() {
            FeedOut { ok: false, events: st.events, buffer: st.buffer }
        } else {
            let rest = wfeed(st.buffer, c.skip(st.consumed));
            FeedOut { ok: rest.ok, events: st.events + rest.events, buffer: rest.buffer }
        }
    }
}

/// Feed a whole split of the stream, chunk by chunk.
pub open spec fn wrun(b: Seq<u8>, chunks: Seq<Seq<u8>>) -> FeedOut
    decreases chunks.len(),
{
    if chunks.len() == 0 {
        FeedOut { ok: true, events: Seq::empty(), buffer: b }
    } else {
        let f = wfeed(b, chunks[0]);
        if !f.ok {
            FeedOut { ok: false, events: f.events, buffer: f.buffer }
        } else {
            let r = wrun(f.buffer, chunks.skip(1));
            FeedOut { ok: r.ok, events: f.events + r.events, buffer: r.buffer }
        }
    }
}

} // verus!
