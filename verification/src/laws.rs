//! The laws of the interceptor, proved over its model: plain text is never
//! lost, the observed behaviour does not depend on how the stream is split
//! into writes, and adversarial unterminated input cannot block the stream.

use vstd::prelude::*;
use crate::dispatch::decode_spec;
use crate::extract::ESC;
use crate::extract::MAX_SEQ_SIZE;
use crate::extract::extract_res;
use crate::extract::lemma_extract_res_bounds;
use crate::extract::lemma_extract_res_cap;
use crate::extract::lemma_extract_res_extend;
use crate::extract::lemma_extract_res_prefix;
use crate::interp::Event;
use crate::model::Obs;
use crate::model::ProcEnd;
use crate::model::byte_obs;
use crate::model::esc_run;
use crate::model::lemma_esc_run;
use crate::model::obs_of_event;
use crate::model::obs_of_events;
use crate::model::pending_inv;
use crate::model::process;
use crate::model::text_concat;
use crate::model::wfeed;
use crate::model::wrun;
use crate::model::wstep;

verus! {

/// The observation of a concatenated trace splits at the seam.
pub proof fn lemma_obs_concat(a: Seq<Event>, b: Seq<Event>)
    ensures
        obs_of_events(a + b) == obs_of_events(a) + obs_of_events(b),
    decreases b.len(),
{
    if b.len() == 0 {
        assert(a + b =~= a);
        assert(obs_of_events(a) + obs_of_events(b) =~= obs_of_events(a));
    } else {
        assert((a + b).drop_last() =~= a + b.drop_last());
        assert((a + b).last() == b.last());
        lemma_obs_concat(a, b.drop_last());
        assert(obs_of_events(a) + obs_of_events(b) =~= (obs_of_events(a) + obs_of_events(
            b.drop_last(),
        )) + obs_of_event(b.last()));
    }
}

/// A trace of one event observes as that event alone.
pub proof fn lemma_obs_single(e: Event)
    ensures
        obs_of_events(seq![e]) == obs_of_event(e),
{
    assert(seq![e].drop_last() =~= Seq::<Event>::empty());
    assert(seq![e].last() == e);
    assert(obs_of_events(Seq::<Event>::empty()) == Seq::<Obs>::empty());
    assert(Seq::<Obs>::empty() + obs_of_event(e) =~= obs_of_event(e));
}

/// The text of a trace of one event is that event's text.
pub proof fn lemma_text_single(e: Event)
    ensures
        text_concat(seq![e]) == (match e {
            Event::Text(s) => s,
            _ => Seq::<u8>::empty(),
        }),
{
    assert(seq![e].drop_last() =~= Seq::<Event>::empty());
    assert(seq![e].last() == e);
    assert(text_concat(Seq::<Event>::empty()) == Seq::<u8>::empty());
    assert(Seq::<u8>::empty() + (match e {
        Event::Text(s) => s,
        _ => Seq::<u8>::empty(),
    }) =~= (match e {
        Event::Text(s) => s,
        _ => Seq::<u8>::empty(),
    }));
}

/// The text of a concatenated trace splits at the seam.
pub proof fn lemma_text_concat_concat(a: Seq<Event>, b: Seq<Event>)
    ensures
        text_concat(a + b) == text_concat(a) + text_concat(b),
    decreases b.len(),
{
    if b.len() == 0 {
        assert(a + b =~= a);
        assert(text_concat(a) + text_concat(b) =~= text_concat(a));
    } else {
        assert((a + b).drop_last() =~= a + b.drop_last());
        assert((a + b).last() == b.last());
        lemma_text_concat_concat(a, b.drop_last());
        assert(text_concat(a) + text_concat(b) =~= (text_concat(a) + text_concat(b.drop_last()))
            + (match b.last() {
            Event::Text(s) => s,
            _ => Seq::<u8>::empty(),
        }));
    }
}

/// Bytes without an `ESC` at the front of a stream are observed one by one,
/// and the rest of the stream means what it means on its own.
pub proof fn lemma_process_text_prefix(t: Seq<u8>, u: Seq<u8>)
    requires
        forall|j: int| 0 <= j < t.len() ==> t[j] != ESC,
    ensures
        process(t + u).obs == byte_obs(t) + process(u).obs,
        process(t + u).end == process(u).end,
    decreases t.len(),
{
    if t.len() == 0 {
        assert(t + u =~= u);
        assert(byte_obs(t) + process(u).obs =~= process(u).obs);
    } else {
        let s = t + u;
        assert(s[0] == t[0]);
        assert(s.skip(1) =~= t.skip(1) + u);
        assert(forall|j: int| 0 <= j < t.skip(1).len() ==> t.skip(1)[j] != ESC);
        lemma_process_text_prefix(t.skip(1), u);
        assert(byte_obs(t) =~= seq![Obs::Byte(t[0])] + byte_obs(t.skip(1)));
        assert(process(s).obs =~= byte_obs(t) + process(u).obs);
    }
}

/// The observations of a concatenation of byte runs split at the seam.
proof fn lemma_byte_obs_concat(a: Seq<u8>, b: Seq<u8>)
    ensures
        byte_obs(a + b) == byte_obs(a) + byte_obs(b),
{
    assert(byte_obs(a + b) =~= byte_obs(a) + byte_obs(b));
}

/// What one write adds to the observation: exactly the next piece of the
/// stream's one-shot meaning — a text run, a dispatched sequence, a
/// buffered tail, or the overflow policy's window of text — and a failed
/// step stands exactly where a malformed sequence stops the stream.
proof fn lemma_wstep_process(b: Seq<u8>, c: Seq<u8>, rest: Seq<u8>)
    requires
        pending_inv(b),
        c.len() > 0,
    ensures
        ({
            let st = wstep(b, c);
            let mid = st.buffer + c.skip(st.consumed) + rest;
            if st.ok {
                &&& 0 <= st.consumed <= c.len()
                &&& pending_inv(st.buffer)
                &&& st.consumed == 0 ==> st.buffer.len() < b.len()
                &&& process(b + c + rest).obs == obs_of_events(st.events) + process(mid).obs
                &&& process(b + c + rest).end == process(mid).end
            } else {
                &&& process(b + c + rest).obs == Seq::<Obs>::empty()
                &&& process(b + c + rest).end is Malformed
            }
        }),
{
    let st = wstep(b, c);
    let s0 = b + c;
    let full = b + c + rest;
    assert(full =~= s0 + rest);
    if b.len() == 0 && esc_run(c) > 0 {
        lemma_esc_run(c);
        let k = esc_run(c);
        assert(full =~= c.take(k) + (c.skip(k) + rest));
        assert(forall|j: int| 0 <= j < c.take(k).len() ==> c.take(k)[j] != ESC);
        lemma_process_text_prefix(c.take(k), c.skip(k) + rest);
        assert(st.events == seq![Event::Text(c.take(k))]);
        lemma_obs_single(Event::Text(c.take(k)));
        let mid = st.buffer + c.skip(st.consumed) + rest;
        assert(mid =~= c.skip(k) + rest);
    } else {
        if b.len() > 0 {
            assert(s0[0] == b[0]);
        } else {
            lemma_esc_run(c);
            lemma_esc_run(c.skip(1));
            assert(esc_run(c) == 0);
            if c[0] != ESC {
                assert(esc_run(c) == 1 + esc_run(c.skip(1)));
                assert(false);
            }
            assert(s0[0] == c[0]);
        }
        assert(s0[0] == ESC);
        assert(full[0] == ESC);
        match extract_res(s0) {
            Some(n) => {
                lemma_extract_res_bounds(s0);
                lemma_extract_res_prefix(s0, rest);
                assert(extract_res(full) == Some(n));
                assert(full.subrange(1, n) =~= s0.subrange(1, n));
                match decode_spec(s0.subrange(1, n)) {
                    Ok(e) => {
                        if b.len() > 0 {
                            lemma_extract_res_extend(b, c);
                        }
                        assert(st.consumed == n - b.len());
                        assert(1 <= st.consumed <= c.len());
                        assert(full.skip(n) =~= c.skip(st.consumed) + rest);
                        let mid = st.buffer + c.skip(st.consumed) + rest;
                        assert(mid =~= full.skip(n));
                        assert(st.events == seq![e]);
                        lemma_obs_single(e);
                    },
                    Err(_) => {
                        assert(process(full).obs =~= Seq::<Obs>::empty());
                        assert(process(full).end is Malformed);
                    },
                }
            },
            None => {
                if s0.len() <= MAX_SEQ_SIZE {
                    let mid = st.buffer + c.skip(st.consumed) + rest;
                    assert(c.skip(c.len() as int) =~= Seq::<u8>::empty());
                    assert(mid =~= full);
                    assert(obs_of_events(st.events) =~= Seq::<Obs>::empty());
                    assert(process(full).obs =~= obs_of_events(st.events) + process(mid).obs);
                } else {
                    // the overflow policy: the window passes through as text
                    lemma_extract_res_cap(s0, rest);
                    assert(extract_res(full) is None);
                    assert(full.len() > MAX_SEQ_SIZE);
                    let limit = vstd::math::min(MAX_SEQ_SIZE - b.len(), c.len() as int);
                    assert(limit == MAX_SEQ_SIZE - b.len());
                    assert(st.consumed == limit);
                    let e1 = Event::Text(b);
                    let e2 = Event::Text(c.take(limit));
                    assert(st.events =~= seq![e1] + seq![e2]);
                    lemma_obs_concat(seq![e1], seq![e2]);
                    lemma_obs_single(e1);
                    lemma_obs_single(e2);
                    assert(full.take(MAX_SEQ_SIZE as int) =~= b + c.take(limit));
                    lemma_byte_obs_concat(b, c.take(limit));
                    assert(obs_of_events(st.events) =~= byte_obs(full.take(MAX_SEQ_SIZE as int)));
                    let mid = st.buffer + c.skip(st.consumed) + rest;
                    assert(mid =~= full.skip(MAX_SEQ_SIZE as int));
                    if st.consumed == 0 {
                        assert(b.len() == MAX_SEQ_SIZE);
                        assert(st.buffer.len() == 0);
                    }
                }
            },
        }
    }
}

/// Feeding one chunk to quiescence advances the stream's one-shot meaning
/// by exactly the events observed; a chunk fails only where a malformed
/// sequence stops the stream, observing exactly what the stream means.
proof fn lemma_wfeed_process(b: Seq<u8>, c: Seq<u8>, rest: Seq<u8>)
    requires
        pending_inv(b),
    ensures
        ({
            let f = wfeed(b, c);
            if f.ok {
                &&& pending_inv(f.buffer)
                &&& process(b + c + rest).obs == obs_of_events(f.events) + process(
                    f.buffer + rest,
                ).obs
                &&& process(b + c + rest).end == process(f.buffer + rest).end
            } else {
                &&& process(b + c + rest).obs == obs_of_events(f.events)
                &&& process(b + c + rest).end is Malformed
            }
        }),
    decreases c.len(), b.len(),
{
    if c.len() == 0 {
        assert(b + c =~= b);
        assert(b + c + rest =~= b + rest);
        assert(obs_of_events(Seq::<Event>::empty()) + process(b + rest).obs =~= process(
            b + rest,
        ).obs);
    } else {
        lemma_wstep_process(b, c, rest);
        let st = wstep(b, c);
        let f = wfeed(b, c);
        if !st.ok {
            assert(f.events =~= Seq::<Event>::empty());
            assert(obs_of_events(f.events) =~= Seq::<Obs>::empty());
        } else if st.consumed == 0 && st.buffer.len() < b.len() {
            assert(c.skip(st.consumed) =~= c);
            let mid = st.buffer + c.skip(st.consumed) + rest;
            assert(mid =~= st.buffer + c + rest);
            lemma_wfeed_process(st.buffer, c, rest);
            let frec = wfeed(st.buffer, c);
            assert(f.events == st.events + frec.events);
            lemma_obs_concat(st.events, frec.events);
            if frec.ok {
                assert(obs_of_events(st.events) + (obs_of_events(frec.events) + process(
                    frec.buffer + rest,
                ).obs) =~= obs_of_events(f.events) + process(f.buffer + rest).obs);
            } else {
                assert(obs_of_events(st.events) + obs_of_events(frec.events) =~= obs_of_events(
                    f.events,
                ));
            }
        } else {
            assert(1 <= st.consumed <= c.len());
            let mid = st.buffer + c.skip(st.consumed) + rest;
            lemma_wfeed_process(st.buffer, c.skip(st.consumed), rest);
            let frec = wfeed(st.buffer, c.skip(st.consumed));
            assert(f.events == st.events + frec.events);
            lemma_obs_concat(st.events, frec.events);
            if frec.ok {
                assert(obs_of_events(st.events) + (obs_of_events(frec.events) + process(
                    frec.buffer + rest,
                ).obs) =~= obs_of_events(f.events) + process(f.buffer + rest).obs);
            } else {
                assert(obs_of_events(st.events) + obs_of_events(frec.events) =~= obs_of_events(
                    f.events,
                ));
            }
        }
    }
}

/// Feeding a whole split of the stream observes exactly the stream's
/// one-shot meaning: a run that finishes holds the stream's pending tail
/// buffered, and a run that fails stands exactly where the stream's
/// malformed sequence stops it.
pub proof fn lemma_wrun_process(b: Seq<u8>, chunks: Seq<Seq<u8>>)
    requires
        pending_inv(b),
    ensures
        ({
            let f = wrun(b, chunks);
            &&& obs_of_events(f.events) == process(b + chunks.flatten()).obs
            &&& f.ok ==> pending_inv(f.buffer) && process(b + chunks.flatten()).end
                == ProcEnd::Pending(f.buffer)
            &&& !f.ok ==> process(b + chunks.flatten()).end is Malformed
        }),
    decreases chunks.len(),
{
    if chunks.len() == 0 {
        assert(chunks.flatten() =~= Seq::<u8>::empty());
        assert(b + chunks.flatten() =~= b);
        if b.len() == 0 {
            assert(b =~= Seq::<u8>::empty());
            assert(process(b).end == ProcEnd::Pending(Seq::<u8>::empty()));
            assert(process(b).end == ProcEnd::Pending(b));
        } else {
            assert(b[0] == ESC && extract_res(b) is None && b.len() <= MAX_SEQ_SIZE);
        }
        assert(obs_of_events(Seq::<Event>::empty()) =~= Seq::<Obs>::empty());
        assert(process(b).obs =~= Seq::<Obs>::empty());
    } else {
        let head = chunks[0];
        let tail_flat = chunks.skip(1).flatten();
        assert(chunks.first() == head);
        assert(chunks.drop_first() =~= chunks.skip(1));
        assert(chunks.flatten() == head + tail_flat);
        assert(b + chunks.flatten() =~= b + head + tail_flat);
        lemma_wfeed_process(b, head, tail_flat);
        let f1 = wfeed(b, head);
        let f = wrun(b, chunks);
        if !f1.ok {
            assert(f.events == f1.events);
        } else {
            lemma_wrun_process(f1.buffer, chunks.skip(1));
            let r = wrun(f1.buffer, chunks.skip(1));
            assert(f.events == f1.events + r.events);
            lemma_obs_concat(f1.events, r.events);
            assert(obs_of_events(f.events) =~= obs_of_events(f1.events) + obs_of_events(
                r.events,
            ));
        }
    }
}

/// Chunk invariance: however a byte stream is split into chunks and fed
/// through the interceptor — each chunk's unconsumed remainder written
/// again until the chunk is consumed — the observed behaviour is exactly
/// the stream's one-shot meaning: its passthrough bytes one by one and its
/// dispatched sequences, in order. Byte-granular observation is the
/// invariant notion: how a text run is split across `write_text` calls
/// (including the overflow policy's zero-length call) depends on the split,
/// the bytes and sequences do not. The run ends pending exactly when the
/// stream does, holding the stream's pending tail, and fails exactly when a
/// malformed sequence stops the stream.
pub proof fn lemma_chunk_invariance(chunks: Seq<Seq<u8>>)
    ensures
        ({
            let f = wrun(Seq::empty(), chunks);
            &&& obs_of_events(f.events) == process(chunks.flatten()).obs
            &&& f.ok ==> process(chunks.flatten()).end == ProcEnd::Pending(f.buffer)
            &&& !f.ok ==> process(chunks.flatten()).end is Malformed
        }),
{
    assert(Seq::<u8>::empty() + chunks.flatten() =~= chunks.flatten());
    lemma_wrun_process(Seq::empty(), chunks);
}

/// The observation of any split equals the observation of the unsplit
/// stream written once.
pub proof fn lemma_chunking_irrelevant(input: Seq<u8>, chunks: Seq<Seq<u8>>)
    requires
        chunks.flatten() == input,
    ensures
        obs_of_events(wrun(Seq::empty(), chunks).events) == obs_of_events(
            wrun(Seq::empty(), seq![input]).events,
        ),
{
    lemma_chunk_invariance(chunks);
    let one = seq![input];
    assert(one.drop_first() =~= Seq::<Seq<u8>>::empty());
    assert(Seq::<Seq<u8>>::empty().flatten() == Seq::<u8>::empty());
    assert(one.first() == input);
    assert(one.flatten() == input + Seq::<u8>::empty());
    assert(input + Seq::<u8>::empty() =~= input);
    lemma_chunk_invariance(one);
}

/// One chunk without escapes feeds through as one text event.
proof fn lemma_wfeed_text(c: Seq<u8>)
    requires
        forall|j: int| 0 <= j < c.len() ==> c[j] != ESC,
    ensures
        ({
            let f = wfeed(Seq::empty(), c);
            &&& f.ok
            &&& f.buffer == Seq::<u8>::empty()
            &&& text_concat(f.events) == c
            &&& forall|i: int| 0 <= i < f.events.len() ==> f.events[i] is Text
        }),
{
    if c.len() == 0 {
        assert(text_concat(Seq::<Event>::empty()) =~= c);
    } else {
        lemma_esc_run(c);
        if esc_run(c) < c.len() {
            assert(c[esc_run(c)] != ESC);
            assert(false);
        }
        let st = wstep(Seq::empty(), c);
        assert(st.consumed == c.len());
        assert(c.take(c.len() as int) =~= c);
        assert(c.skip(c.len() as int) =~= Seq::<u8>::empty());
        let f = wfeed(Seq::empty(), c);
        assert(f.events == st.events + wfeed(st.buffer, c.skip(c.len() as int)).events);
        assert(f.events =~= seq![Event::Text(c)]);
        lemma_text_single(Event::Text(c));
    }
}

/// Losslessness of plain text: a stream without an `ESC` byte, however it
/// is split into writes, comes out of `write_text` exactly as it went in:
/// the interceptor makes only text callbacks and their bytes concatenate to
/// the stream.
pub proof fn lemma_plain_text_lossless(chunks: Seq<Seq<u8>>)
    requires
        forall|i: int, j: int|
            0 <= i < chunks.len() && 0 <= j < chunks[i].len() ==> chunks[i][j] != ESC,
    ensures
        ({
            let f = wrun(Seq::empty(), chunks);
            &&& f.ok
            &&& f.buffer == Seq::<u8>::empty()
            &&& text_concat(f.events) == chunks.flatten()
            &&& forall|i: int| 0 <= i < f.events.len() ==> f.events[i] is Text
        }),
    decreases chunks.len(),
{
    if chunks.len() == 0 {
        assert(chunks.flatten() =~= Seq::<u8>::empty());
        assert(text_concat(Seq::<Event>::empty()) =~= Seq::<u8>::empty());
    } else {
        let head = chunks[0];
        assert(forall|j: int| 0 <= j < head.len() ==> head[j] != ESC);
        lemma_wfeed_text(head);
        let f1 = wfeed(Seq::empty(), head);
        assert(forall|i: int, j: int|
            0 <= i < chunks.skip(1).len() && 0 <= j < chunks.skip(1)[i].len()
                ==> chunks.skip(1)[i][j] != ESC);
        lemma_plain_text_lossless(chunks.skip(1));
        let r = wrun(Seq::empty(), chunks.skip(1));
        let f = wrun(Seq::empty(), chunks);
        assert(f.events == f1.events + r.events);
        lemma_text_concat_concat(f1.events, r.events);
        assert(chunks.first() == head);
        assert(chunks.drop_first() =~= chunks.skip(1));
        assert(chunks.flatten() == head + chunks.skip(1).flatten());
        assert(text_concat(f.events) =~= chunks.flatten());
        assert(forall|i: int|
            0 <= i < f.events.len() ==> #[trigger] f.events[i] == if i < f1.events.len() {
                f1.events[i]
            } else {
                r.events[i - f1.events.len()]
            });
    }
}

/// One chunk of an unterminated sequence either fits the window whole, and
/// is buffered without any output, or trips the overflow policy, which
/// emits a whole window of text.
proof fn lemma_overrun_feed(b: Seq<u8>, c: Seq<u8>)
    requires
        pending_inv(b),
        c.len() > 0,
        (b + c)[0] == ESC,
        extract_res(b + c) is None,
    ensures
        ({
            let f = wfeed(b, c);
            if b.len() + c.len() <= MAX_SEQ_SIZE {
                f.ok && f.events == Seq::<Event>::empty() && f.buffer == b + c
            } else {
                text_concat(f.events).len() >= MAX_SEQ_SIZE
            }
        }),
{
    let s = b + c;
    let st = wstep(b, c);
    if b.len() == 0 {
        lemma_esc_run(c);
        if esc_run(c) > 0 {
            assert(c[0] != ESC);
            assert(false);
        }
    }
    if s.len() <= MAX_SEQ_SIZE {
        let f = wfeed(b, c);
        assert(st.consumed == c.len());
        assert(c.skip(st.consumed) =~= Seq::<u8>::empty());
        let rest = wfeed(st.buffer, c.skip(st.consumed));
        assert(rest.events == Seq::<Event>::empty() && rest.buffer == st.buffer && rest.ok);
        assert(f.events == st.events + rest.events);
        assert(f.events =~= Seq::<Event>::empty());
    } else {
        let limit = vstd::math::min(MAX_SEQ_SIZE - b.len(), c.len() as int);
        assert(limit == MAX_SEQ_SIZE - b.len());
        let e1 = Event::Text(b);
        let e2 = Event::Text(c.take(limit));
        assert(st.events =~= seq![e1] + seq![e2]);
        lemma_text_concat_concat(seq![e1], seq![e2]);
        lemma_text_single(e1);
        lemma_text_single(e2);
        assert(text_concat(st.events).len() == MAX_SEQ_SIZE);
        let f = wfeed(b, c);
        if st.consumed == 0 {
            assert(st.buffer.len() < b.len());
            let rest = wfeed(st.buffer, c);
            assert(f.events == st.events + rest.events);
            lemma_text_concat_concat(st.events, rest.events);
        } else {
            let rest = wfeed(st.buffer, c.skip(st.consumed));
            assert(f.events == st.events + rest.events);
            lemma_text_concat_concat(st.events, rest.events);
        }
    }
}

/// Progress under adversarial input, however it arrives: feeding any split
/// of an unterminated sequence longer than the scanning window emits at
/// least a window's worth of bytes through `write_text`, so a flood of
/// sequence bytes with no terminator cannot make output vanish without
/// bound.
pub proof fn lemma_overrun_progress_chunked(b: Seq<u8>, chunks: Seq<Seq<u8>>)
    requires
        pending_inv(b),
        (b + chunks.flatten()).len() > MAX_SEQ_SIZE,
        (b + chunks.flatten())[0] == ESC,
        extract_res(b + chunks.flatten()) is None,
    ensures
        text_concat(wrun(b, chunks).events).len() >= MAX_SEQ_SIZE,
    decreases chunks.len(),
{
    let w = b + chunks.flatten();
    if chunks.len() == 0 {
        assert(chunks.flatten() =~= Seq::<u8>::empty());
        assert(w =~= b);
        assert(false);
    } else {
        let head = chunks[0];
        let tail_flat = chunks.skip(1).flatten();
        assert(chunks.first() == head);
        assert(chunks.drop_first() =~= chunks.skip(1));
        assert(chunks.flatten() == head + tail_flat);
        if head.len() == 0 {
            assert(b + head =~= b);
            let f = wfeed(b, head);
            assert(f.ok && f.events == Seq::<Event>::empty() && f.buffer == b);
            assert(b + chunks.skip(1).flatten() =~= w);
            lemma_overrun_progress_chunked(b, chunks.skip(1));
            let r = wrun(b, chunks.skip(1));
            let f2 = wrun(b, chunks);
            assert(f2.events == f.events + r.events);
            lemma_text_concat_concat(f.events, r.events);
        } else {
            let bh = b + head;
            assert(bh[0] == w[0]);
            if extract_res(bh) matches Some(n) {
                lemma_extract_res_prefix(bh, tail_flat);
                assert(bh + tail_flat =~= w);
                assert(false);
            }
            lemma_overrun_feed(b, head);
            let f = wfeed(b, head);
            if b.len() + head.len() <= MAX_SEQ_SIZE {
                assert(pending_inv(bh));
                assert(bh + chunks.skip(1).flatten() =~= w);
                lemma_overrun_progress_chunked(bh, chunks.skip(1));
                let r = wrun(bh, chunks.skip(1));
                let f2 = wrun(b, chunks);
                assert(f2.events == f.events + r.events);
                lemma_text_concat_concat(f.events, r.events);
                assert(text_concat(f.events) =~= Seq::<u8>::empty());
            } else {
                let f2 = wrun(b, chunks);
                if f.ok {
                    let r = wrun(f.buffer, chunks.skip(1));
                    assert(f2.events == f.events + r.events);
                    lemma_text_concat_concat(f.events, r.events);
                } else {
                    assert(f2.events == f.events);
                }
            }
        }
    }
}

/// Progress under adversarial input: one write of an unterminated sequence
/// longer than the scanning window emits at least a window's worth of bytes
/// through `write_text` and reports at least one byte consumed, so the
/// stream cannot get stuck. (Fed byte by byte instead, the same bytes are
/// emitted, but the write that hits the full window reports zero consumed.)
pub proof fn lemma_overrun_progress(c: Seq<u8>)
    requires
        c.len() > MAX_SEQ_SIZE,
        c[0] == ESC,
        extract_res(c) is None,
    ensures
        ({
            let st = wstep(Seq::empty(), c);
            &&& st.ok
            &&& st.consumed >= 1
            &&& text_concat(st.events).len() >= MAX_SEQ_SIZE
        }),
{
    let st = wstep(Seq::empty(), c);
    assert(Seq::<u8>::empty() + c =~= c);
    assert(esc_run(c) == 0);
    let limit = vstd::math::min(MAX_SEQ_SIZE - 0, c.len() as int);
    assert(limit == MAX_SEQ_SIZE as int);
    let e1 = Event::Text(Seq::<u8>::empty());
    let e2 = Event::Text(c.take(MAX_SEQ_SIZE as int));
    assert(st.events =~= seq![e1] + seq![e2]);
    lemma_text_concat_concat(seq![e1], seq![e2]);
    lemma_text_single(e1);
    lemma_text_single(e2);
    assert(text_concat(st.events).len() == c.take(MAX_SEQ_SIZE as int).len());
}

} // verus!
