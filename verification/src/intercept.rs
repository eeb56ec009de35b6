//! The interceptor: owns the carry-over buffer for incomplete escape
//! sequences, splits written bytes into passthrough runs and escape
//! sequences, and drives an interpreter.

use vstd::prelude::*;
use crate::dispatch::EscSeqParse;
use crate::dispatch::WriteError;
use crate::dispatch::extract_sequence;
use crate::extract::ESC;
use crate::extract::MAX_SEQ_SIZE;
use crate::extract::MIN_BUFFER_SIZE;
use crate::extract::extract_res;
use crate::extract::lemma_extract_res_bounds;
use crate::extract::lemma_extract_res_cap;
use crate::extract::lemma_extract_res_extend;
use crate::interp::AnsiInterpret;
use crate::interp::Event;
use crate::interp::InterpError;
use crate::model::esc_run;
use crate::model::lemma_esc_run;
use crate::model::pending_inv;
use crate::model::wstep;

verus! {

/// Storage for the carry-over bytes of an incomplete escape sequence, kept
/// inline for small sizes in a `smallvec::SmallVec`.
#[verifier::external_body]
pub struct SeqBuffer {
    vec: smallvec::SmallVec<[u8; MIN_BUFFER_SIZE]>,
}

/// The bytes a `SeqBuffer` holds, in order.
pub uninterp spec fn buffer_bytes(b: SeqBuffer) -> Seq<u8>;

/// Relies on `smallvec::SmallVec::new`: constructs an empty vector.
#[verifier::external_body]
pub fn buffer_new() -> (r: SeqBuffer)
    ensures
        buffer_bytes(r) == Seq::<u8>::empty(),
{
    SeqBuffer { vec: smallvec::SmallVec::new() }
}

/// Relies on `smallvec::SmallVec::len`: the number of elements stored.
#[verifier::external_body]
pub fn buffer_len(b: &SeqBuffer) -> (r: usize)
    ensures
        r == buffer_bytes(*b).len(),
{
    b.vec.len()
}

/// Relies on `smallvec::SmallVec::as_slice`: a slice of the entire vector.
#[verifier::external_body]
pub fn buffer_as_slice(b: &SeqBuffer) -> (r: &[u8])
    ensures
        r@ == buffer_bytes(*b),
{
    b.vec.as_slice()
}

/// Relies on `smallvec::SmallVec::extend_from_slice`: appends a copy of the
/// slice's elements to the vector.
#[verifier::external_body]
pub fn buffer_extend_from_slice(b: &mut SeqBuffer, s: &[u8])
    ensures
        buffer_bytes(*final(b)) == buffer_bytes(*old(b)) + s@,
{
    b.vec.extend_from_slice(s)
}

/// Relies on `smallvec::SmallVec::clear`: removes all elements.
#[verifier::external_body]
pub fn buffer_clear(b: &mut SeqBuffer)
    ensures
        buffer_bytes(*final(b)) == Seq::<u8>::empty(),
{
    b.vec.clear()
}

/// Remove the first `n` bytes of the buffer, keeping the rest in order.
pub fn drop_front(sv: &mut SeqBuffer, n: usize)
    requires
        n <= buffer_bytes(*old(sv)).len(),
    ensures
        buffer_bytes(*final(sv)) == buffer_bytes(*old(sv)).skip(n as int),
{
    let whole = buffer_as_slice(sv);
    let m = whole.len();
    let tail: Vec<u8> = vstd::slice::slice_to_vec(vstd::slice::slice_subrange(whole, n, m));
    proof {
        assert(tail@ =~= buffer_bytes(*old(sv)).skip(n as int));
    }
    buffer_clear(sv);
    buffer_extend_from_slice(sv, tail.as_slice());
    proof {
        assert(Seq::<u8>::empty() + tail@ =~= tail@);
    }
}

/// The interceptor: a carry-over buffer plus the interpreter it dispatches
/// to. Its observable behaviour is exactly the interpreter callbacks it
/// makes, as described by `wstep`.
pub struct AnsiIntercept<I: AnsiInterpret> {
    /// Buffer for incomplete escape sequences.
    buffer: SeqBuffer,
    /// Interpreter instance.
    interp: I,
}

impl<I: AnsiInterpret> AnsiIntercept<I> {
    /// The bytes buffered from an earlier write that did not yet form a
    /// complete sequence.
    pub closed spec fn buf(&self) -> Seq<u8> {
        buffer_bytes(self.buffer)
    }

    /// The trace of interpreter callbacks made so far.
    pub closed spec fn events(&self) -> Seq<Event> {
        self.interp.events()
    }

    /// The buffer is empty or a capped, unterminated sequence prefix.
    pub closed spec fn inv(&self) -> bool {
        pending_inv(self.buf())
    }

    pub fn new(interp: I) -> (r: Self)
        ensures
            r.inv(),
            r.buf() == Seq::<u8>::empty(),
            r.events() == interp.events(),
    {
        AnsiIntercept { buffer: buffer_new(), interp }
    }

    /// Read access to the interpreter this interceptor drives.
    pub fn interpreter(&self) -> (r: &I)
        ensures
            r.events() == self.events(),
    {
        &self.interp
    }

    /// Forward a flush to the interpreter; nothing else is observed.
    pub fn flush(&mut self) -> (r: Result<(), InterpError>)
        requires
            old(self).inv(),
        ensures
            final(self).inv(),
            final(self).buf() == old(self).buf(),
            final(self).events() == old(self).events(),
    {
        self.interp.flush()
    }

    /// Write a chunk of the stream through the interceptor. The returned
    /// count says how many bytes of `buf` were consumed; the caller re-feeds
    /// the remainder. A zero count can only follow the overflow policy's
    /// dump of a full buffer, which empties it, so writing the same bytes
    /// again then makes progress. What happens is exactly `wstep` of the buffered bytes
    /// and the chunk: a leading text run is passed through, a complete
    /// sequence is dispatched, an incomplete one is carried over, and past
    /// the size cap the overflow policy turns the window into plain text. A
    /// malformed parameter section fails the write, consumes nothing, and
    /// changes nothing; a backend failure consumes nothing and leaves at
    /// most the overflow policy's first text call observed.
    pub fn write(&mut self, buf: &[u8]) -> (r: Result<usize, WriteError>)
        requires
            old(self).inv(),
        ensures
            final(self).inv(),
            ({
                let st = wstep(old(self).buf(), buf@);
                match r {
                    Ok(n) => st.ok && n == st.consumed && final(self).buf() == st.buffer
                        && final(self).events() == old(self).events() + st.events,
                    Err(we) => match we {
                        WriteError::InvalidData(de) => !st.ok && st.err == Some(de)
                            && final(self).buf() == old(self).buf()
                            && final(self).events() == old(self).events(),
                        // a backend failure can only come out of a step that
                        // owes the backend a callback
                        WriteError::Interp(_) => st.ok && st.events.len() > 0
                            && ((final(self).buf() == old(self).buf()
                                && final(self).events() == old(self).events())
                            || (extract_res(old(self).buf() + buf@) is None
                            && old(self).buf().len() + buf@.len() > MAX_SEQ_SIZE
                            && final(self).buf() == Seq::<u8>::empty()
                            && final(self).events()
                                == old(self).events().push(Event::Text(old(self).buf())))),
                    },
                }
            }),
            !wstep(old(self).buf(), buf@).ok ==> r matches Err(WriteError::InvalidData(_)),
    {
        let ghost b0 = old(self).buf();
        let ghost c = buf@;
        let blen = buffer_len(&self.buffer);

        // Fast path: nothing buffered, so a leading run without escapes can
        // be passed through as it is.
        if blen == 0 {
            let mut run: usize = 0;
            while run < buf.len() && *vstd::slice::slice_index_get(buf, run) != ESC
                invariant
                    0 <= run <= buf@.len(),
                    forall|j: int| 0 <= j < run ==> buf@[j] != ESC,
                decreases buf@.len() - run,
            {
                run = run + 1;
            }
            proof {
                lemma_esc_run(c);
                if run < esc_run(c) {
                    assert(c[run as int] != ESC);
                    assert(false);
                }
                if run > esc_run(c) {
                    assert(c[esc_run(c)] != ESC);
                    assert(false);
                }
                assert(run == esc_run(c));
            }
            if run > 0 {
                let text = vstd::slice::slice_subrange(buf, 0, run);
                proof {
                    assert(text@ =~= c.take(run as int));
                }
                return match self.interp.write_text(text) {
                    Ok(n) => {
                        proof {
                            assert(old(self).events() + seq![Event::Text(c.take(run as int))]
                                =~= old(self).events().push(Event::Text(c.take(run as int))));
                        }
                        Ok(n)
                    },
                    Err(e) => Err(WriteError::Interp(e)),
                };
            }
        }
        if buf.len() == 0 {
            return Ok(0);
        }

        // Consolidated parse: read buffer and chunk as one input, truncated
        // to the window the extractor can look at.
        let cap: usize = MAX_SEQ_SIZE + 1 - blen;
        let m: usize = if buf.len() > cap {
            cap
        } else {
            buf.len()
        };
        let mut s: Vec<u8> = Vec::new();
        push_all(&mut s, buffer_as_slice(&self.buffer));
        push_all(&mut s, vstd::slice::slice_subrange(buf, 0, m));
        let ghost full = b0 + c;
        proof {
            assert(s@ =~= b0 + c.take(m as int));
            if m < buf.len() {
                assert(s@.len() == MAX_SEQ_SIZE + 1);
                assert(full =~= s@ + c.skip(m as int));
                lemma_extract_res_cap(s@, c.skip(m as int));
            } else {
                assert(s@ =~= full);
            }
            assert(extract_res(full) == extract_res(s@));
            if blen > 0 {
                assert(s@[0] == b0[0]);
            } else {
                assert(esc_run(c) == 0 && c.len() > 0);
                assert(s@[0] == c[0]);
            }
            assert(s@[0] == ESC);
        }

        let outcome = extract_sequence(s.as_slice(), &mut self.interp);
        match outcome {
            Err(we) => {
                proof {
                    lemma_extract_res_bounds(s@);
                    match extract_res(s@) {
                        Some(n) => {
                            assert(full.subrange(1, n) =~= s@.subrange(1, n));
                        },
                        None => {},
                    }
                }
                Err(we)
            },
            Ok(EscSeqParse::UsedBytes(n16)) => {
                let n = n16 as usize;
                proof {
                    lemma_extract_res_bounds(s@);
                    if blen > 0 {
                        lemma_extract_res_extend(b0, c.take(m as int));
                    }
                    assert(n > blen);
                    assert(full.subrange(1, n as int) =~= s@.subrange(1, n as int));
                }
                // the dispatched sequence used the whole carry-over buffer
                drop_front(&mut self.buffer, blen);
                proof {
                    assert(b0.skip(blen as int) =~= Seq::<u8>::empty());
                }
                proof {
                    let st = wstep(b0, c);
                    assert(st.consumed == n - blen);
                    assert(old(self).events() + st.events =~= old(self).events().push(
                        st.events[0],
                    ));
                }
                Ok(n - blen)
            },
            Ok(EscSeqParse::IncompleteSeq) => {
                proof {
                    if m < buf.len() {
                        assert(blen + buf@.len() > MAX_SEQ_SIZE);
                    }
                }
                if buf.len() <= MAX_SEQ_SIZE - blen {
                    buffer_extend_from_slice(&mut self.buffer, buf);
                    proof {
                        assert(final(self).buf() =~= full);
                        assert(old(self).events() + Seq::<Event>::empty() =~= old(self).events());
                    }
                    Ok(buf.len())
                } else {
                    // Overflow: the sequence cannot fit. Dump the window as
                    // plain text so the stream keeps moving.
                    let limit = MAX_SEQ_SIZE - blen;
                    proof {
                        assert(limit == vstd::math::min(MAX_SEQ_SIZE - b0.len(), c.len() as int));
                    }
                    let btext = buffer_as_slice(&self.buffer);
                    match self.interp.write_text(btext) {
                        Err(e) => {
                            return Err(WriteError::Interp(e));
                        },
                        Ok(_) => {},
                    }
                    buffer_clear(&mut self.buffer);
                    let ctext = vstd::slice::slice_subrange(buf, 0, limit);
                    proof {
                        assert(ctext@ =~= c.take(limit as int));
                    }
                    match self.interp.write_text(ctext) {
                        Err(e) => {
                            proof {
                                assert(final(self).events() =~= old(self).events().push(
                                    Event::Text(b0),
                                ));
                            }
                            Err(WriteError::Interp(e))
                        },
                        Ok(_) => {
                            proof {
                                let st = wstep(b0, c);
                                assert(st.events == seq![
                                    Event::Text(b0),
                                    Event::Text(c.take(limit as int)),
                                ]);
                                assert(old(self).events() + st.events =~= old(
                                    self,
                                ).events().push(Event::Text(b0)).push(
                                    Event::Text(c.take(limit as int)),
                                ));
                            }
                            Ok(limit)
                        },
                    }
                }
            },
        }
    }
}

/// Append a copy of every byte of `s` to `v`.
pub fn push_all(v: &mut Vec<u8>, s: &[u8])
    ensures
        final(v)@ == old(v)@ + s@,
{
    let mut i: usize = 0;
    while i < s.len()
        invariant
            0 <= i <= s@.len(),
            v@ == old(v)@ + s@.take(i as int),
        decreases s@.len() - i,
    {
        let b = *vstd::slice::slice_index_get(s, i);
        v.push(b);
        proof {
            assert(old(v)@ + s@.take(i + 1) =~= (old(v)@ + s@.take(i as int)).push(s@[i as int]));
        }
        i = i + 1;
    }
    proof {
        assert(old(v)@ + s@.take(s@.len() as int) =~= old(v)@ + s@);
    }
}

} // verus!
