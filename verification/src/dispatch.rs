//! The dispatcher: classify an extracted escape-sequence body (leading `ESC`
//! already stripped), parse its parameters, and call the matching
//! interpreter method.

use vstd::prelude::*;
use crate::extract::ESC;
use crate::extract::extract_res;
use crate::extract::lemma_extract_res_bounds;
use crate::extract::scan_sequence;
use crate::interp::AnsiInterpret;
use crate::interp::Event;
use crate::interp::InterpError;
use crate::params::MalformedSeq;
use crate::params::parse_0n;
use crate::params::parse_1n;
use crate::params::parse_2n;
use crate::params::parse_ns;
use crate::params::parse_num;
use crate::params::spec_parse_0n;
use crate::params::spec_parse_1n;
use crate::params::spec_parse_2n;
use crate::params::spec_parse_ns;
use crate::params::spec_parse_num;

verus! {

/// Which part of the display an `ED` (erase display) command clears.
#[derive(Copy, Clone, PartialEq, Eq, Structural, Debug, Hash)]
pub enum EraseDisplay {
    CursorToBottom,
    TopToCursor,
    All,
}

/// An `ED` parameter outside {absent, 0, 1, 2}.
#[derive(Copy, Clone, PartialEq, Eq, Structural, Debug)]
pub struct InvalidEraseDisplayArg;

/// Which part of the cursor's line an `EL` (erase line) command clears.
#[derive(Copy, Clone, PartialEq, Eq, Structural, Debug, Hash)]
pub enum EraseLine {
    CursorToEnd,
    StartToCursor,
    All,
}

/// An `EL` parameter outside {absent, 0, 1, 2}.
#[derive(Copy, Clone, PartialEq, Eq, Structural, Debug)]
pub struct InvalidEraseLineArg;

/// How an `ED` parameter decodes: 0 or absent means cursor-to-bottom.
pub open spec fn spec_erase_display(v: Option<u16>) -> Result<EraseDisplay, InvalidEraseDisplayArg> {
    match v {
        None => Ok(EraseDisplay::CursorToBottom),
        Some(n) => if n == 0 {
            Ok(EraseDisplay::CursorToBottom)
        } else if n == 1 {
            Ok(EraseDisplay::TopToCursor)
        } else if n == 2 {
            Ok(EraseDisplay::All)
        } else {
            Err(InvalidEraseDisplayArg)
        },
    }
}

impl EraseDisplay {
    /// Decode an optional `ED` parameter; anything past 2 is rejected.
    pub fn try_from(v: Option<u16>) -> (r: Result<EraseDisplay, InvalidEraseDisplayArg>)
        ensures
            r == spec_erase_display(v),
    {
        match v {
            None => Ok(EraseDisplay::CursorToBottom),
            Some(0) => Ok(EraseDisplay::CursorToBottom),
            Some(1) => Ok(EraseDisplay::TopToCursor),
            Some(2) => Ok(EraseDisplay::All),
            Some(_) => Err(InvalidEraseDisplayArg),
        }
    }
}

/// How an `EL` parameter decodes: 0 or absent means cursor-to-end.
pub open spec fn spec_erase_line(v: Option<u16>) -> Result<EraseLine, InvalidEraseLineArg> {
    match v {
        None => Ok(EraseLine::CursorToEnd),
        Some(n) => if n == 0 {
            Ok(EraseLine::CursorToEnd)
        } else if n == 1 {
            Ok(EraseLine::StartToCursor)
        } else if n == 2 {
            Ok(EraseLine::All)
        } else {
            Err(InvalidEraseLineArg)
        },
    }
}

impl EraseLine {
    /// Decode an optional `EL` parameter; anything past 2 is rejected.
    pub fn try_from(v: Option<u16>) -> (r: Result<EraseLine, InvalidEraseLineArg>)
        ensures
            r == spec_erase_line(v),
    {
        match v {
            None => Ok(EraseLine::CursorToEnd),
            Some(0) => Ok(EraseLine::CursorToEnd),
            Some(1) => Ok(EraseLine::StartToCursor),
            Some(2) => Ok(EraseLine::All),
            Some(_) => Err(InvalidEraseLineArg),
        }
    }
}

/// Everything that can be wrong with a sequence body handed to the
/// dispatcher.
#[derive(Copy, Clone, PartialEq, Eq, Structural, Debug)]
pub enum DecodeError {
    Malformed(MalformedSeq),
    InvalidEraseDisplay(InvalidEraseDisplayArg),
    InvalidEraseLine(InvalidEraseLineArg),
}

/// A decoded escape sequence, ready to dispatch: one variant per
/// interpreter callback other than the text passthrough.
#[derive(PartialEq, Eq, Debug)]
pub enum Action {
    Cuu(u16),
    Cud(u16),
    Cuf(u16),
    Cub(u16),
    Cup(u16, u16),
    Hvp(u16, u16),
    Ed(EraseDisplay),
    El(EraseLine),
    Sgr(Vec<u8>),
    Dsr,
    Scp,
    Rcp,
    OscTxt(u16, Vec<u8>),
    Other(Vec<u8>),
}

/// The event an action dispatches as.
pub open spec fn action_event(a: Action) -> Event {
    match a {
        Action::Cuu(r) => Event::Cuu(r),
        Action::Cud(r) => Event::Cud(r),
        Action::Cuf(c) => Event::Cuf(c),
        Action::Cub(c) => Event::Cub(c),
        Action::Cup(r, c) => Event::Cup(r, c),
        Action::Hvp(r, c) => Event::Hvp(r, c),
        Action::Ed(n) => Event::Ed(n),
        Action::El(n) => Event::El(n),
        Action::Sgr(ns) => Event::Sgr(ns@),
        Action::Dsr => Event::Dsr,
        Action::Scp => Event::Scp,
        Action::Rcp => Event::Rcp,
        Action::OscTxt(n, txt) => Event::OscTxt(n, txt@),
        Action::Other(bytes) => Event::Other(bytes@),
    }
}

pub open spec fn or_default(v: Option<u16>, dft: u16) -> u16 {
    match v {
        Some(n) => n,
        None => dft,
    }
}

/// How a sequence body decodes. The body's first byte is `[` for CSI, `]`
/// for OSC; anything else is delivered opaquely. For CSI the final byte
/// picks the command, absent parameters take that command's default, and a
/// bad parameter section is an error. An unrecognized final byte, or a `DSR`
/// parameter other than 6, is delivered as `Other` with the full body.
pub open spec fn decode_spec(body: Seq<u8>) -> Result<Event, DecodeError> {
    if body.len() >= 1 && body[0] == 0x5b {
        let tail = body.skip(1);
        if tail.len() == 0 {
            Err(DecodeError::Malformed(MalformedSeq))
        } else {
            let term = tail.last();
            let args = tail.drop_last();
            if term == 0x41 {
                match spec_parse_1n(args) {
                    Some(v) => Ok(Event::Cuu(or_default(v, 1))),
                    None => Err(DecodeError::Malformed(MalformedSeq)),
                }
            } else if term == 0x42 {
                match spec_parse_1n(args) {
                    Some(v) => Ok(Event::Cud(or_default(v, 1))),
                    None => Err(DecodeError::Malformed(MalformedSeq)),
                }
            } else if term == 0x43 {
                match spec_parse_1n(args) {
                    Some(v) => Ok(Event::Cuf(or_default(v, 1))),
                    None => Err(DecodeError::Malformed(MalformedSeq)),
                }
            } else if term == 0x44 {
                match spec_parse_1n(args) {
                    Some(v) => Ok(Event::Cub(or_default(v, 1))),
                    None => Err(DecodeError::Malformed(MalformedSeq)),
                }
            } else if term == 0x48 {
                match spec_parse_2n(args) {
                    Some(p) => Ok(Event::Cup(or_default(p.0, 1), or_default(p.1, 1))),
                    None => Err(DecodeError::Malformed(MalformedSeq)),
                }
            } else if term == 0x4a {
                match spec_parse_1n(args) {
                    Some(v) => match spec_erase_display(v) {
                        Ok(n) => Ok(Event::Ed(n)),
                        Err(e) => Err(DecodeError::InvalidEraseDisplay(e)),
                    },
                    None => Err(DecodeError::Malformed(MalformedSeq)),
                }
            } else if term == 0x4b {
                match spec_parse_1n(args) {
                    Some(v) => match spec_erase_line(v) {
                        Ok(n) => Ok(Event::El(n)),
                        Err(e) => Err(DecodeError::InvalidEraseLine(e)),
                    },
                    None => Err(DecodeError::Malformed(MalformedSeq)),
                }
            } else if term == 0x66 {
                match spec_parse_2n(args) {
                    Some(p) => Ok(Event::Hvp(or_default(p.0, 1), or_default(p.1, 1))),
                    None => Err(DecodeError::Malformed(MalformedSeq)),
                }
            } else if term == 0x6d {
                match spec_parse_ns(args) {
                    Some(ns) => Ok(
                        Event::Sgr(
                            if ns.len() == 0 {
                                seq![0u8]
                            } else {
                                ns
                            },
                        ),
                    ),
                    None => Err(DecodeError::Malformed(MalformedSeq)),
                }
            } else if term == 0x6e {
                match spec_parse_1n(args) {
                    Some(v) => if or_default(v, 0) == 6 {
                        Ok(Event::Dsr)
                    } else {
                        Ok(Event::Other(body))
                    },
                    None => Err(DecodeError::Malformed(MalformedSeq)),
                }
            } else if term == 0x73 {
                if spec_parse_0n(args) {
                    Ok(Event::Scp)
                } else {
                    Err(DecodeError::Malformed(MalformedSeq))
                }
            } else if term == 0x75 {
                if spec_parse_0n(args) {
                    Ok(Event::Rcp)
                } else {
                    Err(DecodeError::Malformed(MalformedSeq))
                }
            } else {
                Ok(Event::Other(body))
            }
        }
    } else if body.len() >= 1 && body[0] == 0x5d {
        let tail = body.skip(1);
        match spec_parse_num(tail) {
            None => Err(DecodeError::Malformed(MalformedSeq)),
            Some(p) => match p.1 {
                None => Err(DecodeError::Malformed(MalformedSeq)),
                Some(n) => if p.0.len() == 0 || p.0[0] != 0x3b {
                    Ok(Event::Other(body))
                } else {
                    let t2 = p.0.skip(1);
                    if t2.len() >= 1 && t2.last() == 0x07 {
                        Ok(Event::OscTxt(n, t2.drop_last()))
                    } else if t2.len() >= 2 && t2.last() == 0x5c {
                        Ok(Event::OscTxt(n, t2.take(t2.len() - 2)))
                    } else {
                        Err(DecodeError::Malformed(MalformedSeq))
                    }
                },
            },
        }
    } else {
        Ok(Event::Other(body))
    }
}

/// Decode one extracted sequence body into the action it dispatches as.
pub fn decode_sequence(bytes: &[u8]) -> (r: Result<Action, DecodeError>)
    ensures
        match r {
            Ok(a) => decode_spec(bytes@) == Ok::<Event, DecodeError>(action_event(a)),
            Err(e) => decode_spec(bytes@) == Err::<Event, DecodeError>(e),
        },
{
    let ghost body = bytes@;
    if bytes.len() >= 1 && *vstd::slice::slice_index_get(bytes, 0) == 0x5b {
        if bytes.len() == 1 {
            proof {
                assert(body.skip(1).len() == 0);
            }
            return Err(DecodeError::Malformed(MalformedSeq));
        }
        let term = *vstd::slice::slice_index_get(bytes, bytes.len() - 1);
        let args = vstd::slice::slice_subrange(bytes, 1, bytes.len() - 1);
        proof {
            assert(body.skip(1).last() == body[body.len() - 1]);
            assert(args@ =~= body.skip(1).drop_last());
        }
        match term {
            0x41 => match parse_1n(args) {
                Ok(v) => Ok(Action::Cuu(v.unwrap_or(1))),
                Err(e) => Err(DecodeError::Malformed(e)),
            },
            0x42 => match parse_1n(args) {
                Ok(v) => Ok(Action::Cud(v.unwrap_or(1))),
                Err(e) => Err(DecodeError::Malformed(e)),
            },
            0x43 => match parse_1n(args) {
                Ok(v) => Ok(Action::Cuf(v.unwrap_or(1))),
                Err(e) => Err(DecodeError::Malformed(e)),
            },
            0x44 => match parse_1n(args) {
                Ok(v) => Ok(Action::Cub(v.unwrap_or(1))),
                Err(e) => Err(DecodeError::Malformed(e)),
            },
            0x48 => match parse_2n(args) {
                Ok(p) => Ok(Action::Cup(p.0.unwrap_or(1), p.1.unwrap_or(1))),
                Err(e) => Err(DecodeError::Malformed(e)),
            },
            0x4a => match parse_1n(args) {
                Ok(v) => match EraseDisplay::try_from(v) {
                    Ok(n) => Ok(Action::Ed(n)),
                    Err(e) => Err(DecodeError::InvalidEraseDisplay(e)),
                },
                Err(e) => Err(DecodeError::Malformed(e)),
            },
            0x4b => match parse_1n(args) {
                Ok(v) => match EraseLine::try_from(v) {
                    Ok(n) => Ok(Action::El(n)),
                    Err(e) => Err(DecodeError::InvalidEraseLine(e)),
                },
                Err(e) => Err(DecodeError::Malformed(e)),
            },
            0x66 => match parse_2n(args) {
                Ok(p) => Ok(Action::Hvp(p.0.unwrap_or(1), p.1.unwrap_or(1))),
                Err(e) => Err(DecodeError::Malformed(e)),
            },
            0x6d => match parse_ns(args) {
                Ok(ns) => {
                    let mut ns = ns;
                    if ns.len() == 0 {
                        ns.push(0);
                        proof {
                            assert(ns@ =~= seq![0u8]);
                        }
                    }
                    Ok(Action::Sgr(ns))
                },
                Err(e) => Err(DecodeError::Malformed(e)),
            },
            0x6e => match parse_1n(args) {
                Ok(v) => {
                    if v.unwrap_or(0) == 6 {
                        Ok(Action::Dsr)
                    } else {
                        let full = vstd::slice::slice_to_vec(bytes);
                        Ok(Action::Other(full))
                    }
                },
                Err(e) => Err(DecodeError::Malformed(e)),
            },
            0x73 => match parse_0n(args) {
                Ok(_) => Ok(Action::Scp),
                Err(e) => Err(DecodeError::Malformed(e)),
            },
            0x75 => match parse_0n(args) {
                Ok(_) => Ok(Action::Rcp),
                Err(e) => Err(DecodeError::Malformed(e)),
            },
            _ => {
                let full = vstd::slice::slice_to_vec(bytes);
                Ok(Action::Other(full))
            },
        }
    } else if bytes.len() >= 1 && *vstd::slice::slice_index_get(bytes, 0) == 0x5d {
        let tail = vstd::slice::slice_subrange(bytes, 1, bytes.len());
        proof {
            assert(tail@ =~= body.skip(1));
        }
        match parse_num(tail) {
            Err(e) => Err(DecodeError::Malformed(e)),
            Ok((rest, v)) => match v {
                None => Err(DecodeError::Malformed(MalformedSeq)),
                Some(n) => {
                    if rest.len() == 0 || *vstd::slice::slice_index_get(rest, 0) != 0x3b {
                        let full = vstd::slice::slice_to_vec(bytes);
                        Ok(Action::Other(full))
                    } else {
                        let t2 = vstd::slice::slice_subrange(rest, 1, rest.len());
                        proof {
                            assert(t2@ =~= rest@.skip(1));
                        }
                        if t2.len() >= 1 && *vstd::slice::slice_index_get(t2, t2.len() - 1)
                            == 0x07 {
                            let txt = vstd::slice::slice_to_vec(
                                vstd::slice::slice_subrange(t2, 0, t2.len() - 1),
                            );
                            proof {
                                assert(txt@ =~= t2@.drop_last());
                            }
                            Ok(Action::OscTxt(n, txt))
                        } else if t2.len() >= 2 && *vstd::slice::slice_index_get(
                            t2,
                            t2.len() - 1,
                        ) == 0x5c {
                            let txt = vstd::slice::slice_to_vec(
                                vstd::slice::slice_subrange(t2, 0, t2.len() - 2),
                            );
                            proof {
                                assert(txt@ =~= t2@.take(t2@.len() - 2));
                            }
                            Ok(Action::OscTxt(n, txt))
                        } else {
                            Err(DecodeError::Malformed(MalformedSeq))
                        }
                    }
                },
            },
        }
    } else {
        let full = vstd::slice::slice_to_vec(bytes);
        Ok(Action::Other(full))
    }
}

/// What the extractor reports for one attempt: either the input ended before
/// a terminator, or a complete sequence of the given total length (leading
/// `ESC` included) was dispatched.
#[derive(Copy, Clone, PartialEq, Eq, Structural, Debug)]
pub enum EscSeqParse {
    IncompleteSeq,
    UsedBytes(u16),
}

/// Why a write into the interceptor failed.
#[derive(Copy, Clone, PartialEq, Eq, Structural, Debug)]
pub enum WriteError {
    /// The sequence's parameter section does not parse: invalid data.
    InvalidData(DecodeError),
    /// The backend refused a callback.
    Interp(InterpError),
}

/// Decode the extracted sequence body and call the matching interpreter
/// method. On success reports the body's length as used.
pub fn parse_sequence<I: AnsiInterpret>(bytes: &[u8], interp: &mut I) -> (r: Result<
    EscSeqParse,
    WriteError,
>)
    requires
        bytes@.len() <= 0xffff,
    ensures
        match r {
            Ok(p) => {
                &&& decode_spec(bytes@) matches Ok(e)
                    && final(interp).events() == old(interp).events().push(e)
                &&& p == EscSeqParse::UsedBytes(bytes@.len() as u16)
            },
            Err(we) => {
                &&& final(interp).events() == old(interp).events()
                &&& match we {
                    WriteError::InvalidData(de) => decode_spec(bytes@) == Err::<Event,
                        DecodeError,
                    >(de),
                    WriteError::Interp(_) => decode_spec(bytes@) is Ok,
                }
            },
        },
{
    let used = EscSeqParse::UsedBytes(bytes.len() as u16);
    match decode_sequence(bytes) {
        Err(de) => Err(WriteError::InvalidData(de)),
        Ok(a) => {
            let res: Result<(), InterpError> = match a {
                Action::Cuu(r) => interp.cuu_seq(r),
                Action::Cud(r) => interp.cud_seq(r),
                Action::Cuf(c) => interp.cuf_seq(c),
                Action::Cub(c) => interp.cub_seq(c),
                Action::Cup(r, c) => interp.cup_seq(r, c),
                Action::Hvp(r, c) => interp.hvp_seq(r, c),
                Action::Ed(n) => interp.ed_seq(n),
                Action::El(n) => interp.el_seq(n),
                Action::Sgr(ns) => interp.sgr_seq(ns.as_slice()),
                Action::Dsr => interp.dsr_seq(),
                Action::Scp => interp.scp_seq(),
                Action::Rcp => interp.rcp_seq(),
                Action::OscTxt(n, txt) => interp.osc_txt_seq(n, txt.as_slice()),
                Action::Other(full) => interp.other_seq(full.as_slice()),
            };
            match res {
                Ok(_) => Ok(used),
                Err(ie) => Err(WriteError::Interp(ie)),
            }
        },
    }
}

/// Extract one complete escape sequence from the front of `bytes` (whose
/// first byte is the leading `ESC`) and dispatch it; or report that the
/// input holds no complete sequence within the scanning window.
pub fn extract_sequence<I: AnsiInterpret>(bytes: &[u8], interp: &mut I) -> (r: Result<
    EscSeqParse,
    WriteError,
>)
    requires
        bytes@.len() >= 1,
        bytes@[0] == ESC,
    ensures
        match r {
            Ok(p) => match p {
                EscSeqParse::IncompleteSeq => {
                    &&& extract_res(bytes@) is None
                    &&& final(interp).events() == old(interp).events()
                },
                EscSeqParse::UsedBytes(n) => {
                    &&& extract_res(bytes@) == Some(n as int)
                    &&& decode_spec(bytes@.subrange(1, n as int)) matches Ok(e)
                        && final(interp).events() == old(interp).events().push(e)
                },
            },
            Err(we) => {
                &&& final(interp).events() == old(interp).events()
                &&& extract_res(bytes@) matches Some(n)
                &&& match we {
                    WriteError::InvalidData(de) => extract_res(bytes@) matches Some(n)
                        && decode_spec(bytes@.subrange(1, n)) == Err::<Event, DecodeError>(de),
                    WriteError::Interp(_) => extract_res(bytes@) matches Some(n) && decode_spec(
                        bytes@.subrange(1, n),
                    ) is Ok,
                }
            },
        },
{
    match scan_sequence(bytes) {
        None => Ok(EscSeqParse::IncompleteSeq),
        Some(n) => {
            let seq_bytes = vstd::slice::slice_subrange(bytes, 1, n);
            proof {
                lemma_extract_res_bounds(bytes@);
                assert(seq_bytes@ =~= bytes@.subrange(1, n as int));
            }
            match parse_sequence(seq_bytes, interp) {
                Ok(EscSeqParse::UsedBytes(bs)) => Ok(EscSeqParse::UsedBytes(bs + 1)),
                Ok(EscSeqParse::IncompleteSeq) => Ok(EscSeqParse::IncompleteSeq),
                Err(we) => Err(we),
            }
        },
    }
}

} // verus!
