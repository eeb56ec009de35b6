//! The interpreter interface: one callback per recognized sequence class,
//! plus a plain-text passthrough and a flush. A backend implements this
//! trait; the interceptor drives it.

use vstd::prelude::*;
use crate::dispatch::EraseDisplay;
use crate::dispatch::EraseLine;

verus! {

/// One observable interpreter callback, as an abstract event. The trace of
/// these events is the interceptor's entire observable behaviour.
pub enum Event {
    /// A run of plain text forwarded verbatim.
    Text(Seq<u8>),
    Cuu(u16),
    Cud(u16),
    Cuf(u16),
    Cub(u16),
    Cup(u16, u16),
    Hvp(u16, u16),
    Ed(EraseDisplay),
    El(EraseLine),
    Sgr(Seq<u8>),
    Dsr,
    Scp,
    Rcp,
    OscTxt(u16, Seq<u8>),
    Other(Seq<u8>),
}

/// The reason a backend gives when a callback fails.
#[derive(Copy, Clone, PartialEq, Eq, Structural, Debug)]
pub struct InterpError;

/// A backend for the interceptor: one method per recognized escape-sequence
/// class, plus the plain-text passthrough `write_text` and `flush`.
///
/// Each implementation names its trace of accepted callbacks in `events`;
/// every callback either appends exactly its own event to that trace, or
/// fails and leaves the trace unchanged. For that reason the sequence
/// callbacks carry no provided no-op bodies, and `hvp_seq` does not default
/// to delegating to `cup_seq`: a default body could not append the event it
/// owes. A backend that wants the delegation writes it out, as the console
/// backend does.
pub trait AnsiInterpret: Sized {
    /// The trace of callbacks this interpreter has accepted so far.
    spec fn events(&self) -> Seq<Event>;

    /// Pass a run of plain text through. Either the whole of `buf` is
    /// accepted (the returned count is its length) or the call fails.
    fn write_text(&mut self, buf: &[u8]) -> (r: Result<usize, InterpError>)
        ensures
            match r {
                Ok(n) => n == buf@.len() && final(self).events() == old(self).events().push(
                    Event::Text(buf@),
                ),
                Err(_) => final(self).events() == old(self).events(),
            },
    ;

    /// Flush whatever the backend buffers; observes nothing new.
    fn flush(&mut self) -> (r: Result<(), InterpError>)
        ensures
            final(self).events() == old(self).events(),
    {
        Ok(())
    }

    /// Cursor up by `r` rows.
    fn cuu_seq(&mut self, r: u16) -> (res: Result<(), InterpError>)
        ensures
            match res {
                Ok(_) => final(self).events() == old(self).events().push(Event::Cuu(r)),
                Err(_) => final(self).events() == old(self).events(),
            },
    ;

    /// Cursor down by `r` rows.
    fn cud_seq(&mut self, r: u16) -> (res: Result<(), InterpError>)
        ensures
            match res {
                Ok(_) => final(self).events() == old(self).events().push(Event::Cud(r)),
                Err(_) => final(self).events() == old(self).events(),
            },
    ;

    /// Cursor forward by `c` columns.
    fn cuf_seq(&mut self, c: u16) -> (res: Result<(), InterpError>)
        ensures
            match res {
                Ok(_) => final(self).events() == old(self).events().push(Event::Cuf(c)),
                Err(_) => final(self).events() == old(self).events(),
            },
    ;

    /// Cursor back by `c` columns.
    fn cub_seq(&mut self, c: u16) -> (res: Result<(), InterpError>)
        ensures
            match res {
                Ok(_) => final(self).events() == old(self).events().push(Event::Cub(c)),
                Err(_) => final(self).events() == old(self).events(),
            },
    ;

    /// Cursor to row `r`, column `c`, both 1-based.
    fn cup_seq(&mut self, r: u16, c: u16) -> (res: Result<(), InterpError>)
        ensures
            match res {
                Ok(_) => final(self).events() == old(self).events().push(Event::Cup(r, c)),
                Err(_) => final(self).events() == old(self).events(),
            },
    ;

    /// Erase part or all of the display.
    fn ed_seq(&mut self, n: EraseDisplay) -> (res: Result<(), InterpError>)
        ensures
            match res {
                Ok(_) => final(self).events() == old(self).events().push(Event::Ed(n)),
                Err(_) => final(self).events() == old(self).events(),
            },
    ;

    /// Erase part or all of the cursor's line.
    fn el_seq(&mut self, n: EraseLine) -> (res: Result<(), InterpError>)
        ensures
            match res {
                Ok(_) => final(self).events() == old(self).events().push(Event::El(n)),
                Err(_) => final(self).events() == old(self).events(),
            },
    ;

    /// Select graphic rendition: a non-empty list of attribute codes.
    fn sgr_seq(&mut self, ns: &[u8]) -> (res: Result<(), InterpError>)
        ensures
            match res {
                Ok(_) => final(self).events() == old(self).events().push(Event::Sgr(ns@)),
                Err(_) => final(self).events() == old(self).events(),
            },
    ;

    /// Device status report: a cursor-position report was requested.
    fn dsr_seq(&mut self) -> (res: Result<(), InterpError>)
        ensures
            match res {
                Ok(_) => final(self).events() == old(self).events().push(Event::Dsr),
                Err(_) => final(self).events() == old(self).events(),
            },
    ;

    /// Save the cursor position.
    fn scp_seq(&mut self) -> (res: Result<(), InterpError>)
        ensures
            match res {
                Ok(_) => final(self).events() == old(self).events().push(Event::Scp),
                Err(_) => final(self).events() == old(self).events(),
            },
    ;

    /// Restore the saved cursor position.
    fn rcp_seq(&mut self) -> (res: Result<(), InterpError>)
        ensures
            match res {
                Ok(_) => final(self).events() == old(self).events().push(Event::Rcp),
                Err(_) => final(self).events() == old(self).events(),
            },
    ;

    /// Operating-system command `n` with its raw text payload.
    fn osc_txt_seq(&mut self, n: u16, txt: &[u8]) -> (res: Result<(), InterpError>)
        ensures
            match res {
                Ok(_) => final(self).events() == old(self).events().push(Event::OscTxt(n, txt@)),
                Err(_) => final(self).events() == old(self).events(),
            },
    ;

    /// Horizontal and vertical position: as `cup_seq`, under its own name.
    fn hvp_seq(&mut self, r: u16, c: u16) -> (res: Result<(), InterpError>)
        ensures
            match res {
                Ok(_) => final(self).events() == old(self).events().push(Event::Hvp(r, c)),
                Err(_) => final(self).events() == old(self).events(),
            },
    ;

    /// Any sequence that is not recognized, delivered with its full bytes
    /// (leading `[` or `]` included, leading `ESC` excluded), never dropped.
    fn other_seq(&mut self, bytes: &[u8]) -> (res: Result<(), InterpError>)
        ensures
            match res {
                Ok(_) => final(self).events() == old(self).events().push(Event::Other(bytes@)),
                Err(_) => final(self).events() == old(self).events(),
            },
    ;
}

} // verus!
