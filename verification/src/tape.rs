//! A diagnostic interpreter: it prints `[NAME:args]` for each callback and
//! passes plain text through verbatim, so that what the interceptor did can
//! be read back as one byte string.

use vstd::prelude::*;
use crate::dispatch::EraseDisplay;
use crate::dispatch::EraseLine;
use crate::intercept::push_all;
use crate::interp::AnsiInterpret;
use crate::interp::Event;
use crate::interp::InterpError;

verus! {

/// Decimal digits of `n`, most significant first, without leading zeros.
pub open spec fn dec_bytes(n: nat) -> Seq<u8>
    decreases n,
    via dec_bytes_decreases
{
    if n < 10 {
        seq![(0x30 + n) as u8]
    } else {
        dec_bytes(n / 10).push((0x30 + n % 10) as u8)
    }
}

#[via_fn]
proof fn dec_bytes_decreases(n: nat) {
    if n >= 10 {
        vstd::arithmetic::div_mod::lemma_div_is_strictly_smaller(n as int, 10);
    }
}

/// Append the decimal digits of `n` to `v`, most significant first.
pub fn push_u16_dec(v: &mut Vec<u8>, n: u16)
    ensures
        final(v)@ == old(v)@ + dec_bytes(n as nat),
    decreases n,
{
    if n < 10 {
        v.push(0x30 + (n as u8));
        proof {
            assert(old(v)@ + dec_bytes(n as nat) =~= old(v)@.push((0x30 + n) as u8));
        }
    } else {
        proof {
            vstd::arithmetic::div_mod::lemma_div_is_strictly_smaller(n as int, 10);
        }
        push_u16_dec(v, n / 10);
        v.push(0x30 + ((n % 10) as u8));
        proof {
            assert(old(v)@ + dec_bytes(n as nat) =~= (old(v)@ + dec_bytes((n / 10) as nat)).push(
                (0x30 + n % 10) as u8,
            ));
        }
    }
}

/// The lowercase hexadecimal digit for a value below 16.
pub open spec fn hex_digit(d: u8) -> u8 {
    if d < 10 {
        (0x30 + d) as u8
    } else {
        (0x57 + d) as u8
    }
}

/// Two lowercase hexadecimal digits for every byte of `s`, in order.
pub open spec fn hex_bytes(s: Seq<u8>) -> Seq<u8>
    decreases s.len(),
{
    if s.len() == 0 {
        Seq::empty()
    } else {
        hex_bytes(s.drop_last()) + seq![hex_digit(s.last() / 16), hex_digit(s.last() % 16)]
    }
}

/// Append the hexadecimal rendering of `s` to `v`.
pub fn push_hex(v: &mut Vec<u8>, s: &[u8])
    ensures
        final(v)@ == old(v)@ + hex_bytes(s@),
{
    let mut i: usize = 0;
    while i < s.len()
        invariant
            0 <= i <= s@.len(),
            v@ == old(v)@ + hex_bytes(s@.take(i as int)),
        decreases s@.len() - i,
    {
        let b = *vstd::slice::slice_index_get(s, i);
        let hi = b / 16;
        let lo = b % 16;
        v.push(
            if hi < 10 {
                0x30 + hi
            } else {
                0x57 + hi
            },
        );
        v.push(
            if lo < 10 {
                0x30 + lo
            } else {
                0x57 + lo
            },
        );
        proof {
            let t = s@.take(i + 1);
            assert(t.drop_last() =~= s@.take(i as int));
            assert(t.last() == s@[i as int]);
            assert(old(v)@ + hex_bytes(t) =~= (old(v)@ + hex_bytes(s@.take(i as int))).push(
                hex_digit(b / 16),
            ).push(hex_digit(b % 16)));
        }
        i = i + 1;
    }
    proof {
        assert(s@.take(s@.len() as int) =~= s@);
    }
}

/// The digit a diagnostic print uses for an erase-display variant.
pub open spec fn spec_ed_code(n: EraseDisplay) -> u8 {
    match n {
        EraseDisplay::CursorToBottom => 0u8,
        EraseDisplay::TopToCursor => 1u8,
        EraseDisplay::All => 2u8,
    }
}

pub fn ed_code(n: EraseDisplay) -> (r: u8)
    ensures
        r == spec_ed_code(n),
{
    match n {
        EraseDisplay::CursorToBottom => 0,
        EraseDisplay::TopToCursor => 1,
        EraseDisplay::All => 2,
    }
}

/// The digit a diagnostic print uses for an erase-line variant.
pub open spec fn spec_el_code(n: EraseLine) -> u8 {
    match n {
        EraseLine::CursorToEnd => 0u8,
        EraseLine::StartToCursor => 1u8,
        EraseLine::All => 2u8,
    }
}

pub fn el_code(n: EraseLine) -> (r: u8)
    ensures
        r == spec_el_code(n),
{
    match n {
        EraseLine::CursorToEnd => 0,
        EraseLine::StartToCursor => 1,
        EraseLine::All => 2,
    }
}

/// One diagnostic record: `[` NAME `:` args `]`.
pub open spec fn record(name: Seq<u8>, args: Seq<u8>) -> Seq<u8> {
    seq![0x5bu8] + name + seq![0x3au8] + args + seq![0x5du8]
}

/// An SGR parameter list as printed: decimal values joined by commas.
pub open spec fn render_params(ns: Seq<u8>) -> Seq<u8>
    decreases ns.len(),
{
    if ns.len() == 0 {
        Seq::empty()
    } else if ns.len() == 1 {
        dec_bytes(ns[0] as nat)
    } else {
        render_params(ns.drop_last()) + seq![0x2cu8] + dec_bytes(ns.last() as nat)
    }
}

/// What the diagnostic interpreter prints for one event: text verbatim, and
/// `[NAME:args]` for every dispatched sequence.
pub open spec fn render_event(e: Event) -> Seq<u8> {
    match e {
        Event::Text(s) => s,
        Event::Cuu(n) => record(seq![0x43u8, 0x55u8, 0x55u8], dec_bytes(n as nat)),
        Event::Cud(n) => record(seq![0x43u8, 0x55u8, 0x44u8], dec_bytes(n as nat)),
        Event::Cuf(n) => record(seq![0x43u8, 0x55u8, 0x46u8], dec_bytes(n as nat)),
        Event::Cub(n) => record(seq![0x43u8, 0x55u8, 0x42u8], dec_bytes(n as nat)),
        Event::Cup(r, c) => record(
            seq![0x43u8, 0x55u8, 0x50u8],
            dec_bytes(r as nat) + seq![0x2cu8] + dec_bytes(c as nat),
        ),
        Event::Hvp(r, c) => record(
            seq![0x48u8, 0x56u8, 0x50u8],
            dec_bytes(r as nat) + seq![0x2cu8] + dec_bytes(c as nat),
        ),
        Event::Ed(n) => record(seq![0x45u8, 0x44u8], dec_bytes(spec_ed_code(n) as nat)),
        Event::El(n) => record(seq![0x45u8, 0x4cu8], dec_bytes(spec_el_code(n) as nat)),
        Event::Sgr(ns) => record(seq![0x53u8, 0x47u8, 0x52u8], render_params(ns)),
        Event::Dsr => seq![0x5bu8, 0x44u8, 0x53u8, 0x52u8, 0x5du8],
        Event::Scp => seq![0x5bu8, 0x53u8, 0x43u8, 0x50u8, 0x5du8],
        Event::Rcp => seq![0x5bu8, 0x52u8, 0x43u8, 0x50u8, 0x5du8],
        Event::OscTxt(n, txt) => record(
            seq![0x4fu8, 0x53u8, 0x43u8],
            dec_bytes(n as nat) + seq![0x2cu8, 0x22u8] + txt + seq![0x22u8],
        ),
        Event::Other(bytes) => record(seq![0x55u8, 0x4eu8, 0x4bu8], hex_bytes(bytes)),
    }
}

/// The diagnostic interpreter: every callback appends its rendering to
/// `out`, accepts, and logs its event.
pub struct TapeInterpret {
    /// Everything printed so far.
    pub out: Vec<u8>,
    /// The trace of accepted callbacks, as ghost state.
    pub trace: Ghost<Seq<Event>>,
}

impl TapeInterpret {
    pub fn new() -> (r: TapeInterpret)
        ensures
            r.out@ == Seq::<u8>::empty(),
            r.events() == Seq::<Event>::empty(),
    {
        TapeInterpret { out: Vec::new(), trace: Ghost(Seq::empty()) }
    }

    /// Append `[` NAME `:` to `out`: the opening of one diagnostic record.
    fn open_tag(&mut self, name: &[u8])
        ensures
            final(self).out@ == old(self).out@ + seq![0x5bu8] + name@ + seq![0x3au8],
            final(self).trace == old(self).trace,
    {
        self.out.push(0x5b);
        push_all(&mut self.out, name);
        self.out.push(0x3a);
        proof {
            assert(final(self).out@ =~= old(self).out@ + seq![0x5bu8] + name@ + seq![0x3au8]);
        }
    }
}

impl AnsiInterpret for TapeInterpret {
    open spec fn events(&self) -> Seq<Event> {
        self.trace@
    }

    fn write_text(&mut self, buf: &[u8]) -> (r: Result<usize, InterpError>)
        ensures
            r is Ok,
            final(self).out@ == old(self).out@ + render_event(Event::Text(buf@)),
    {
        push_all(&mut self.out, buf);
        proof {
            self.trace@ = self.trace@.push(Event::Text(buf@));
        }
        Ok(buf.len())
    }

    fn cuu_seq(&mut self, r: u16) -> (res: Result<(), InterpError>)
        ensures
            res is Ok,
            final(self).out@ == old(self).out@ + render_event(Event::Cuu(r)),
    {
        let name: [u8; 3] = [0x43, 0x55, 0x55];  // CUU
        self.open_tag(name.as_slice());
        push_u16_dec(&mut self.out, r);
        self.out.push(0x5d);
        proof {
            self.trace@ = self.trace@.push(Event::Cuu(r));
            assert(final(self).out@ =~= old(self).out@ + render_event(Event::Cuu(r)));
        }
        Ok(())
    }

    fn cud_seq(&mut self, r: u16) -> (res: Result<(), InterpError>)
        ensures
            res is Ok,
            final(self).out@ == old(self).out@ + render_event(Event::Cud(r)),
    {
        let name: [u8; 3] = [0x43, 0x55, 0x44];  // CUD
        self.open_tag(name.as_slice());
        push_u16_dec(&mut self.out, r);
        self.out.push(0x5d);
        proof {
            self.trace@ = self.trace@.push(Event::Cud(r));
            assert(final(self).out@ =~= old(self).out@ + render_event(Event::Cud(r)));
        }
        Ok(())
    }

    fn cuf_seq(&mut self, c: u16) -> (res: Result<(), InterpError>)
        ensures
            res is Ok,
            final(self).out@ == old(self).out@ + render_event(Event::Cuf(c)),
    {
        let name: [u8; 3] = [0x43, 0x55, 0x46];  // CUF
        self.open_tag(name.as_slice());
        push_u16_dec(&mut self.out, c);
        self.out.push(0x5d);
        proof {
            self.trace@ = self.trace@.push(Event::Cuf(c));
            assert(final(self).out@ =~= old(self).out@ + render_event(Event::Cuf(c)));
        }
        Ok(())
    }

    fn cub_seq(&mut self, c: u16) -> (res: Result<(), InterpError>)
        ensures
            res is Ok,
            final(self).out@ == old(self).out@ + render_event(Event::Cub(c)),
    {
        let name: [u8; 3] = [0x43, 0x55, 0x42];  // CUB
        self.open_tag(name.as_slice());
        push_u16_dec(&mut self.out, c);
        self.out.push(0x5d);
        proof {
            self.trace@ = self.trace@.push(Event::Cub(c));
            assert(final(self).out@ =~= old(self).out@ + render_event(Event::Cub(c)));
        }
        Ok(())
    }

    fn cup_seq(&mut self, r: u16, c: u16) -> (res: Result<(), InterpError>)
        ensures
            res is Ok,
            final(self).out@ == old(self).out@ + render_event(Event::Cup(r, c)),
    {
        let name: [u8; 3] = [0x43, 0x55, 0x50];  // CUP
        self.open_tag(name.as_slice());
        push_u16_dec(&mut self.out, r);
        self.out.push(0x2c);
        push_u16_dec(&mut self.out, c);
        self.out.push(0x5d);
        proof {
            self.trace@ = self.trace@.push(Event::Cup(r, c));
            assert(final(self).out@ =~= old(self).out@ + render_event(Event::Cup(r, c)));
        }
        Ok(())
    }

    fn hvp_seq(&mut self, r: u16, c: u16) -> (res: Result<(), InterpError>)
        ensures
            res is Ok,
            final(self).out@ == old(self).out@ + render_event(Event::Hvp(r, c)),
    {
        let name: [u8; 3] = [0x48, 0x56, 0x50];  // HVP
        self.open_tag(name.as_slice());
        push_u16_dec(&mut self.out, r);
        self.out.push(0x2c);
        push_u16_dec(&mut self.out, c);
        self.out.push(0x5d);
        proof {
            self.trace@ = self.trace@.push(Event::Hvp(r, c));
            assert(final(self).out@ =~= old(self).out@ + render_event(Event::Hvp(r, c)));
        }
        Ok(())
    }

    fn ed_seq(&mut self, n: EraseDisplay) -> (res: Result<(), InterpError>)
        ensures
            res is Ok,
            final(self).out@ == old(self).out@ + render_event(Event::Ed(n)),
    {
        let name: [u8; 2] = [0x45, 0x44];  // ED
        self.open_tag(name.as_slice());
        push_u16_dec(&mut self.out, ed_code(n) as u16);
        self.out.push(0x5d);
        proof {
            self.trace@ = self.trace@.push(Event::Ed(n));
            assert(final(self).out@ =~= old(self).out@ + render_event(Event::Ed(n)));
        }
        Ok(())
    }

    fn el_seq(&mut self, n: EraseLine) -> (res: Result<(), InterpError>)
        ensures
            res is Ok,
            final(self).out@ == old(self).out@ + render_event(Event::El(n)),
    {
        let name: [u8; 2] = [0x45, 0x4c];  // EL
        self.open_tag(name.as_slice());
        push_u16_dec(&mut self.out, el_code(n) as u16);
        self.out.push(0x5d);
        proof {
            self.trace@ = self.trace@.push(Event::El(n));
            assert(final(self).out@ =~= old(self).out@ + render_event(Event::El(n)));
        }
        Ok(())
    }

    fn sgr_seq(&mut self, ns: &[u8]) -> (res: Result<(), InterpError>)
        ensures
            res is Ok,
            final(self).out@ == old(self).out@ + render_event(Event::Sgr(ns@)),
    {
        let name: [u8; 3] = [0x53, 0x47, 0x52];  // SGR
        self.open_tag(name.as_slice());
        let ghost mark = self.out@;
        let mut i: usize = 0;
        while i < ns.len()
            invariant
                0 <= i <= ns@.len(),
                self.trace == old(self).trace,
                mark == old(self).out@ + seq![0x5bu8] + seq![0x53u8, 0x47u8, 0x52u8] + seq![
                    0x3au8,
                ],
                self.out@ == mark + render_params(ns@.take(i as int)),
            decreases ns@.len() - i,
        {
            if i > 0 {
                self.out.push(0x2c);
            }
            let n = *vstd::slice::slice_index_get(ns, i);
            push_u16_dec(&mut self.out, n as u16);
            proof {
                let t = ns@.take(i + 1);
                assert(t.drop_last() =~= ns@.take(i as int));
                assert(t.last() == ns@[i as int]);
                if i == 0 {
                    assert(render_params(t) == dec_bytes(ns@[0] as nat));
                    assert(self.out@ =~= mark + render_params(t));
                } else {
                    assert(self.out@ =~= mark + render_params(t));
                }
            }
            i = i + 1;
        }
        self.out.push(0x5d);
        proof {
            assert(ns@.take(ns@.len() as int) =~= ns@);
            self.trace@ = self.trace@.push(Event::Sgr(ns@));
            assert(final(self).out@ =~= old(self).out@ + render_event(Event::Sgr(ns@)));
        }
        Ok(())
    }

    fn dsr_seq(&mut self) -> (res: Result<(), InterpError>)
        ensures
            res is Ok,
            final(self).out@ == old(self).out@ + render_event(Event::Dsr),
    {
        let name: [u8; 5] = [0x5b, 0x44, 0x53, 0x52, 0x5d];  // [DSR]
        push_all(&mut self.out, name.as_slice());
        proof {
            self.trace@ = self.trace@.push(Event::Dsr);
            assert(final(self).out@ =~= old(self).out@ + render_event(Event::Dsr));
        }
        Ok(())
    }

    fn scp_seq(&mut self) -> (res: Result<(), InterpError>)
        ensures
            res is Ok,
            final(self).out@ == old(self).out@ + render_event(Event::Scp),
    {
        let name: [u8; 5] = [0x5b, 0x53, 0x43, 0x50, 0x5d];  // [SCP]
        push_all(&mut self.out, name.as_slice());
        proof {
            self.trace@ = self.trace@.push(Event::Scp);
            assert(final(self).out@ =~= old(self).out@ + render_event(Event::Scp));
        }
        Ok(())
    }

    fn rcp_seq(&mut self) -> (res: Result<(), InterpError>)
        ensures
            res is Ok,
            final(self).out@ == old(self).out@ + render_event(Event::Rcp),
    {
        let name: [u8; 5] = [0x5b, 0x52, 0x43, 0x50, 0x5d];  // [RCP]
        push_all(&mut self.out, name.as_slice());
        proof {
            self.trace@ = self.trace@.push(Event::Rcp);
            assert(final(self).out@ =~= old(self).out@ + render_event(Event::Rcp));
        }
        Ok(())
    }

    fn osc_txt_seq(&mut self, n: u16, txt: &[u8]) -> (res: Result<(), InterpError>)
        ensures
            res is Ok,
            final(self).out@ == old(self).out@ + render_event(Event::OscTxt(n, txt@)),
    {
        let name: [u8; 3] = [0x4f, 0x53, 0x43];  // OSC
        self.open_tag(name.as_slice());
        push_u16_dec(&mut self.out, n);
        self.out.push(0x2c);
        self.out.push(0x22);
        push_all(&mut self.out, txt);
        self.out.push(0x22);
        self.out.push(0x5d);
        proof {
            self.trace@ = self.trace@.push(Event::OscTxt(n, txt@));
            assert(final(self).out@ =~= old(self).out@ + render_event(Event::OscTxt(n, txt@)));
        }
        Ok(())
    }

    fn other_seq(&mut self, bytes: &[u8]) -> (res: Result<(), InterpError>)
        ensures
            res is Ok,
            final(self).out@ == old(self).out@ + render_event(Event::Other(bytes@)),
    {
        let name: [u8; 3] = [0x55, 0x4e, 0x4b];  // UNK
        self.open_tag(name.as_slice());
        push_hex(&mut self.out, bytes);
        self.out.push(0x5d);
        proof {
            self.trace@ = self.trace@.push(Event::Other(bytes@));
            assert(final(self).out@ =~= old(self).out@ + render_event(Event::Other(bytes@)));
        }
        Ok(())
    }
}

} // verus!
