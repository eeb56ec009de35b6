//! Parsers for the numeric parameter section of a CSI sequence: runs of
//! decimal digits separated by `;`, where an empty run means "use the
//! command's default" and is distinct from an explicit `0`.

use vstd::prelude::*;

verus! {

/// A syntactically invalid parameter section.
#[derive(Copy, Clone, PartialEq, Eq, Structural, Debug)]
pub struct MalformedSeq;

pub open spec fn is_digit(b: u8) -> bool {
    0x30 <= b && b <= 0x39
}

/// Length of the run of decimal digits at the front of `s`.
pub open spec fn digits_len(s: Seq<u8>) -> int
    decreases s.len(),
{
    if s.len() > 0 && is_digit(s[0]) {
        1 + digits_len(s.skip(1))
    } else {
        0
    }
}

pub proof fn lemma_digits_len_bounds(s: Seq<u8>)
    ensures
        0 <= digits_len(s) <= s.len(),
        forall|j: int| 0 <= j < digits_len(s) ==> is_digit(s[j]),
        digits_len(s) < s.len() ==> !is_digit(s[digits_len(s)]),
    decreases s.len(),
{
    if s.len() > 0 && is_digit(s[0]) {
        lemma_digits_len_bounds(s.skip(1));
        assert(forall|j: int| 1 <= j < digits_len(s) ==> s.skip(1)[j - 1] == s[j]);
    }
}

/// The value of a digit string read as a decimal numeral.
pub open spec fn dec_val(s: Seq<u8>) -> nat
    decreases s.len(),
{
    if s.len() == 0 {
        0
    } else {
        (10 * dec_val(s.drop_last()) + (s.last() - 0x30)) as nat
    }
}

/// A parsed parameter is reported saturated to the width callers use.
pub open spec fn sat16(n: nat) -> u16 {
    if n > 0xffff {
        0xffff as u16
    } else {
        n as u16
    }
}

/// What `parse_num` returns on `s`: `None` for a malformed section, otherwise
/// the input after the digit run (which is empty or starts with `;`) and the
/// parsed number, `None` standing for an empty run.
pub open spec fn spec_parse_num(s: Seq<u8>) -> Option<(Seq<u8>, Option<u16>)> {
    let d = digits_len(s);
    let rest = s.skip(d);
    if rest.len() == 0 || rest[0] == 0x3b {
        Some((rest, if d == 0 { None } else { Some(sat16(dec_val(s.take(d)))) }))
    } else {
        None
    }
}

/// Read one optional decimal number from the front of `bytes`, stopping at a
/// `;` or at the end; any other byte is malformed. Values too large for
/// `u16` saturate to `u16::MAX`.
pub fn parse_num(bytes: &[u8]) -> (r: Result<(&[u8], Option<u16>), MalformedSeq>)
    ensures
        match r {
            Ok(p) => spec_parse_num(bytes@) == Some((p.0@, p.1)),
            Err(_) => spec_parse_num(bytes@) is None,
        },
{
    let ghost s = bytes@;
    let mut i: usize = 0;
    let mut v: u16 = 0;
    let ghost mut tv: nat = 0nat;
    proof {
        lemma_digits_len_bounds(s);
    }
    loop
        invariant
            s == bytes@,
            0 <= i <= s.len(),
            i <= digits_len(s),
            tv == dec_val(s.take(i as int)),
            v == sat16(tv),
            forall|j: int| 0 <= j < digits_len(s) ==> is_digit(s[j]),
            digits_len(s) < s.len() ==> !is_digit(s[digits_len(s)]),
            0 <= digits_len(s) <= s.len(),
        ensures
            i == digits_len(s),
            tv == dec_val(s.take(i as int)),
            v == sat16(tv),
        decreases s.len() - i,
    {
        if i >= bytes.len() {
            break;
        }
        let b = *vstd::slice::slice_index_get(bytes, i);
        if !(0x30 <= b && b <= 0x39) {
            break;
        }
        proof {
            assert(is_digit(s[i as int]));
            if i >= digits_len(s) {
                assert(i == digits_len(s));
                assert(!is_digit(s[digits_len(s)]));
                assert(false);
            }
        }
        let d: u16 = (b - 0x30) as u16;
        let w: u32 = (v as u32) * 10 + (d as u32);
        let nv: u16 = if w > 0xffff {
            0xffff
        } else {
            w as u16
        };
        proof {
            let ntv: nat = (10 * tv + (b - 0x30)) as nat;
            assert(s.take(i + 1).drop_last() =~= s.take(i as int));
            assert(s.take(i + 1).last() == s[i as int]);
            assert(dec_val(s.take(i + 1)) == ntv);
            if tv > 0xffff {
                assert(10 * tv >= tv) by (nonlinear_arith)
                    requires tv >= 0;
                assert(ntv > 0xffff);
                assert(v == 0xffff);
                assert(w > 0xffff);
            } else {
                assert(v == tv);
                assert(w == 10 * tv + (b - 0x30));
            }
            assert(nv == sat16(ntv));
            tv = ntv;
        }
        v = nv;
        i = i + 1;
    }
    let opt: Option<u16> = if i == 0 {
        None
    } else {
        Some(v)
    };
    if i == bytes.len() {
        let rest = vstd::slice::slice_subrange(bytes, i, bytes.len());
        proof {
            assert(rest@ =~= s.skip(i as int));
            assert(s.take(digits_len(s)) =~= s.take(i as int));
        }
        Ok((rest, opt))
    } else {
        let b = *vstd::slice::slice_index_get(bytes, i);
        if b == 0x3b {
            let rest = vstd::slice::slice_subrange(bytes, i, bytes.len());
            proof {
                assert(rest@ =~= s.skip(i as int));
                assert(rest@[0] == s[i as int]);
                assert(s.take(digits_len(s)) =~= s.take(i as int));
            }
            Ok((rest, opt))
        } else {
            proof {
                assert(s.skip(i as int)[0] == s[i as int]);
            }
            Err(MalformedSeq)
        }
    }
}

/// What `parse_0n` accepts: an empty parameter section.
pub open spec fn spec_parse_0n(s: Seq<u8>) -> bool {
    s.len() == 0
}

/// A command that takes no parameters: the section must be empty.
pub fn parse_0n(bytes: &[u8]) -> (r: Result<(), MalformedSeq>)
    ensures
        r matches Ok(_) <==> spec_parse_0n(bytes@),
{
    if bytes.len() != 0 {
        Err(MalformedSeq)
    } else {
        Ok(())
    }
}

/// What `parse_1n` returns: one optional number and nothing after it.
pub open spec fn spec_parse_1n(s: Seq<u8>) -> Option<Option<u16>> {
    match spec_parse_num(s) {
        Some((rest, v)) => if rest.len() == 0 {
            Some(v)
        } else {
            None
        },
        None => None,
    }
}

/// A command that takes one optional number: a digit run and nothing else.
pub fn parse_1n(bytes: &[u8]) -> (r: Result<Option<u16>, MalformedSeq>)
    ensures
        match r {
            Ok(v) => spec_parse_1n(bytes@) == Some(v),
            Err(_) => spec_parse_1n(bytes@) is None,
        },
{
    match parse_num(bytes) {
        Err(e) => Err(e),
        Ok((rest, v)) => {
            if rest.len() != 0 {
                Err(MalformedSeq)
            } else {
                Ok(v)
            }
        },
    }
}

/// What `parse_2n` returns: two optional numbers separated by an optional
/// `;`, and nothing after them.
pub open spec fn spec_parse_2n(s: Seq<u8>) -> Option<(Option<u16>, Option<u16>)> {
    match spec_parse_num(s) {
        None => None,
        Some((rest, v1)) => if rest.len() == 0 {
            Some((v1, None))
        } else {
            // rest starts with `;`
            match spec_parse_num(rest.skip(1)) {
                None => None,
                Some((rest2, v2)) => if rest2.len() == 0 {
                    Some((v1, v2))
                } else {
                    None
                },
            }
        },
    }
}

/// A command that takes up to two optional numbers.
pub fn parse_2n(bytes: &[u8]) -> (r: Result<(Option<u16>, Option<u16>), MalformedSeq>)
    ensures
        match r {
            Ok(p) => spec_parse_2n(bytes@) == Some(p),
            Err(_) => spec_parse_2n(bytes@) is None,
        },
{
    match parse_num(bytes) {
        Err(e) => Err(e),
        Ok((rest, v1)) => {
            if rest.len() == 0 {
                Ok((v1, None))
            } else {
                // the remainder starts with `;`
                let tail = vstd::slice::slice_subrange(rest, 1, rest.len());
                proof {
                    assert(tail@ =~= rest@.skip(1));
                }
                match parse_num(tail) {
                    Err(e) => Err(e),
                    Ok((rest2, v2)) => {
                        if rest2.len() == 0 {
                            Ok((v1, v2))
                        } else {
                            Err(MalformedSeq)
                        }
                    },
                }
            }
        },
    }
}

/// What `parse_ns` returns: any number of `;`-separated optional numbers,
/// with the absent ones left out, each saturated to `u8`.
pub open spec fn spec_parse_ns(s: Seq<u8>) -> Option<Seq<u8>>
    decreases s.len(),
    via spec_parse_ns_decreases
{
    if s.len() == 0 {
        Some(Seq::empty())
    } else {
        match spec_parse_num(s) {
            None => None,
            Some((rest, v)) => {
                let rest2 = if rest.len() > 0 {
                    rest.skip(1)
                } else {
                    rest
                };
                match spec_parse_ns(rest2) {
                    None => None,
                    Some(tail) => match v {
                        Some(n) => Some(seq![sat8_of_sat16(n)] + tail),
                        None => Some(tail),
                    },
                }
            },
        }
    }

}

/// Saturating narrowing used when a parsed parameter feeds an 8-bit command.
pub open spec fn sat8_of_sat16(n: u16) -> u8 {
    if n > 0xff {
        0xff as u8
    } else {
        n as u8
    }
}

#[via_fn]
proof fn spec_parse_ns_decreases(s: Seq<u8>) {
    if s.len() > 0 {
        lemma_digits_len_bounds(s);
    }
}

/// A command that takes any number of optional parameters, such as SGR.
pub fn parse_ns(bytes: &[u8]) -> (r: Result<Vec<u8>, MalformedSeq>)
    ensures
        match r {
            Ok(ns) => spec_parse_ns(bytes@) == Some(ns@),
            Err(_) => spec_parse_ns(bytes@) is None,
        },
{
    let mut ns: Vec<u8> = Vec::new();
    let mut rest: &[u8] = bytes;
    let ghost mut done: Seq<u8> = Seq::empty();
    loop
        invariant
            ns@ == done,
            match spec_parse_ns(rest@) {
                Some(tail) => spec_parse_ns(bytes@) == Some(done + tail),
                None => spec_parse_ns(bytes@) is None,
            },
        decreases rest@.len(),
    {
        if rest.len() == 0 {
            proof {
                assert(done + Seq::<u8>::empty() =~= done);
            }
            return Ok(ns);
        }
        proof {
            lemma_digits_len_bounds(rest@);
        }
        match parse_num(rest) {
            Err(e) => {
                return Err(e);
            },
            Ok((tail, v)) => {
                let next: &[u8] = if tail.len() > 0 {
                    // `tail` starts with `;`
                    vstd::slice::slice_subrange(tail, 1, tail.len())
                } else {
                    tail
                };
                proof {
                    if tail@.len() > 0 {
                        assert(next@ =~= tail@.skip(1));
                    }
                }
                if let Some(n) = v {
                    let n8: u8 = if n > 0xff {
                        0xff
                    } else {
                        n as u8
                    };
                    ns.push(n8);
                    proof {
                        match spec_parse_ns(next@) {
                            Some(tail_vals) => {
                                assert(done.push(sat8_of_sat16(n)) + tail_vals =~= done + (seq![
                                    sat8_of_sat16(n),
                                ] + tail_vals));
                            },
                            None => {},
                        }
                        done = done.push(sat8_of_sat16(n));
                    }
                }
                rest = next;
            },
        }
    }
}

} // verus!
