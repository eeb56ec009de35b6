//! The computations a console backend makes: where the cursor goes, which
//! cells an erase command fills, how SGR codes change the attribute word,
//! and the bytes of a cursor-position report. A platform harness reads the
//! real screen state, calls these, and applies the results through the
//! native console API.

use vstd::prelude::*;
use crate::dispatch::EraseDisplay;
use crate::dispatch::EraseLine;
use crate::extract::ESC;
use crate::tape::dec_bytes;
use crate::tape::push_u16_dec;

verus! {

/// Bit 0 of the native attribute word: blue foreground.
pub const FOREGROUND_BLUE: u16 = 1;

/// Bit 1 of the native attribute word: green foreground.
pub const FOREGROUND_GREEN: u16 = 2;

/// Bit 2 of the native attribute word: red foreground.
pub const FOREGROUND_RED: u16 = 4;

/// Bit 3 of the native attribute word: foreground intensity.
pub const FOREGROUND_INTENSITY: u16 = 8;

pub const FOREGROUND_WHITE: u16 = FOREGROUND_RED | FOREGROUND_GREEN | FOREGROUND_BLUE;

/// How far the foreground color bits sit from bit 0.
pub const FOREGROUND_SHIFT: usize = 0;

pub const BACKGROUND_BLUE: u16 = 16;

pub const BACKGROUND_GREEN: u16 = 32;

pub const BACKGROUND_RED: u16 = 64;

pub const BACKGROUND_INTENSITY: u16 = 128;

pub const BACKGROUND_WHITE: u16 = BACKGROUND_RED | BACKGROUND_GREEN | BACKGROUND_BLUE;

/// How far the background color bits sit from bit 0.
pub const BACKGROUND_SHIFT: usize = 4;

pub const COLOR_ALL: u16 = FOREGROUND_WHITE | FOREGROUND_INTENSITY | BACKGROUND_WHITE
    | BACKGROUND_INTENSITY;

/// An ANSI color channel triple (bit 0 = R, bit 1 = G, bit 2 = B) rearranged
/// into the native ordering (bit 0 = B, bit 1 = G, bit 2 = R): bits 0 and 2
/// swap.
pub open spec fn spec_split_rgb(c: u8) -> u16 {
    (((c & 1) << 2) | (c & 2) | ((c & 4) >> 2)) as u16
}

/// The foreground color bits an SGR code selects: codes 30-37 pick a color,
/// 90-97 a color with intensity, 39 the default; anything else picks none.
pub open spec fn spec_sgr_color_to_fg(n: u8) -> Option<u16> {
    if 30 <= n && n <= 37 {
        Some(spec_split_rgb((n - 30) as u8))
    } else if 90 <= n && n <= 97 {
        Some(spec_split_rgb((n - 90) as u8) | FOREGROUND_INTENSITY)
    } else if n == 39 {
        Some(0)
    } else {
        None
    }
}

/// The background color bits an SGR code selects: codes 40-47 pick a color,
/// 100-107 a color with intensity, 49 the default; anything else picks none.
pub open spec fn spec_sgr_color_to_bg(n: u8) -> Option<u16> {
    if 40 <= n && n <= 47 {
        Some((spec_split_rgb((n - 40) as u8) << 4) as u16)
    } else if 100 <= n && n <= 107 {
        Some(((spec_split_rgb((n - 100) as u8) << 4) | BACKGROUND_INTENSITY) as u16)
    } else if n == 49 {
        Some(0)
    } else {
        None
    }
}

fn split_bits(c: u8) -> (r: u16)
    ensures
        r == spec_split_rgb(c),
{
    (((c & 1) << 2) | (c & 2) | ((c & 4) >> 2)) as u16
}

/// Map an SGR foreground code to the native attribute bits it selects.
pub fn sgr_color_to_fg(n: u8) -> (r: Option<u16>)
    ensures
        r == spec_sgr_color_to_fg(n),
{
    // the foreground shift is zero, so the color bits stand where they are
    if 30 <= n && n <= 37 {
        Some(split_bits(n - 30))
    } else if 90 <= n && n <= 97 {
        Some(split_bits(n - 90) | FOREGROUND_INTENSITY)
    } else if n == 39 {
        Some(0)
    } else {
        None
    }
}

/// Map an SGR background code to the native attribute bits it selects.
pub fn sgr_color_to_bg(n: u8) -> (r: Option<u16>)
    ensures
        r == spec_sgr_color_to_bg(n),
{
    if 40 <= n && n <= 47 {
        Some(split_bits(n - 40) << 4)
    } else if 100 <= n && n <= 107 {
        Some((split_bits(n - 100) << 4) | BACKGROUND_INTENSITY)
    } else if n == 49 {
        Some(0)
    } else {
        None
    }
}

/// How one SGR code changes the attribute word: reset, intensity on or off,
/// a foreground or background color with or without intensity, or a default
/// color; unknown codes change nothing.
pub open spec fn spec_sgr_apply(attrs: u16, n: u8) -> u16 {
    if n == 0 {
        (attrs & !COLOR_ALL) | FOREGROUND_WHITE
    } else if n == 1 {
        attrs | FOREGROUND_INTENSITY
    } else if n == 22 {
        attrs & !FOREGROUND_INTENSITY
    } else if 30 <= n && n <= 37 {
        (attrs & !FOREGROUND_WHITE) | spec_split_rgb((n - 30) as u8)
    } else if n == 39 {
        (attrs & !FOREGROUND_INTENSITY) | FOREGROUND_WHITE
    } else if 40 <= n && n <= 47 {
        (attrs & !BACKGROUND_WHITE) | ((spec_split_rgb((n - 40) as u8) << 4) as u16)
    } else if n == 49 {
        // the default is white on black, so the default background is black
        attrs & !(BACKGROUND_WHITE | BACKGROUND_INTENSITY)
    } else if 90 <= n && n <= 97 {
        (attrs & !FOREGROUND_WHITE) | (spec_split_rgb((n - 90) as u8) | FOREGROUND_INTENSITY)
    } else if 100 <= n && n <= 107 {
        (attrs & !BACKGROUND_WHITE) | (((spec_split_rgb((n - 100) as u8) << 4)
            | BACKGROUND_INTENSITY) as u16)
    } else {
        attrs
    }
}

/// Apply one SGR code to the attribute word.
pub fn sgr_apply(attrs: u16, n: u8) -> (r: u16)
    ensures
        r == spec_sgr_apply(attrs, n),
{
    if n == 0 {
        (attrs & !COLOR_ALL) | FOREGROUND_WHITE
    } else if n == 1 {
        attrs | FOREGROUND_INTENSITY
    } else if n == 22 {
        attrs & !FOREGROUND_INTENSITY
    } else if 30 <= n && n <= 37 {
        match sgr_color_to_fg(n) {
            Some(c) => (attrs & !FOREGROUND_WHITE) | c,
            None => attrs,
        }
    } else if n == 39 {
        (attrs & !FOREGROUND_INTENSITY) | FOREGROUND_WHITE
    } else if 40 <= n && n <= 47 {
        match sgr_color_to_bg(n) {
            Some(c) => (attrs & !BACKGROUND_WHITE) | c,
            None => attrs,
        }
    } else if n == 49 {
        attrs & !(BACKGROUND_WHITE | BACKGROUND_INTENSITY)
    } else if 90 <= n && n <= 97 {
        match sgr_color_to_fg(n) {
            Some(c) => (attrs & !FOREGROUND_WHITE) | c,
            None => attrs,
        }
    } else if 100 <= n && n <= 107 {
        match sgr_color_to_bg(n) {
            Some(c) => (attrs & !BACKGROUND_WHITE) | c,
            None => attrs,
        }
    } else {
        attrs
    }
}

/// The attribute word after applying a whole SGR parameter list, in order.
pub open spec fn spec_sgr_apply_all(attrs: u16, ns: Seq<u8>) -> u16
    decreases ns.len(),
{
    if ns.len() == 0 {
        attrs
    } else {
        spec_sgr_apply(spec_sgr_apply_all(attrs, ns.drop_last()), ns.last())
    }
}

/// Apply a whole SGR parameter list to the attribute word, in order.
pub fn sgr_apply_all(attrs: u16, ns: &[u8]) -> (r: u16)
    ensures
        r == spec_sgr_apply_all(attrs, ns@),
{
    let mut cur = attrs;
    let mut i: usize = 0;
    while i < ns.len()
        invariant
            0 <= i <= ns@.len(),
            cur == spec_sgr_apply_all(attrs, ns@.take(i as int)),
        decreases ns@.len() - i,
    {
        let n = *vstd::slice::slice_index_get(ns, i);
        cur = sgr_apply(cur, n);
        proof {
            assert(ns@.take(i + 1).drop_last() =~= ns@.take(i as int));
            assert(ns@.take(i + 1).last() == ns@[i as int]);
        }
        i = i + 1;
    }
    proof {
        assert(ns@.take(ns@.len() as int) =~= ns@);
    }
    cur
}

/// A screen-buffer position, in the native signed coordinates.
#[derive(Copy, Clone, PartialEq, Eq, Structural, Debug)]
pub struct Coord {
    pub x: i16,
    pub y: i16,
}

/// What the backend reads of the console before each command: the buffer
/// size, the cursor position, the attribute word, and the visible window's
/// bounds, all in buffer coordinates.
#[derive(Copy, Clone, PartialEq, Eq, Structural, Debug)]
pub struct ScreenInfo {
    /// Width and height of the whole screen buffer.
    pub size: Coord,
    /// The cursor, in buffer coordinates.
    pub cursor: Coord,
    /// The current character attribute word.
    pub attributes: u16,
    pub win_left: i16,
    pub win_top: i16,
    pub win_right: i16,
    pub win_bottom: i16,
}

/// A readable screen state: positive buffer size, the cursor inside the
/// buffer, and the visible window inside the buffer.
pub open spec fn screen_wf(info: ScreenInfo) -> bool {
    &&& 1 <= info.size.x
    &&& 1 <= info.size.y
    &&& 0 <= info.cursor.x < info.size.x
    &&& 0 <= info.cursor.y < info.size.y
    &&& 0 <= info.win_left <= info.win_right < info.size.x
    &&& 0 <= info.win_top <= info.win_bottom < info.size.y
}

/// A `u16` command argument clamped into the non-negative `i16` range.
pub open spec fn clamp_arg(r: u16) -> int {
    if r > 0x7fff {
        0x7fff as int
    } else {
        r as int
    }
}

/// Where the cursor lands after moving up `r` rows: same column, row
/// clamped at the buffer's top.
pub fn cuu_target(info: &ScreenInfo, r: u16) -> (t: Coord)
    requires
        screen_wf(*info),
    ensures
        t.x == info.cursor.x,
        t.y == vstd::math::max(0, info.cursor.y - clamp_arg(r)),
{
    let d: i32 = if r > 0x7fff {
        0x7fff
    } else {
        r as i32
    };
    let y: i32 = (info.cursor.y as i32) - d;
    let y: i32 = if y < 0 {
        0
    } else {
        y
    };
    Coord { x: info.cursor.x, y: y as i16 }
}

/// Where the cursor lands after moving down `r` rows: same column, row
/// clamped at the buffer's last line.
pub fn cud_target(info: &ScreenInfo, r: u16) -> (t: Coord)
    requires
        screen_wf(*info),
    ensures
        t.x == info.cursor.x,
        t.y == vstd::math::min(info.size.y - 1, info.cursor.y + clamp_arg(r)),
{
    let d: i32 = if r > 0x7fff {
        0x7fff
    } else {
        r as i32
    };
    let y: i32 = (info.cursor.y as i32) + d;
    let lim: i32 = (info.size.y as i32) - 1;
    let y: i32 = if y > lim {
        lim
    } else {
        y
    };
    Coord { x: info.cursor.x, y: y as i16 }
}

/// Where the cursor lands after moving forward `c` columns: same row,
/// column clamped at the buffer's last column.
pub fn cuf_target(info: &ScreenInfo, c: u16) -> (t: Coord)
    requires
        screen_wf(*info),
    ensures
        t.y == info.cursor.y,
        t.x == vstd::math::min(info.size.x - 1, info.cursor.x + clamp_arg(c)),
{
    let d: i32 = if c > 0x7fff {
        0x7fff
    } else {
        c as i32
    };
    let x: i32 = (info.cursor.x as i32) + d;
    let lim: i32 = (info.size.x as i32) - 1;
    let x: i32 = if x > lim {
        lim
    } else {
        x
    };
    Coord { x: x as i16, y: info.cursor.y }
}

/// Where the cursor lands after moving back `c` columns: same row, column
/// clamped at the buffer's first column.
pub fn cub_target(info: &ScreenInfo, c: u16) -> (t: Coord)
    requires
        screen_wf(*info),
    ensures
        t.y == info.cursor.y,
        t.x == vstd::math::max(0, info.cursor.x - clamp_arg(c)),
{
    let d: i32 = if c > 0x7fff {
        0x7fff
    } else {
        c as i32
    };
    let x: i32 = (info.cursor.x as i32) - d;
    let x: i32 = if x < 0 {
        0
    } else {
        x
    };
    Coord { x: x as i16, y: info.cursor.y }
}

/// The position an absolute 1-based cursor command addresses along one
/// axis: the relative coordinate, clamped to the visible window's extent,
/// offset by the window's origin. With the window from `origin` to `end`
/// (inclusive), argument 1 (or 0, or absent) addresses `origin`, and
/// anything past the window's far edge lands on `end`.
pub open spec fn spec_cup_axis(arg: u16, origin: i16, end: i16) -> int {
    let rel = if arg == 0 {
        0int
    } else {
        arg - 1
    };
    vstd::math::min(rel, end - origin) + origin
}

/// Where a 1-based `CUP`/`HVP` command puts the cursor: each axis clamps to
/// the visible window, then shifts by the window's origin, so that (1, 1)
/// addresses the window's top-left corner.
pub fn cup_target(info: &ScreenInfo, r: u16, c: u16) -> (t: Coord)
    requires
        screen_wf(*info),
    ensures
        t.x == spec_cup_axis(c, info.win_left, info.win_right),
        t.y == spec_cup_axis(r, info.win_top, info.win_bottom),
{
    let x0: i32 = if c == 0 {
        0
    } else {
        (c as i32) - 1
    };
    let y0: i32 = if r == 0 {
        0
    } else {
        (r as i32) - 1
    };
    let xe: i32 = (info.win_right as i32) - (info.win_left as i32);
    let ye: i32 = (info.win_bottom as i32) - (info.win_top as i32);
    let x1: i32 = if x0 > xe {
        xe
    } else {
        x0
    };
    let y1: i32 = if y0 > ye {
        ye
    } else {
        y0
    };
    Coord {
        x: (x1 + (info.win_left as i32)) as i16,
        y: (y1 + (info.win_top as i32)) as i16,
    }
}

/// A signed count of cells, floored at zero, as the fill length uses it.
pub open spec fn to_len(v: int) -> int {
    if v < 0 {
        0
    } else {
        v
    }
}

/// The cells an erase-display command fills: where the fill starts, and how
/// many cells it covers (whole lines of the buffer's width).
pub open spec fn spec_ed_region(info: ScreenInfo, n: EraseDisplay) -> (Coord, int) {
    match n {
        EraseDisplay::TopToCursor => (
            Coord { x: 0, y: info.win_top },
            to_len(info.cursor.y - info.win_top + 1) * info.size.x,
        ),
        EraseDisplay::CursorToBottom => (
            Coord { x: 0, y: info.cursor.y },
            to_len(info.win_bottom - info.cursor.y + 1) * info.size.x,
        ),
        EraseDisplay::All => (
            Coord { x: 0, y: info.win_top },
            to_len(info.win_bottom - info.win_top + 1) * info.size.x,
        ),
    }
}

/// Compute the fill region of an erase-display command.
pub fn ed_region(info: &ScreenInfo, n: EraseDisplay) -> (r: (Coord, u32))
    requires
        screen_wf(*info),
    ensures
        r.0 == spec_ed_region(*info, n).0,
        r.1 == spec_ed_region(*info, n).1,
{
    let width: u32 = info.size.x as u32;
    match n {
        EraseDisplay::TopToCursor => {
            let lines: i32 = (info.cursor.y as i32) - (info.win_top as i32) + 1;
            let lines: u32 = if lines < 0 {
                0
            } else {
                lines as u32
            };
            proof {
                assert((lines as int) * (width as int) < 0x100000000int) by (nonlinear_arith)
                    requires
                        0 <= lines as int <= 0x8000,
                        0 <= width as int <= 0x7fff,
                ;
            }
            (Coord { x: 0, y: info.win_top }, lines * width)
        },
        EraseDisplay::CursorToBottom => {
            let lines: i32 = (info.win_bottom as i32) - (info.cursor.y as i32) + 1;
            let lines: u32 = if lines < 0 {
                0
            } else {
                lines as u32
            };
            proof {
                assert((lines as int) * (width as int) < 0x100000000int) by (nonlinear_arith)
                    requires
                        0 <= lines as int <= 0x8000,
                        0 <= width as int <= 0x7fff,
                ;
            }
            (Coord { x: 0, y: info.cursor.y }, lines * width)
        },
        EraseDisplay::All => {
            let lines: i32 = (info.win_bottom as i32) - (info.win_top as i32) + 1;
            let lines: u32 = if lines < 0 {
                0
            } else {
                lines as u32
            };
            proof {
                assert((lines as int) * (width as int) < 0x100000000int) by (nonlinear_arith)
                    requires
                        0 <= lines as int <= 0x8000,
                        0 <= width as int <= 0x7fff,
                ;
            }
            (Coord { x: 0, y: info.win_top }, lines * width)
        },
    }
}

/// The cells an erase-line command fills, within the cursor's row only.
pub open spec fn spec_el_region(info: ScreenInfo, n: EraseLine) -> (Coord, int) {
    match n {
        EraseLine::StartToCursor => (
            Coord { x: 0, y: info.cursor.y },
            info.cursor.x + 1,
        ),
        EraseLine::CursorToEnd => (
            Coord { x: info.cursor.x, y: info.cursor.y },
            info.size.x - info.cursor.x,
        ),
        EraseLine::All => (Coord { x: 0, y: info.cursor.y }, info.size.x as int),
    }
}

/// Compute the fill region of an erase-line command.
pub fn el_region(info: &ScreenInfo, n: EraseLine) -> (r: (Coord, u32))
    requires
        screen_wf(*info),
    ensures
        r.0 == spec_el_region(*info, n).0,
        r.1 == spec_el_region(*info, n).1,
{
    match n {
        EraseLine::StartToCursor => (
            Coord { x: 0, y: info.cursor.y },
            (info.cursor.x as u32) + 1,
        ),
        EraseLine::CursorToEnd => (
            Coord { x: info.cursor.x, y: info.cursor.y },
            ((info.size.x as i32) - (info.cursor.x as i32)) as u32,
        ),
        EraseLine::All => (Coord { x: 0, y: info.cursor.y }, info.size.x as u32),
    }
}

/// The 1-based row a cursor-position report carries: the cursor's offset
/// from the window's top, floored at zero.
pub open spec fn dsr_row(info: ScreenInfo) -> u16 {
    (to_len(info.cursor.y - info.win_top) + 1) as u16
}

/// The 1-based column a cursor-position report carries.
pub open spec fn dsr_col(info: ScreenInfo) -> u16 {
    (to_len(info.cursor.x - info.win_left) + 1) as u16
}

/// The bytes of the cursor-position report a `DSR` request answers with:
/// `ESC [ row ; col R`, decimal, 1-based, no leading zeros.
pub fn dsr_reply(info: &ScreenInfo) -> (r: Vec<u8>)
    requires
        screen_wf(*info),
    ensures
        r@ == seq![ESC, 0x5bu8] + dec_bytes(dsr_row(*info) as nat) + seq![0x3bu8] + dec_bytes(
            dsr_col(*info) as nat,
        ) + seq![0x52u8],
{
    let ry: i32 = (info.cursor.y as i32) - (info.win_top as i32);
    let ry: u16 = if ry < 0 {
        0
    } else {
        ry as u16
    };
    let rx: i32 = (info.cursor.x as i32) - (info.win_left as i32);
    let rx: u16 = if rx < 0 {
        0
    } else {
        rx as u16
    };
    let mut out: Vec<u8> = Vec::new();
    out.push(ESC);
    out.push(0x5b);
    push_u16_dec(&mut out, ry + 1);
    out.push(0x3b);
    push_u16_dec(&mut out, rx + 1);
    out.push(0x52);
    proof {
        assert(out@ =~= seq![ESC, 0x5bu8] + dec_bytes(dsr_row(*info) as nat) + seq![0x3bu8]
            + dec_bytes(dsr_col(*info) as nat) + seq![0x52u8]);
    }
    out
}

/// Which standard stream a native handle request names.
#[derive(Copy, Clone, PartialEq, Eq, Structural, Debug, Hash)]
pub enum StdHandle {
    Input,
    Output,
    Error,
}

impl StdHandle {
    /// The identifier the host's standard-handle lookup takes for this
    /// stream: the documented values are the two's-complement encodings of
    /// -10, -11 and -12.
    pub fn into_handle(self) -> (r: u32)
        ensures
            r == (match self {
                StdHandle::Input => 0xffff_fff6u32,
                StdHandle::Output => 0xffff_fff5u32,
                StdHandle::Error => 0xffff_fff4u32,
            }),
    {
        match self {
            StdHandle::Input => 0xffff_fff6,
            StdHandle::Output => 0xffff_fff5,
            StdHandle::Error => 0xffff_fff4,
        }
    }
}

} // verus!
