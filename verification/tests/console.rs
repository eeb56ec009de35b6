//! Tests of the console-backend computations: attribute bits, cursor
//! targets, erase regions, and the cursor-position report.

use ansi_interpreter::console::cub_target;
use ansi_interpreter::console::cud_target;
use ansi_interpreter::console::cuf_target;
use ansi_interpreter::console::cup_target;
use ansi_interpreter::console::cuu_target;
use ansi_interpreter::console::dsr_reply;
use ansi_interpreter::console::ed_region;
use ansi_interpreter::console::el_region;
use ansi_interpreter::console::sgr_apply;
use ansi_interpreter::console::sgr_apply_all;
use ansi_interpreter::console::sgr_color_to_bg;
use ansi_interpreter::console::sgr_color_to_fg;
use ansi_interpreter::console::Coord;
use ansi_interpreter::console::ScreenInfo;
use ansi_interpreter::console::StdHandle;
use ansi_interpreter::console::BACKGROUND_BLUE;
use ansi_interpreter::console::BACKGROUND_GREEN;
use ansi_interpreter::console::BACKGROUND_INTENSITY;
use ansi_interpreter::console::BACKGROUND_RED;
use ansi_interpreter::console::BACKGROUND_SHIFT;
use ansi_interpreter::console::FOREGROUND_BLUE;
use ansi_interpreter::console::FOREGROUND_GREEN;
use ansi_interpreter::console::FOREGROUND_INTENSITY;
use ansi_interpreter::console::FOREGROUND_RED;
use ansi_interpreter::console::FOREGROUND_SHIFT;
use ansi_interpreter::console::FOREGROUND_WHITE;
use ansi_interpreter::dispatch::EraseDisplay;
use ansi_interpreter::dispatch::EraseLine;

#[test]
fn test_winapi_consts() {
    assert_eq!(1 << FOREGROUND_SHIFT, FOREGROUND_BLUE);
    assert_eq!(2 << FOREGROUND_SHIFT, FOREGROUND_GREEN);
    assert_eq!(4 << FOREGROUND_SHIFT, FOREGROUND_RED);

    assert_eq!(1 << BACKGROUND_SHIFT, BACKGROUND_BLUE);
    assert_eq!(2 << BACKGROUND_SHIFT, BACKGROUND_GREEN);
    assert_eq!(4 << BACKGROUND_SHIFT, BACKGROUND_RED);
}

fn sample() -> ScreenInfo {
    ScreenInfo {
        size: Coord { x: 80, y: 300 },
        cursor: Coord { x: 10, y: 120 },
        attributes: 7,
        win_left: 0,
        win_top: 100,
        win_right: 79,
        win_bottom: 124,
    }
}

#[test]
fn sgr_color_bits() {
    // 31 is red only, 34 blue only, 37 all three, 91 red with intensity
    assert_eq!(sgr_color_to_fg(31), Some(FOREGROUND_RED));
    assert_eq!(sgr_color_to_fg(34), Some(FOREGROUND_BLUE));
    assert_eq!(sgr_color_to_fg(37), Some(FOREGROUND_RED | FOREGROUND_GREEN | FOREGROUND_BLUE));
    assert_eq!(sgr_color_to_fg(91), Some(FOREGROUND_RED | FOREGROUND_INTENSITY));
    assert_eq!(sgr_color_to_fg(39), Some(0));
    assert_eq!(sgr_color_to_fg(38), None);
    assert_eq!(sgr_color_to_bg(41), Some(BACKGROUND_RED));
    assert_eq!(sgr_color_to_bg(44), Some(BACKGROUND_BLUE));
    assert_eq!(sgr_color_to_bg(104), Some(BACKGROUND_BLUE | BACKGROUND_INTENSITY));
    assert_eq!(sgr_color_to_bg(49), Some(0));
    assert_eq!(sgr_color_to_bg(50), None);
}

#[test]
fn sgr_attribute_word() {
    // foreground changes keep the background and the intensity
    assert_eq!(sgr_apply(0x0087, 31), 0x0084);
    // bold sets the intensity bit, 22 clears it
    assert_eq!(sgr_apply(0x0007, 1), 0x000f);
    assert_eq!(sgr_apply(0x000f, 22), 0x0007);
    // reset clears the whole color byte and restores white on black
    assert_eq!(sgr_apply(0x00f4, 0), FOREGROUND_WHITE);
    // the default background is black: 49 clears the background bits
    assert_eq!(sgr_apply(0x00f7, 49), FOREGROUND_WHITE);
    // unknown codes change nothing
    assert_eq!(sgr_apply(0x0007, 6), 0x0007);
    // a list applies left to right
    assert_eq!(sgr_apply_all(0x0007, &[0, 1, 34]), FOREGROUND_BLUE | FOREGROUND_INTENSITY);
}

#[test]
fn cursor_targets_clamp() {
    let info = sample();
    assert_eq!(cuu_target(&info, 20), Coord { x: 10, y: 100 });
    assert_eq!(cuu_target(&info, 200), Coord { x: 10, y: 0 });
    assert_eq!(cud_target(&info, 5), Coord { x: 10, y: 125 });
    assert_eq!(cud_target(&info, 50000), Coord { x: 10, y: 299 });
    assert_eq!(cuf_target(&info, 3), Coord { x: 13, y: 120 });
    assert_eq!(cuf_target(&info, 500), Coord { x: 79, y: 120 });
    assert_eq!(cub_target(&info, 4), Coord { x: 6, y: 120 });
    assert_eq!(cub_target(&info, 40), Coord { x: 0, y: 120 });
    // 1-based absolute positioning lands relative to the window origin
    assert_eq!(cup_target(&info, 4, 12), Coord { x: 11, y: 103 });
    // argument 0 addresses the window origin too
    assert_eq!(cup_target(&info, 0, 0), Coord { x: 0, y: 100 });
    // arguments past the window clamp to its far edge, not to the buffer
    assert_eq!(cup_target(&info, 250, 200), Coord { x: 79, y: 124 });
}

#[test]
fn erase_regions() {
    let info = sample();
    assert_eq!(
        ed_region(&info, EraseDisplay::TopToCursor),
        (Coord { x: 0, y: 100 }, 21 * 80)
    );
    assert_eq!(
        ed_region(&info, EraseDisplay::CursorToBottom),
        (Coord { x: 0, y: 120 }, 5 * 80)
    );
    assert_eq!(ed_region(&info, EraseDisplay::All), (Coord { x: 0, y: 100 }, 25 * 80));
    assert_eq!(el_region(&info, EraseLine::StartToCursor), (Coord { x: 0, y: 120 }, 11));
    assert_eq!(el_region(&info, EraseLine::CursorToEnd), (Coord { x: 10, y: 120 }, 70));
    assert_eq!(el_region(&info, EraseLine::All), (Coord { x: 0, y: 120 }, 80));
}

#[test]
fn dsr_reply_bytes() {
    let info = sample();
    // row 21, column 11, both 1-based within the window
    assert_eq!(dsr_reply(&info), b"\x1b[21;11R".to_vec());
}

#[test]
fn std_handle_codes() {
    assert_eq!(StdHandle::Input.into_handle(), (-10i32) as u32);
    assert_eq!(StdHandle::Output.into_handle(), (-11i32) as u32);
    assert_eq!(StdHandle::Error.into_handle(), (-12i32) as u32);
}
