//! The text and choices shown by the debug panels beside the display.
//!
//! Drawing the panels is done by the caller; what they show is computed
//! here.

use vstd::prelude::*;
use crate::input::keep_last;
use crate::text::string_views;
use crate::text::push_char;

pub mod info_panel;
pub mod left_panel;

verus! {

/// The CPU status line: "Halted" wins over "Running", which wins over
/// "Paused".
pub open spec fn status_text_spec(is_halted: bool, is_running: bool) -> Seq<char> {
    if is_halted {
        "Halted"@
    } else if is_running {
        "Running"@
    } else {
        "Paused"@
    }
}

/// The CPU status word shown in the info panel.
pub fn status_text(is_halted: bool, is_running: bool) -> (s: String)
    ensures
        s@ == status_text_spec(is_halted, is_running),
{
    if is_halted {
        String::from_str("Halted")
    } else if is_running {
        String::from_str("Running")
    } else {
        String::from_str("Paused")
    }
}

/// The colour (red, green, blue) of the status line: red when halted,
/// green when running, yellow when paused.
pub open spec fn status_color_spec(is_halted: bool, is_running: bool) -> (u8, u8, u8) {
    if is_halted {
        (255, 100, 100)
    } else if is_running {
        (100, 255, 100)
    } else {
        (200, 200, 100)
    }
}

/// The colour of the status line.
pub fn status_color(is_halted: bool, is_running: bool) -> (c: (u8, u8, u8))
    ensures
        c == status_color_spec(is_halted, is_running),
{
    if is_halted {
        (255, 100, 100)
    } else if is_running {
        (100, 255, 100)
    } else {
        (200, 200, 100)
    }
}

/// The last `max` lines of a log (all of it when it is shorter), oldest
/// first.
pub fn visible_tail(lines: &Vec<String>, max: usize) -> (tail: Vec<String>)
    ensures
        string_views(tail@) == keep_last(string_views(lines@), max as nat),
{
    let len = lines.len();
    let start: usize = if len > max {
        len - max
    } else {
        0
    };
    let mut out: Vec<String> = Vec::new();
    let mut i: usize = start;
    while i < len
        invariant
            len == lines@.len(),
            start <= i <= len,
            string_views(out@) == string_views(lines@).subrange(start as int, i as int),
        decreases len - i,
    {
        let line = lines[i].clone();
        let ghost before = out@;
        out.push(line);
        assert(string_views(out@) =~= string_views(before).push(line@));
        assert(string_views(out@) =~= string_views(lines@).subrange(start as int, i + 1));
        i = i + 1;
    }
    assert(string_views(lines@).subrange(0, len as int) =~= string_views(lines@));
    out
}

/// The character of a hexadecimal digit (upper case).
pub open spec fn hex_char(d: nat) -> char {
    if d < 10 {
        crate::text::digit_char(d)
    } else if d == 10 {
        'A'
    } else if d == 11 {
        'B'
    } else if d == 12 {
        'C'
    } else if d == 13 {
        'D'
    } else if d == 14 {
        'E'
    } else {
        'F'
    }
}

/// Hexadecimal digit `i` of `v`, counting from the most significant of
/// eight.
pub open spec fn nibble(v: u32, i: int) -> nat {
    ((v >> ((28 - 4 * i) as u32)) & 0xFu32) as nat
}

/// `v` as "0x" and eight upper-case hexadecimal digits.
pub open spec fn hex32_text(v: u32) -> Seq<char> {
    seq!['0', 'x'] + Seq::new(8, |i: int| hex_char(nibble(v, i)))
}

fn hex_digit_to_char(d: u32) -> (c: char)
    requires
        d < 16,
    ensures
        c == hex_char(d as nat),
{
    if d < 10 {
        crate::text::digit_to_char(d as u64)
    } else if d == 10 {
        'A'
    } else if d == 11 {
        'B'
    } else if d == 12 {
        'C'
    } else if d == 13 {
        'D'
    } else if d == 14 {
        'E'
    } else {
        'F'
    }
}

/// `v` as "0x" and eight upper-case hexadecimal digits (as registers and
/// the program counter are shown).
pub fn format_hex32(v: u32) -> (s: String)
    ensures
        s@ == hex32_text(v),
{
    let mut s = String::from_str("0x");
    proof {
        reveal_strlit("0x");
    }
    let mut i: u32 = 0;
    while i < 8
        invariant
            i <= 8,
            s@ == seq!['0', 'x'] + Seq::new(i as nat, |j: int| hex_char(nibble(v, j))),
        decreases 8 - i,
    {
        let shift: u32 = 28 - 4 * i;
        let d: u32 = (v >> shift) & 0xFu32;
        assert(((v >> shift) & 0xFu32) < 16) by (bit_vector);
        let c = hex_digit_to_char(d);
        push_char(&mut s, c);
        assert(s@ =~= seq!['0', 'x'] + Seq::new((i + 1) as nat, |j: int| hex_char(nibble(v, j))));
        i = i + 1;
    }
    s
}

/// A halted CPU is shown as "Halted" in red whether or not the emulator is
/// paused; a CPU that is not halted is "Running" in green while the
/// emulator runs and "Paused" in yellow otherwise. The colour always
/// follows the word.
pub proof fn law_status_shown(is_running: bool)
    ensures
        status_text_spec(true, is_running) == "Halted"@,
        status_color_spec(true, is_running) == (255u8, 100u8, 100u8),
        status_text_spec(false, true) == "Running"@,
        status_color_spec(false, true) == (100u8, 255u8, 100u8),
        status_text_spec(false, false) == "Paused"@,
        status_color_spec(false, false) == (200u8, 200u8, 100u8),
{
}

/// The sixteen hexadecimal digits, in order of value.
pub open spec fn hex_digit_table() -> Seq<char> {
    seq!['0', '1', '2', '3', '4', '5', '6', '7', '8', '9', 'A', 'B', 'C', 'D', 'E', 'F']
}

/// Digit `d` is written as the `d`-th of 0-9, A-F, so no two digit values
/// share a character.
pub proof fn law_hex_char_table(d: nat, e: nat)
    requires
        d < 16,
        e < 16,
    ensures
        hex_char(d) == hex_digit_table()[d as int],
        d != e ==> hex_char(d) != hex_char(e),
{
}

/// `format_hex32(v)` is "0x" and eight upper-case hexadecimal digits, most
/// significant first, and the digits put back in place give `v` again.
pub proof fn law_hex32_round_trip(v: u32)
    ensures
        hex32_text(v).len() == 10,
        hex32_text(v)[0] == '0',
        hex32_text(v)[1] == 'x',
        forall|i: int| 0 <= i < 8 ==> #[trigger] nibble(v, i) < 16,
        forall|i: int| 0 <= i < 8 ==> #[trigger] hex32_text(v)[2 + i] == hex_digit_table()[nibble(v, i) as int],
        v == (nibble(v, 0) as u32) << 28u32 | (nibble(v, 1) as u32) << 24u32 | (nibble(v, 2) as u32) << 20u32
            | (nibble(v, 3) as u32) << 16u32 | (nibble(v, 4) as u32) << 12u32 | (nibble(v, 5) as u32) << 8u32
            | (nibble(v, 6) as u32) << 4u32 | (nibble(v, 7) as u32),
{
    assert forall|i: int| 0 <= i < 8 implies #[trigger] nibble(v, i) < 16 by {
        let sh = (28 - 4 * i) as u32;
        assert(((v >> sh) & 0xFu32) < 16) by (bit_vector);
    }
    assert forall|i: int| 0 <= i < 8 implies #[trigger] hex32_text(v)[2 + i] == hex_digit_table()[nibble(v, i) as int] by {
        law_hex_char_table(nibble(v, i), 0);
    }
    assert(v == ((v >> 28u32) & 0xFu32) << 28u32 | ((v >> 24u32) & 0xFu32) << 24u32 | ((v >> 20u32) & 0xFu32) << 20u32
        | ((v >> 16u32) & 0xFu32) << 16u32 | ((v >> 12u32) & 0xFu32) << 12u32 | ((v >> 8u32) & 0xFu32) << 8u32
        | ((v >> 4u32) & 0xFu32) << 4u32 | ((v >> 0u32) & 0xFu32)) by (bit_vector);
}

} // verus!
