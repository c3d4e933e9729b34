//! The data model: an immutable snapshot of one window's state, the
//! cardinal directions, and the hexadecimal identifier token handed to
//! an external focus helper.

use vstd::prelude::*;
use vstd::string::StrSliceExecFns;
use crate::geometry::Rect;

verus! {

/// One window's state, read once from the window manager at the start
/// of a focus-change operation and never mutated afterwards.
#[derive(Clone, Copy, PartialEq, Eq, Structural, Debug)]
pub struct WindowSnapshot {
    /// Unique window identifier.
    pub id: u32,
    /// Index of the virtual desktop the window belongs to.
    pub desktop: u32,
    /// The window is flagged as present on every desktop.
    pub sticky: bool,
    /// The window carries the Hidden state flag.
    pub hidden: bool,
    /// The window is mapped and currently rendered on screen.
    pub viewable: bool,
    /// The window's visual footprint in screen coordinates.
    pub rect: Rect,
}

/// A window counts as present on a desktop when it belongs to it, or
/// when it is sticky and therefore present on every desktop.
pub open spec fn on_desktop(w: WindowSnapshot, desktop: u32) -> bool {
    w.desktop == desktop || w.sticky
}

/// Whether `w` is present on `desktop`, counting sticky windows as
/// present everywhere.
pub fn window_is_in_desktop(w: &WindowSnapshot, desktop: u32) -> (r: bool)
    ensures
        r == on_desktop(*w, desktop),
{
    w.desktop == desktop || w.sticky
}

/// A cardinal direction of focus movement.
#[derive(Clone, Copy, PartialEq, Eq, Structural, Debug)]
pub enum Direction {
    Left,
    Right,
    Up,
    Down,
}

/// The direction a textual token names, or `None` for any token that
/// is not exactly one of the four recognized literals.
pub open spec fn parse_direction_spec(s: Seq<char>) -> Option<Direction> {
    if s == "left"@ {
        Some(Direction::Left)
    } else if s == "right"@ {
        Some(Direction::Right)
    } else if s == "up"@ {
        Some(Direction::Up)
    } else if s == "down"@ {
        Some(Direction::Down)
    } else {
        None
    }
}

/// Character-for-character string equality.
fn str_eq(a: &str, b: &str) -> (r: bool)
    ensures
        r == (a@ == b@),
{
    let alen = a.unicode_len();
    let blen = b.unicode_len();
    if alen != blen {
        return false;
    }
    let mut i: usize = 0;
    while i < alen
        invariant
            alen == a@.len(),
            blen == b@.len(),
            alen == blen,
            0 <= i <= alen,
            forall|j: int| 0 <= j < i ==> a@[j] == b@[j],
        decreases alen - i,
    {
        if a.get_char(i) != b.get_char(i) {
            return false;
        }
        i += 1;
    }
    proof {
        assert(a@ =~= b@);
    }
    true
}

impl Direction {
    /// Parses a direction token: exactly one of `left`, `right`, `up`,
    /// `down`, case-sensitive.  Any other token is rejected with
    /// `None`; parsing never aborts.
    pub fn parse(s: &str) -> (r: Option<Direction>)
        ensures
            r == parse_direction_spec(s@),
    {
        if str_eq(s, "left") {
            Some(Direction::Left)
        } else if str_eq(s, "right") {
            Some(Direction::Right)
        } else if str_eq(s, "up") {
            Some(Direction::Up)
        } else if str_eq(s, "down") {
            Some(Direction::Down)
        } else {
            None
        }
    }
}

/// The ASCII byte for one hexadecimal digit, lower case.
pub open spec fn hex_digit(d: int) -> u8 {
    if d < 10 {
        (0x30 + d) as u8
    } else {
        (0x57 + d) as u8
    }
}

/// Hexadecimal digits of `v`, most significant first, no leading
/// zeros (the value zero is the single digit `0`).
pub open spec fn hex_bytes(v: nat) -> Seq<u8>
    decreases v,
{
    if v < 16 {
        seq![hex_digit(v as int)]
    } else {
        hex_bytes(v / 16).push(hex_digit((v % 16) as int))
    }
}

/// The token an external focus helper accepts for a window: `0x`
/// followed by the identifier's hexadecimal digits.
pub open spec fn focus_token_spec(id: u32) -> Seq<u8> {
    seq![0x30u8, 0x78u8] + hex_bytes(id as nat)
}

/// One hexadecimal digit as its ASCII byte.
fn hex_digit_byte(d: u32) -> (r: u8)
    requires
        d < 16,
    ensures
        r == hex_digit(d as int),
{
    if d < 10 {
        (0x30 + d) as u8
    } else {
        (0x57 + d) as u8
    }
}

/// Appends the hexadecimal digits of `v` to `out`, most significant
/// first.
fn push_hex(v: u32, out: &mut Vec<u8>)
    ensures
        final(out)@ == old(out)@ + hex_bytes(v as nat),
    decreases v,
{
    if v < 16 {
        out.push(hex_digit_byte(v));
    } else {
        push_hex(v / 16, out);
        let d = v % 16;
        out.push(hex_digit_byte(d));
        proof {
            assert(out@ =~= old(out)@ + hex_bytes(v as nat));
        }
    }
}

/// ASCII bytes of the focus-helper token for a window identifier:
/// `0x` followed by the identifier in lower-case hexadecimal.
pub fn focus_token(id: u32) -> (r: Vec<u8>)
    ensures
        r@ == focus_token_spec(id),
{
    let mut out: Vec<u8> = Vec::new();
    out.push(0x30);
    out.push(0x78);
    push_hex(id, &mut out);
    proof {
        assert(out@ =~= focus_token_spec(id));
    }
    out
}

} // verus!
