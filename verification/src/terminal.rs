//! The verified core of the terminal layer: cursor-target arithmetic,
//! width-aware padding for status lines, and resize detection over cached
//! cell dimensions. The surrounding process owns the physical screen and
//! feeds this core the measured terminal size.
use vstd::prelude::*;

use crate::Position;
use crate::util::Exp;
use crate::util::display_width;
use crate::util::push_char;
use crate::util::str_width;
use crate::util::strip_csi;

verus! {

/// The padding needed to fill `width` columns once `used` of them are
/// taken: saturating, never negative.
pub open spec fn padding_spec(width: int, used: int) -> int {
    if used >= width {
        0
    } else {
        width - used
    }
}

/// A run of `n` spaces.
pub open spec fn spaces_spec(n: int) -> Seq<char> {
    Seq::new(n as nat, |i| ' ')
}

/// Build a run of `n` spaces.
fn spaces(n: usize) -> (r: String)
    ensures
        r@ == spaces_spec(n as int),
{
    let mut r = String::new();
    let mut i: usize = 0;
    while i < n
        invariant
            i <= n,
            r@ == spaces_spec(i as int),
        decreases n - i,
    {
        push_char(&mut r, ' ');
        assert(spaces_spec(i as int).push(' ') =~= spaces_spec(i + 1));
        i += 1;
    }
    r
}

/// The state of the terminal surface that the core reasons about: the
/// cached cell dimensions and the pattern set for width measurement. The
/// alternate-screen and raw-mode handles live with the caller that owns
/// the physical terminal.
pub struct Terminal {
    pub width: u16,
    pub height: u16,
    pub exp: Exp,
}

impl Terminal {
    /// A terminal core for a surface measured as `width` by `height`
    /// character cells.
    pub fn new(width: u16, height: u16) -> (r: Self)
        ensures
            r.width == width,
            r.height == height,
    {
        Self { width, height, exp: Exp::new() }
    }

    /// The 1-based cursor cell, column then row, that a document position
    /// addresses: each coordinate saturates at the protocol's maximum
    /// rather than wrapping, so the cursor never addresses column or
    /// row 0.
    pub fn goto(&self, p: &Position) -> (r: (u16, u16))
        ensures
            r.0 == if p.x + 1 <= u16::MAX {
                p.x + 1
            } else {
                u16::MAX as int
            },
            r.1 == if p.y + 1 <= u16::MAX {
                p.y + 1
            } else {
                u16::MAX as int
            },
            r.0 >= 1,
            r.1 >= 1,
    {
        let x: u16 = if p.x >= u16::MAX as usize {
            u16::MAX
        } else {
            (p.x as u16) + 1
        };
        let y: u16 = if p.y >= u16::MAX as usize {
            u16::MAX
        } else {
            (p.y as u16) + 1
        };
        (x, y)
    }

    /// The run of padding spaces that puts `l` at column 0 and `r` flush
    /// with the last column, measured by display width; empty when the
    /// two together exceed the terminal width.
    pub fn align_break(&self, l: &str, r: &str) -> (pad: String)
        ensures
            pad@ == spaces_spec(
                padding_spec(self.width as int, str_width(l@) + str_width(r@)),
            ),
    {
        let left_length = display_width(l);
        let right_length = display_width(r);
        let width = self.width as usize;
        let padding: usize = if right_length > width || left_length > width - right_length {
            0
        } else {
            width - right_length - left_length
        };
        spaces(padding)
    }

    /// The run of padding spaces that right-pads `text` to the full
    /// terminal width, where the text's effective length ignores embedded
    /// ANSI escape sequences, so coloured status text still aligns.
    pub fn align_left(&self, text: &str) -> (pad: String)
        ensures
            pad@ == spaces_spec(
                padding_spec(self.width as int, str_width(strip_csi(text@, 0)) as int),
            ),
    {
        let length = self.exp.ansi_len(text);
        let width = self.width as usize;
        let padding: usize = if length > width {
            0
        } else {
            width - length
        };
        spaces(padding)
    }

    /// Take a freshly measured terminal size: updates the cached
    /// dimensions and reports whether they differed from the cache.
    pub fn check_resize(&mut self, width: u16, height: u16) -> (changed: bool)
        ensures
            final(self).width == width,
            final(self).height == height,
            changed == !(old(self).width == width && old(self).height == height),
    {
        if width == self.width && height == self.height {
            false
        } else {
            self.width = width;
            self.height = height;
            true
        }
    }
}

} // verus!
