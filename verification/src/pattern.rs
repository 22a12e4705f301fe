//! Synthetic test frames: a frame of a given size filled with one of a few
//! fixed patterns, for checking a display by eye.

use vstd::prelude::*;
use vstd::arithmetic::div_mod::lemma_fundamental_div_mod_converse;
use crate::text::{chars_of, same_text};
use crate::validate::all_hex;

verus! {

/// The patterns that a test frame can show.
#[derive(Clone, Copy, Debug, PartialEq, Eq, Structural)]
pub enum Pattern {
    /// Levels rise from left to right.
    Gradient,
    /// Levels rise from top to bottom.
    Vertical,
    /// Cells alternate between the highest and the lowest level.
    Checkerboard,
    /// Levels run through all sixteen values along each row and column.
    Rainbow,
    /// Levels are spread over the cells without a visible order.
    Scatter,
}

impl Pattern {
    /// The pattern that `s` names; any text but the four names means
    /// [`Pattern::Scatter`].
    pub open spec fn named(s: Seq<char>) -> Pattern {
        if s == "gradient"@ {
            Pattern::Gradient
        } else if s == "vertical"@ {
            Pattern::Vertical
        } else if s == "checkerboard"@ {
            Pattern::Checkerboard
        } else if s == "rainbow"@ {
            Pattern::Rainbow
        } else {
            Pattern::Scatter
        }
    }

    /// The colour level, from 0 to 15, of the cell in column `x` and row `y`
    /// of a frame `width` cells wide and `height` cells high.
    pub open spec fn level(self, width: int, height: int, x: int, y: int) -> int {
        match self {
            Pattern::Gradient => 15 * x / width,
            Pattern::Vertical => 15 * y / height,
            Pattern::Checkerboard => if (x + y) % 2 == 0 {
                15
            } else {
                0
            },
            Pattern::Rainbow => (x + y) % 16,
            Pattern::Scatter => (7 * x + 13 * y) % 16,
        }
    }

    /// Reads a pattern from its name.
    pub fn parse(s: &str) -> (p: Pattern)
        ensures
            p == Pattern::named(s@),
    {
        let text = chars_of(s);
        if same_text(text.as_slice(), chars_of("gradient").as_slice()) {
            Pattern::Gradient
        } else if same_text(text.as_slice(), chars_of("vertical").as_slice()) {
            Pattern::Vertical
        } else if same_text(text.as_slice(), chars_of("checkerboard").as_slice()) {
            Pattern::Checkerboard
        } else if same_text(text.as_slice(), chars_of("rainbow").as_slice()) {
            Pattern::Rainbow
        } else {
            Pattern::Scatter
        }
    }

    /// The colour level of the cell in column `x` and row `y`.
    pub fn level_at(self, width: usize, height: usize, x: usize, y: usize) -> (level: u8)
        requires
            x < width,
            y < height,
        ensures
            level == self.level(width as int, height as int, x as int, y as int),
            level < 16,
    {
        match self {
            Pattern::Gradient => fifteenths(x, width),
            Pattern::Vertical => fifteenths(y, height),
            Pattern::Checkerboard => {
                if (x % 2 + y % 2) % 2 == 0 {
                    15
                } else {
                    0
                }
            },
            Pattern::Rainbow => weighted_residue(1, x, 1, y),
            Pattern::Scatter => weighted_residue(7, x, 13, y),
        }
    }
}

/// How many fifteenths of the way from 0 to `span` the position `at` lies,
/// rounded down.
fn fifteenths(at: usize, span: usize) -> (level: u8)
    requires
        at < span,
    ensures
        level == 15 * (at as int) / (span as int),
        level < 15,
{
    let wide: u128 = 15 * (at as u128) / (span as u128);
    assert(wide < 15) by (nonlinear_arith)
        requires
            wide == 15 * (at as int) / (span as int),
            0 <= at < span,
    ;
    wide as u8
}

/// The remainder of `a * x + b * y` on division by 16.
fn weighted_residue(a: u8, x: usize, b: u8, y: usize) -> (level: u8)
    requires
        a < 16,
        b < 16,
    ensures
        level == (a * x + b * y) % 16,
        level < 16,
{
    let xr: usize = x % 16;
    let yr: usize = y % 16;
    assert(a * xr <= 225 && b * yr <= 225) by (nonlinear_arith)
        requires
            a < 16,
            b < 16,
            xr < 16,
            yr < 16,
    ;
    let ax: usize = (a as usize) * xr;
    let by: usize = (b as usize) * yr;
    proof {
        lemma_residue(a as int, x as int, b as int, y as int);
    }
    ((ax + by) % 16) as u8
}

/// Reducing `x` and `y` modulo 16 first does not change the remainder of
/// `a * x + b * y`.
proof fn lemma_residue(a: int, x: int, b: int, y: int)
    requires
        0 <= x,
        0 <= y,
    ensures
        (a * (x % 16) + b * (y % 16)) % 16 == (a * x + b * y) % 16,
{
    let xq = x / 16;
    let yq = y / 16;
    assert(x == 16 * xq + x % 16);
    assert(y == 16 * yq + y % 16);
    assert(a * x + b * y == 16 * (a * xq + b * yq) + (a * (x % 16) + b * (y % 16)))
        by (nonlinear_arith)
        requires
            x == 16 * xq + x % 16,
            y == 16 * yq + y % 16,
    ;
    vstd::arithmetic::div_mod::lemma_mod_multiples_vanish(
        a * xq + b * yq,
        a * (x % 16) + b * (y % 16),
        16,
    );
}

/// The hexadecimal digit, in lower case, of a level from 0 to 15.
pub open spec fn hex_char(level: int) -> char {
    if level == 0 {
        '0'
    } else if level == 1 {
        '1'
    } else if level == 2 {
        '2'
    } else if level == 3 {
        '3'
    } else if level == 4 {
        '4'
    } else if level == 5 {
        '5'
    } else if level == 6 {
        '6'
    } else if level == 7 {
        '7'
    } else if level == 8 {
        '8'
    } else if level == 9 {
        '9'
    } else if level == 10 {
        'a'
    } else if level == 11 {
        'b'
    } else if level == 12 {
        'c'
    } else if level == 13 {
        'd'
    } else if level == 14 {
        'e'
    } else {
        'f'
    }
}

/// The test frame of the given size and pattern: its cells row by row, each
/// as the hexadecimal digit of its level.
pub open spec fn test_frame(width: nat, height: nat, pattern: Pattern) -> Seq<char> {
    Seq::new(
        width * height,
        |k: int|
            hex_char(pattern.level(width as int, height as int, k % (width as int), k / (width as int))),
    )
}

/// The hexadecimal digit, in lower case, of a level from 0 to 15.
pub fn hex_char_of(level: u8) -> (c: char)
    requires
        level < 16,
    ensures
        c == hex_char(level as int),
{
    match level {
        0 => '0',
        1 => '1',
        2 => '2',
        3 => '3',
        4 => '4',
        5 => '5',
        6 => '6',
        7 => '7',
        8 => '8',
        9 => '9',
        10 => 'a',
        11 => 'b',
        12 => 'c',
        13 => 'd',
        14 => 'e',
        _ => 'f',
    }
}

/// A frame of `width` by `height` cells that shows the pattern named by
/// `pattern`; a name that is none of `gradient`, `vertical`, `checkerboard`
/// and `rainbow` gives the scattered pattern. Every character of the frame
/// is a hexadecimal digit.
pub fn generate_test_frame(width: usize, height: usize, pattern: &str) -> (frame: String)
    requires
        width * height <= usize::MAX,
    ensures
        frame@ == test_frame(width as nat, height as nat, Pattern::named(pattern@)),
        frame@.len() == width * height,
        all_hex(frame@),
{
    let chosen = Pattern::parse(pattern);
    let ghost goal = test_frame(width as nat, height as nat, chosen);
    let mut frame = String::new();
    let mut y: usize = 0;
    while y < height
        invariant
            y <= height,
            width * height <= usize::MAX,
            goal == test_frame(width as nat, height as nat, chosen),
            frame@ == goal.subrange(0, y * width),
        decreases height - y,
    {
        proof {
            lemma_rows_fit(width as int, height as int, y as int);
        }
        let mut x: usize = 0;
        while x < width
            invariant
                x <= width,
                y < height,
                width * height <= usize::MAX,
                (y + 1) * width <= width * height,
                goal == test_frame(width as nat, height as nat, chosen),
                frame@ == goal.subrange(0, y * width + x),
            decreases width - x,
        {
            let level = chosen.level_at(width, height, x, y);
            proof {
                let k = y * width + x;
                assert(k < (y + 1) * width) by (nonlinear_arith)
                    requires
                        k == y * width + x,
                        x < width,
                ;
                lemma_fundamental_div_mod_converse(k, width as int, y as int, x as int);
                assert(goal[k] == hex_char(level as int));
                assert(goal.subrange(0, k + 1) == goal.subrange(0, k).push(goal[k]));
            }
            frame.push(hex_char_of(level));
            x += 1;
        }
        assert(y * width + width == (y + 1) * width) by (nonlinear_arith);
        y += 1;
    }
    proof {
        assert(height * width == width * height) by (nonlinear_arith);
        assert(goal.subrange(0, goal.len() as int) == goal);
        assert forall|k: int| 0 <= k < goal.len() implies crate::validate::is_hex_digit(
            #[trigger] goal[k],
        ) by {}
    }
    frame
}

/// The rows up to and including row `y` lie inside the frame.
proof fn lemma_rows_fit(width: int, height: int, y: int)
    requires
        0 <= y < height,
        0 <= width,
    ensures
        (y + 1) * width <= width * height,
        0 <= y * width,
{
    assert((y + 1) * width <= height * width) by (nonlinear_arith)
        requires
            y + 1 <= height,
            0 <= width,
    ;
    assert(height * width == width * height) by (nonlinear_arith);
    assert(0 <= y * width) by (nonlinear_arith)
        requires
            0 <= y,
            0 <= width,
    ;
}

} // verus!
