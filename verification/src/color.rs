use vstd::prelude::*;
use vstd::string::StrSliceExecFns;

use crate::canvas::Canvas;
use crate::canvas::Rgb;

verus! {

/// The fallback color used whenever no valid color specification is at hand.
pub open spec fn white() -> Rgb {
    Rgb { r: 255, g: 255, b: 255 }
}

/// How a color specification was resolved, for the caller to report.
/// Only `Valid` and `Missing` describe an intended path; the others name
/// a defect of the specification, which is resolved to white.
#[derive(Clone, Copy, Debug, PartialEq, Eq, Structural)]
pub enum ColorNote {
    /// The string parsed as a hex color.
    Valid,
    /// No string was given at all.
    Missing,
    /// The string was empty.
    Empty,
    /// After an optional leading `#`, the string was neither 3 nor 6
    /// characters long.
    BadLength,
    /// A character among the digit groups was no hex digit.
    IllegalChar,
}

/// The value of a hex digit, or `None` for any other character.
pub open spec fn spec_hex_val(c: char) -> Option<u8> {
    let u = c as u32;
    if 48 <= u && u <= 57 {
        Some((u - 48) as u8)
    } else if 97 <= u && u <= 102 {
        Some((u - 87) as u8)
    } else if 65 <= u && u <= 70 {
        Some((u - 55) as u8)
    } else {
        None
    }
}

/// The string with a single leading `#` removed, if one is there.
pub open spec fn stripped(s: Seq<char>) -> Seq<char> {
    if s.len() > 0 && s[0] == '#' {
        s.skip(1)
    } else {
        s
    }
}

/// Shorthand expansion: a 3-character string has each character doubled;
/// any other string is left as it is.
pub open spec fn expanded(s: Seq<char>) -> Seq<char> {
    if s.len() == 3 {
        seq![s[0], s[0], s[1], s[1], s[2], s[2]]
    } else {
        s
    }
}

/// Every character of the string is a hex digit.
pub open spec fn all_hex(s: Seq<char>) -> bool {
    forall|i: int| 0 <= i < s.len() ==> spec_hex_val(s[i]) is Some
}

/// The byte written as the two hex digits `hi` then `lo`.
pub open spec fn pair_val(hi: char, lo: char) -> u8 {
    (spec_hex_val(hi).unwrap() * 16 + spec_hex_val(lo).unwrap()) as u8
}

/// What an optional hex color string resolves to: the color, and the note
/// that tells the caller which path was taken. Every failure path resolves
/// to white.
pub open spec fn spec_color(hex: Option<Seq<char>>) -> (Rgb, ColorNote) {
    match hex {
        None => (white(), ColorNote::Missing),
        Some(s) => {
            if s.len() == 0 {
                (white(), ColorNote::Empty)
            } else {
                let t = expanded(stripped(s));
                if t.len() != 6 {
                    (white(), ColorNote::BadLength)
                } else if !all_hex(t) {
                    (white(), ColorNote::IllegalChar)
                } else {
                    (
                        Rgb {
                            r: pair_val(t[0], t[1]),
                            g: pair_val(t[2], t[3]),
                            b: pair_val(t[4], t[5]),
                        },
                        ColorNote::Valid,
                    )
                }
            }
        },
    }
}

/// Opaque white, the fallback of the resolver.
pub fn white_color() -> (c: Rgb)
    ensures
        c == white(),
{
    Rgb { r: 255, g: 255, b: 255 }
}

/// The value of one hex digit character.
fn hex_val(c: char) -> (v: Option<u8>)
    ensures
        v == spec_hex_val(c),
{
    let u = c as u32;
    if 48 <= u && u <= 57 {
        Some((u - 48) as u8)
    } else if 97 <= u && u <= 102 {
        Some((u - 87) as u8)
    } else if 65 <= u && u <= 70 {
        Some((u - 55) as u8)
    } else {
        None
    }
}

/// The byte written as the two hex digits `hi` then `lo`, or `None` if
/// either character is no hex digit.
fn pair_byte(hi: char, lo: char) -> (v: Option<u8>)
    ensures
        v is Some <==> spec_hex_val(hi) is Some && spec_hex_val(lo) is Some,
        v is Some ==> v.unwrap() == pair_val(hi, lo),
{
    match (hex_val(hi), hex_val(lo)) {
        (Some(h), Some(l)) => Some(h * 16 + l),
        _ => None,
    }
}

/// Resolve an optional hex color string to a color, never failing: every
/// malformed string resolves to white, and the returned note says which
/// path was taken, so that the caller can log it.
pub fn get_color(hex: Option<&str>) -> (res: (Rgb, ColorNote))
    ensures
        res == spec_color(
            match hex {
                Some(s) => Some(s@),
                None => None,
            },
        ),
{
    match hex {
        None => (white_color(), ColorNote::Missing),
        Some(s) => {
            let n = s.unicode_len();
            if n == 0 {
                (white_color(), ColorNote::Empty)
            } else {
                let start: usize = if s.get_char(0) == '#' {
                    1
                } else {
                    0
                };
                let m = n - start;
                proof {
                    assert(stripped(s@) =~= s@.skip(start as int));
                }
                if m != 3 && m != 6 {
                    (white_color(), ColorNote::BadLength)
                } else {
                    let chars: [char; 6] = if m == 3 {
                        let a = s.get_char(start);
                        let b = s.get_char(start + 1);
                        let c = s.get_char(start + 2);
                        [a, a, b, b, c, c]
                    } else {
                        [
                            s.get_char(start),
                            s.get_char(start + 1),
                            s.get_char(start + 2),
                            s.get_char(start + 3),
                            s.get_char(start + 4),
                            s.get_char(start + 5),
                        ]
                    };
                    proof {
                        assert(chars@ =~= expanded(stripped(s@)));
                    }
                    let r = pair_byte(chars[0], chars[1]);
                    let g = pair_byte(chars[2], chars[3]);
                    let b = pair_byte(chars[4], chars[5]);
                    match (r, g, b) {
                        (Some(rv), Some(gv), Some(bv)) => {
                            proof {
                                let t = expanded(stripped(s@));
                                assert forall|i: int| 0 <= i < t.len() implies spec_hex_val(
                                    t[i],
                                ) is Some by {
                                    assert(t[i] == chars@[i]);
                                }
                            }
                            (Rgb { r: rv, g: gv, b: bv }, ColorNote::Valid)
                        },
                        _ => {
                            proof {
                                let t = expanded(stripped(s@));
                                assert(!all_hex(t)) by {
                                    if spec_hex_val(t[0]) is Some && spec_hex_val(t[1]) is Some
                                        && spec_hex_val(t[2]) is Some && spec_hex_val(
                                        t[3],
                                    ) is Some && spec_hex_val(t[4]) is Some && spec_hex_val(
                                        t[5],
                                    ) is Some {
                                        assert(false);
                                    }
                                }
                            }
                            (white_color(), ColorNote::IllegalChar)
                        },
                    }
                }
            }
        },
    }
}

/// The policy that decides the color of each plotted pixel: either one
/// constant color for every coordinate, or a per-coordinate sample of a
/// source image.
pub enum ColorSource {
    Constant(Rgb),
    Sampled(Canvas),
}

impl ColorSource {
    /// A sampled source carries a well-formed image.
    pub open spec fn wf(self) -> bool {
        match self {
            ColorSource::Constant(_) => true,
            ColorSource::Sampled(img) => img.wf(),
        }
    }

    /// The source can answer for every coordinate of a `w` by `h` canvas.
    pub open spec fn fits(self, w: u32, h: u32) -> bool {
        match self {
            ColorSource::Constant(_) => true,
            ColorSource::Sampled(img) => img.width == w && img.height == h,
        }
    }

    /// The color this source resolves to at `(x, y)`.
    pub open spec fn spec_at(self, x: int, y: int) -> Rgb {
        match self {
            ColorSource::Constant(c) => c,
            ColorSource::Sampled(img) => img.pix(x, y),
        }
    }

    /// Resolve the color for the pixel at `(x, y)`.
    pub fn at(&self, x: u32, y: u32) -> (c: Rgb)
        requires
            self.wf(),
            match self {
                ColorSource::Constant(_) => true,
                ColorSource::Sampled(img) => x < img.width && y < img.height,
            },
        ensures
            c == self.spec_at(x as int, y as int),
    {
        match self {
            ColorSource::Constant(c) => *c,
            ColorSource::Sampled(img) => img.get_pixel(x, y),
        }
    }
}

} // verus!

