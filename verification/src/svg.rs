//! The shapes that level and collider artwork is made of.

use crate::geometry::Vec2;
use vstd::prelude::*;
use vstd::slice::slice_subrange;

verus! {

/// A rectangle, by its centre.
#[derive(Debug, Clone, Copy, PartialEq, Eq, Structural)]
pub struct RectShape {
    /// Centre.
    pub pos: Vec2,
    /// Width and height.
    pub dims: Vec2,
    /// Rotation about the centre, in millionths of a radian.
    pub rotate: i64,
}

/// A closed ring of vertices.
#[derive(Debug, Clone)]
pub struct PathShape {
    pub vertices: Vec<Vec2>,
}

/// A circle.
#[derive(Debug, Clone, Copy, PartialEq, Eq, Structural)]
pub struct CircleShape {
    pub pos: Vec2,
    pub r: i64,
    pub rotate: i64,
}

/// A shape of a drawing.
#[derive(Debug, Clone)]
pub enum SvgShape {
    Rect(RectShape),
    Path(PathShape),
    Circle(CircleShape),
}

/// One shape of a drawing, with its fill colour as `0xRRGGBB` and its place
/// in the drawing's order.
#[derive(Debug, Clone)]
pub struct SvgItem {
    pub shape: SvgShape,
    pub color: u32,
    pub index: usize,
}

/// The number of hash signs at the front of `bytes`.
pub open spec fn leading_hashes(bytes: Seq<u8>) -> int
    decreases bytes.len(),
{
    if bytes.len() > 0 && bytes[0] == 0x23u8 {
        1 + leading_hashes(bytes.drop_first())
    } else {
        0
    }
}

/// The value of a hexadecimal digit, if the byte is one.
pub open spec fn hex_value(byte: u8) -> Option<u8> {
    if 0x30u8 <= byte <= 0x39u8 {
        Some((byte - 0x30u8) as u8)
    } else if 0x41u8 <= byte <= 0x46u8 {
        Some((byte - 0x41u8 + 10) as u8)
    } else if 0x61u8 <= byte <= 0x66u8 {
        Some((byte - 0x61u8 + 10) as u8)
    } else {
        None
    }
}

/// Whether every byte is a hexadecimal digit.
pub open spec fn all_hex(bytes: Seq<u8>) -> bool {
    forall|i: int| 0 <= i < bytes.len() ==> hex_value(#[trigger] bytes[i]) is Some
}

/// The number that a row of hexadecimal digits stands for.
pub open spec fn hexadecimal(digits: Seq<u8>) -> nat
    decreases digits.len(),
{
    if digits.len() == 0 {
        0
    } else {
        hexadecimal(digits.drop_last()) * 16 + match hex_value(digits.last()) {
            Some(v) => v as nat,
            None => 0,
        }
    }
}

/// The digits of a fill attribute: what follows the hash signs at its
/// front and a plus sign that may follow them.
pub open spec fn fill_digits(fill: Seq<u8>) -> Seq<u8> {
    let number = fill.skip(leading_hashes(fill));
    if number.len() > 0 && number[0] == 0x2Bu8 {
        number.drop_first()
    } else {
        number
    }
}

/// The colour that a fill attribute stands for: after any hash signs at
/// its front, and after a plus sign that may follow them, at least one
/// hexadecimal digit, together a number that fits in 32 bits.
pub open spec fn fill_color(fill: Seq<u8>) -> Option<u32> {
    let digits = fill_digits(fill);
    if digits.len() > 0 && all_hex(digits) && hexadecimal(digits) <= u32::MAX {
        Some(hexadecimal(digits) as u32)
    } else {
        None
    }
}

/// A row of hexadecimal digits stands for no less than its beginning.
pub proof fn lemma_hexadecimal_grows(digits: Seq<u8>, k: int)
    requires
        all_hex(digits),
        0 <= k <= digits.len(),
    ensures
        hexadecimal(digits.take(k)) <= hexadecimal(digits),
    decreases digits.len() - k,
{
    if k < digits.len() {
        lemma_hexadecimal_grows(digits, k + 1);
        assert(digits.take(k + 1).drop_last() == digits.take(k));
        assert(digits.take(k + 1).last() == digits[k]);
    } else {
        assert(digits.take(k) == digits);
    }
}

/// The value of a hexadecimal digit.
fn hex_digit(byte: u8) -> (value: Option<u8>)
    ensures
        value == hex_value(byte),
{
    if 0x30u8 <= byte && byte <= 0x39u8 {
        Some(byte - 0x30u8)
    } else if 0x41u8 <= byte && byte <= 0x46u8 {
        Some(byte - 0x41u8 + 10)
    } else if 0x61u8 <= byte && byte <= 0x66u8 {
        Some(byte - 0x61u8 + 10)
    } else {
        None
    }
}

/// Reads the colour of a fill attribute, such as `#50AA59`.
pub fn parse_fill_color(fill: &[u8]) -> (color: Option<u32>)
    ensures
        color == fill_color(fill@),
{
    let n = fill.len();
    let mut lead: usize = 0;
    proof {
        assert(fill@.skip(0) == fill@);
    }
    while lead < n && fill[lead] == 0x23u8
        invariant
            n == fill@.len(),
            lead <= n,
            leading_hashes(fill@) == lead + leading_hashes(fill@.skip(lead as int)),
        decreases n - lead,
    {
        proof {
            assert(fill@.skip(lead as int).drop_first() == fill@.skip(lead + 1));
            assert(fill@.skip(lead as int)[0] == fill@[lead as int]);
        }
        lead += 1;
    }
    proof {
        if lead < n {
            assert(fill@.skip(lead as int)[0] == fill@[lead as int]);
        } else {
            assert(fill@.skip(lead as int).len() == 0);
        }
        assert(leading_hashes(fill@) == lead);
    }
    let number = slice_subrange(fill, lead, n);
    let start: usize = if number.len() > 0 && number[0] == 0x2Bu8 {
        1
    } else {
        0
    };
    let ghost digits = number@.skip(start as int);
    proof {
        assert(number@.skip(0) == number@);
        assert(digits == fill_digits(fill@));
    }
    if start == number.len() {
        return None;
    }
    let mut value: u64 = 0;
    let mut i: usize = start;
    proof {
        assert(digits.take(0).len() == 0);
    }
    while i < number.len()
        invariant
            start <= i <= number@.len(),
            digits == number@.skip(start as int),
            digits == fill_digits(fill@),
            all_hex(digits.take(i - start)),
            value == hexadecimal(digits.take(i - start)),
            value <= u32::MAX,
        decreases number@.len() - i,
    {
        let byte = number[i];
        proof {
            assert(digits.take(i - start + 1).drop_last() == digits.take(i - start));
            assert(digits.take(i - start + 1).last() == byte);
            assert(digits[i - start] == byte);
        }
        let digit = match hex_digit(byte) {
            Some(digit) => digit,
            None => {
                return None;
            },
        };
        proof {
            assert forall|k: int| 0 <= k < i - start + 1 implies hex_value(
                #[trigger] digits.take(i - start + 1)[k],
            ) is Some by {
                if k < i - start {
                    assert(digits.take(i - start)[k] == digits.take(i - start + 1)[k]);
                }
            }
        }
        value = value * 16 + digit as u64;
        assert(value == hexadecimal(digits.take(i - start + 1)));
        if value > u32::MAX as u64 {
            proof {
                if all_hex(digits) {
                    lemma_hexadecimal_grows(digits, i - start + 1);
                }
            }
            return None;
        }
        i += 1;
    }
    proof {
        assert(digits.take(digits.len() as int) == digits);
    }
    Some(value as u32)
}

} // verus!
