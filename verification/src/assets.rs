//! The names of the asset files, and what they say about the tiles that
//! are drawn along the edges of floors.
//!
//! A file name is a name, followed, if the asset has arguments, by the
//! arguments in round brackets. The arguments of a tile are its
//! constraints: up to four fields divided by underscores, which are the
//! range of heights that fit on its left, its own height, the range of
//! heights that fit on its right and its weight. A range is one height or
//! two heights joined by a hyphen. Names are read as bytes.

use vstd::prelude::*;
use vstd::slice::slice_subrange;

verus! {

/// The place of the first byte `byte` in `bytes`.
pub open spec fn first_index_of(bytes: Seq<u8>, byte: u8) -> Option<int>
    decreases bytes.len(),
{
    if bytes.len() == 0 {
        None
    } else if bytes[0] == byte {
        Some(0)
    } else {
        match first_index_of(bytes.drop_first(), byte) {
            Some(i) => Some(i + 1),
            None => None,
        }
    }
}

/// The first place is a place of `bytes` where `byte` stands, and before
/// it `byte` does not occur.
pub proof fn lemma_first_index_of(bytes: Seq<u8>, byte: u8)
    ensures
        first_index_of(bytes, byte) matches Some(i) ==> 0 <= i < bytes.len() && bytes[i] == byte
            && forall|k: int| 0 <= k < i ==> bytes[k] != byte,
        first_index_of(bytes, byte) is None ==> forall|k: int|
            0 <= k < bytes.len() ==> bytes[k] != byte,
    decreases bytes.len(),
{
    if bytes.len() > 0 && bytes[0] != byte {
        let rest = bytes.drop_first();
        lemma_first_index_of(rest, byte);
        match first_index_of(rest, byte) {
            Some(i) => {
                assert forall|k: int| 0 <= k < i + 1 implies bytes[k] != byte by {
                    if k > 0 {
                        assert(rest[k - 1] == bytes[k]);
                    }
                }
            },
            None => {
                assert forall|k: int| 0 <= k < bytes.len() implies bytes[k] != byte by {
                    if k > 0 {
                        assert(rest[k - 1] == bytes[k]);
                    }
                }
            },
        }
    }
}

/// The place of the first byte `byte` in `bytes`, if there is one.
pub fn find_byte(bytes: &[u8], byte: u8) -> (found: Option<usize>)
    ensures
        found matches Some(i) ==> first_index_of(bytes@, byte) == Some(i as int),
        found is None ==> first_index_of(bytes@, byte) is None,
{
    let mut i: usize = 0;
    proof {
        assert(bytes@.skip(0) == bytes@);
    }
    while i < bytes.len()
        invariant
            i <= bytes@.len(),
            first_index_of(bytes@, byte) == match first_index_of(bytes@.skip(i as int), byte) {
                Some(k) => Some(k + i),
                None => None,
            },
        decreases bytes@.len() - i,
    {
        proof {
            assert(bytes@.skip(i as int).drop_first() == bytes@.skip(i + 1));
            assert(bytes@.skip(i as int)[0] == bytes@[i as int]);
        }
        if bytes[i] == byte {
            return Some(i);
        }
        i += 1;
    }
    proof {
        assert(bytes@.skip(bytes@.len() as int).len() == 0);
    }
    None
}

/// What stands before and after the first `byte` in `bytes`, if `byte`
/// occurs.
pub open spec fn split_once(bytes: Seq<u8>, byte: u8) -> Option<(Seq<u8>, Seq<u8>)> {
    match first_index_of(bytes, byte) {
        Some(i) => Some((bytes.subrange(0, i), bytes.subrange(i + 1, bytes.len() as int))),
        None => None,
    }
}

/// Divides `bytes` at the first `byte`.
pub fn split_at_byte(bytes: &[u8], byte: u8) -> (parts: Option<(&[u8], &[u8])>)
    ensures
        parts is Some == split_once(bytes@, byte) is Some,
        parts matches Some((before, after)) ==> split_once(bytes@, byte) == Some(
            (before@, after@),
        ),
{
    proof {
        lemma_first_index_of(bytes@, byte);
    }
    match find_byte(bytes, byte) {
        Some(i) => {
            let n = bytes.len();
            assert(i < n);
            Some((slice_subrange(bytes, 0, i), slice_subrange(bytes, i + 1, n)))
        },
        None => None,
    }
}

/// The name without a closing bracket at its end, if it has one.
pub open spec fn without_closing(bytes: Seq<u8>) -> Option<Seq<u8>> {
    if bytes.len() > 0 && bytes.last() == 0x29u8 {
        Some(bytes.drop_last())
    } else {
        None
    }
}

/// A file name as its name and its arguments: the name ends before the
/// first opening bracket, and the arguments are what stands between that
/// bracket and a closing bracket at the end. A name without an opening
/// bracket has no arguments.
pub open spec fn name_and_args(name: Seq<u8>) -> (Seq<u8>, Option<Seq<u8>>) {
    match split_once(name, 0x28u8) {
        Some((before, after)) => (before, without_closing(after)),
        None => (name, None),
    }
}

/// Divides a file name into its name and its arguments. Whether there was
/// an opening bracket at all is told by the second part of the result: it
/// is `Some` exactly then, and within it the arguments are missing where
/// the bracket is not closed at the end of the name.
pub fn split_name_args(name: &[u8]) -> (parts: (&[u8], Option<Option<&[u8]>>))
    ensures
        parts.0@ == name_and_args(name@).0,
        parts.1 is Some == split_once(name@, 0x28u8) is Some,
        parts.1 matches Some(Some(args)) ==> name_and_args(name@).1 == Some(args@),
        parts.1 matches Some(None) ==> name_and_args(name@).1 is None,
{
    match split_at_byte(name, 0x28u8) {
        Some((before, after)) => {
            if after.len() > 0 && after[after.len() - 1] == 0x29u8 {
                let args = slice_subrange(after, 0, after.len() - 1);
                (before, Some(Some(args)))
            } else {
                (before, Some(None))
            }
        },
        None => (name, None),
    }
}

/// Whether the byte is a decimal digit.
pub open spec fn is_digit(byte: u8) -> bool {
    0x30u8 <= byte <= 0x39u8
}

/// The number that a row of decimal digits stands for.
pub open spec fn decimal(digits: Seq<u8>) -> nat
    decreases digits.len(),
{
    if digits.len() == 0 {
        0
    } else {
        decimal(digits.drop_last()) * 10 + (digits.last() - 0x30u8) as nat
    }
}

/// Whether every byte is a decimal digit.
pub open spec fn all_digits(bytes: Seq<u8>) -> bool {
    forall|i: int| 0 <= i < bytes.len() ==> is_digit(#[trigger] bytes[i])
}

/// The digits of a number as it is written: what follows a plus sign at
/// the front, if there is one, or else the whole.
pub open spec fn unsigned_part(bytes: Seq<u8>) -> Seq<u8> {
    if bytes.len() > 0 && bytes[0] == 0x2Bu8 {
        bytes.drop_first()
    } else {
        bytes
    }
}

/// The height or weight that a field stands for: a number of at most 255,
/// written in decimal digits, at least one, that a plus sign may precede.
pub open spec fn parsed_u8(bytes: Seq<u8>) -> Option<u8> {
    let digits = unsigned_part(bytes);
    if digits.len() > 0 && all_digits(digits) && decimal(digits) <= 255 {
        Some(decimal(digits) as u8)
    } else {
        None
    }
}

/// A row of digits stands for no less than its beginning does.
pub proof fn lemma_decimal_grows(digits: Seq<u8>, k: int)
    requires
        all_digits(digits),
        0 <= k <= digits.len(),
    ensures
        decimal(digits.take(k)) <= decimal(digits),
    decreases digits.len() - k,
{
    if k < digits.len() {
        lemma_decimal_grows(digits, k + 1);
        assert(digits.take(k + 1).drop_last() == digits.take(k));
        assert(is_digit(digits[k]));
        assert(digits.take(k + 1).last() == digits[k]);
    } else {
        assert(digits.take(k) == digits);
    }
}

/// Reads a height or a weight.
pub fn parse_u8(bytes: &[u8]) -> (value: Option<u8>)
    ensures
        value == parsed_u8(bytes@),
{
    let start: usize = if bytes.len() > 0 && bytes[0] == 0x2Bu8 {
        1
    } else {
        0
    };
    let ghost digits = unsigned_part(bytes@);
    proof {
        assert(digits == bytes@.skip(start as int));
    }
    if start == bytes.len() {
        return None;
    }
    let mut value: u32 = 0;
    let mut i: usize = start;
    proof {
        assert(digits.take(0).len() == 0);
    }
    while i < bytes.len()
        invariant
            start <= i <= bytes@.len(),
            digits == bytes@.skip(start as int),
            digits == unsigned_part(bytes@),
            all_digits(digits.take(i - start)),
            value == decimal(digits.take(i - start)),
            value <= 255,
        decreases bytes@.len() - i,
    {
        let byte = bytes[i];
        proof {
            assert(digits.take(i - start + 1).drop_last() == digits.take(i - start));
            assert(digits.take(i - start + 1).last() == byte);
        }
        if byte < 0x30u8 || byte > 0x39u8 {
            proof {
                assert(digits[i - start] == byte);
                assert(!is_digit(digits[i - start]));
            }
            return None;
        }
        proof {
            assert forall|k: int| 0 <= k < i - start + 1 implies is_digit(
                #[trigger] digits.take(i - start + 1)[k],
            ) by {
                if k < i - start {
                    assert(digits.take(i - start)[k] == digits.take(i - start + 1)[k]);
                }
            }
        }
        value = value * 10 + (byte - 0x30u8) as u32;
        assert(value == decimal(digits.take(i - start + 1)));
        if value > 255 {
            proof {
                if all_digits(digits) {
                    lemma_decimal_grows(digits, i - start + 1);
                }
            }
            return None;
        }
        i += 1;
    }
    proof {
        assert(digits.take(digits.len() as int) == digits);
    }
    Some(value as u8)
}

/// A range of heights, both ends included.
#[derive(Debug, Clone, Copy, PartialEq, Eq, Structural)]
pub struct HeightRange {
    pub start: u8,
    pub end: u8,
}

impl HeightRange {
    /// Whether the height lies in the range.
    pub open spec fn spec_contains(&self, height: u8) -> bool {
        self.start <= height <= self.end
    }

    #[verifier::when_used_as_spec(spec_contains)]
    pub fn contains(&self, height: u8) -> (inside: bool)
        ensures
            inside == self.spec_contains(height),
    {
        self.start <= height && height <= self.end
    }
}

/// The range that a field stands for: two heights joined by a hyphen, or
/// one height, which is then both ends.
pub open spec fn parsed_range(bytes: Seq<u8>) -> Option<HeightRange> {
    match split_once(bytes, 0x2Du8) {
        Some((start, end)) => match (parsed_u8(start), parsed_u8(end)) {
            (Some(start), Some(end)) => Some(HeightRange { start, end }),
            _ => None,
        },
        None => match parsed_u8(bytes) {
            Some(height) => Some(HeightRange { start: height, end: height }),
            None => None,
        },
    }
}

/// Reads a range of heights.
pub fn parse_range(bytes: &[u8]) -> (range: Option<HeightRange>)
    ensures
        range == parsed_range(bytes@),
{
    match split_at_byte(bytes, 0x2Du8) {
        Some((start, end)) => match (parse_u8(start), parse_u8(end)) {
            (Some(start), Some(end)) => Some(HeightRange { start, end }),
            _ => None,
        },
        None => match parse_u8(bytes) {
            Some(height) => Some(HeightRange { start: height, end: height }),
            None => None,
        },
    }
}

/// What a tile fits beside: the heights that fit on its left and on its
/// right, its own height, and how often it is chosen.
#[derive(Debug, Clone, Copy, PartialEq, Eq, Structural)]
pub struct TileConstraints {
    pub left_height: HeightRange,
    pub height: u8,
    pub right_height: HeightRange,
    pub weight: u8,
}

impl Default for TileConstraints {
    fn default() -> (constraints: Self)
        ensures
            constraints == TileConstraints::standard(),
    {
        TileConstraints {
            left_height: HeightRange { start: 0, end: 1 },
            height: 1,
            right_height: HeightRange { start: 0, end: 1 },
            weight: 5,
        }
    }
}

/// The field that follows the first underscore, and what follows it.
pub open spec fn next_field(rest: Option<Seq<u8>>) -> (Option<Seq<u8>>, Option<Seq<u8>>) {
    match rest {
        None => (None, None),
        Some(bytes) => match split_once(bytes, 0x5Fu8) {
            Some((field, after)) => (Some(field), Some(after)),
            None => (Some(bytes), None),
        },
    }
}

impl TileConstraints {
    /// The constraints of a tile whose name gives none: a height of one
    /// beside heights of nothing to one, at a weight of five.
    pub open spec fn standard() -> TileConstraints {
        TileConstraints {
            left_height: HeightRange { start: 0, end: 1 },
            height: 1,
            right_height: HeightRange { start: 0, end: 1 },
            weight: 5,
        }
    }

    /// The constraints that fit before the first tile of an edge: no
    /// height, beside any height, at no weight.
    pub fn zero() -> (constraints: Self)
        ensures
            constraints == (TileConstraints {
                left_height: HeightRange { start: 0, end: 255 },
                height: 0,
                right_height: HeightRange { start: 0, end: 255 },
                weight: 0,
            }),
    {
        TileConstraints {
            left_height: HeightRange { start: 0, end: 255 },
            height: 0,
            right_height: HeightRange { start: 0, end: 255 },
            weight: 0,
        }
    }

    /// The constraints with the parts given, and the standard for the
    /// rest.
    pub fn new_or_default(
        left_height: Option<HeightRange>,
        height: Option<u8>,
        right_height: Option<HeightRange>,
        weight: Option<u8>,
    ) -> (constraints: Self)
        ensures
            constraints.left_height == match left_height {
                Some(range) => range,
                None => TileConstraints::standard().left_height,
            },
            constraints.height == match height {
                Some(h) => h,
                None => 1u8,
            },
            constraints.right_height == match right_height {
                Some(range) => range,
                None => TileConstraints::standard().right_height,
            },
            constraints.weight == match weight {
                Some(w) => w,
                None => 5u8,
            },
    {
        let standard = TileConstraints::default();
        TileConstraints {
            left_height: match left_height {
                Some(range) => range,
                None => standard.left_height,
            },
            height: match height {
                Some(h) => h,
                None => standard.height,
            },
            right_height: match right_height {
                Some(range) => range,
                None => standard.right_height,
            },
            weight: match weight {
                Some(w) => w,
                None => standard.weight,
            },
        }
    }

    /// The constraints that the arguments of a tile's name stand for, if
    /// they are well written: the fields in their order, each one read as
    /// what it is, with the standard for the fields that are not there.
    /// Fields beyond the fourth do not count.
    pub open spec fn parsed(constraints: Seq<u8>) -> Option<TileConstraints> {
        let (first, rest) = next_field(Some(constraints));
        let (second, rest) = next_field(rest);
        let (third, rest) = next_field(rest);
        let (fourth, _) = next_field(rest);
        let left = match first {
            Some(field) => parsed_range(field),
            None => Some(TileConstraints::standard().left_height),
        };
        let height = match second {
            Some(field) => parsed_u8(field),
            None => Some(1u8),
        };
        let right = match third {
            Some(field) => parsed_range(field),
            None => Some(TileConstraints::standard().right_height),
        };
        let weight = match fourth {
            Some(field) => parsed_u8(field),
            None => Some(5u8),
        };
        match (left, height, right, weight) {
            (Some(left_height), Some(height), Some(right_height), Some(weight)) => Some(
                TileConstraints { left_height, height, right_height, weight },
            ),
            _ => None,
        }
    }

    /// Reads the constraints from the arguments of a tile's name, or finds
    /// them ill written.
    pub fn try_parse(constraints: &[u8]) -> (parsed: Option<Self>)
        ensures
            parsed == TileConstraints::parsed(constraints@),
    {
        let (first, rest) = take_field(Some(constraints));
        let (second, rest) = take_field(rest);
        let (third, rest) = take_field(rest);
        let (fourth, _) = take_field(rest);
        let left = match first {
            Some(field) => match parse_range(field) {
                Some(range) => Some(range),
                None => {
                    return None;
                },
            },
            None => None,
        };
        let height = match second {
            Some(field) => match parse_u8(field) {
                Some(h) => Some(h),
                None => {
                    return None;
                },
            },
            None => None,
        };
        let right = match third {
            Some(field) => match parse_range(field) {
                Some(range) => Some(range),
                None => {
                    return None;
                },
            },
            None => None,
        };
        let weight = match fourth {
            Some(field) => match parse_u8(field) {
                Some(w) => Some(w),
                None => {
                    return None;
                },
            },
            None => None,
        };
        Some(TileConstraints::new_or_default(left, height, right, weight))
    }

    /// Reads the constraints from well-written arguments of a tile's name.
    pub fn parse(constraints: &[u8]) -> (parsed: Self)
        requires
            TileConstraints::parsed(constraints@) is Some,
        ensures
            TileConstraints::parsed(constraints@) == Some(parsed),
    {
        match TileConstraints::try_parse(constraints) {
            Some(parsed) => parsed,
            None => TileConstraints::default(),
        }
    }

    /// Whether the tile `right` fits on the right of this one: each one's
    /// height lies in the range that the other allows beside it.
    pub open spec fn spec_fits(&self, right: TileConstraints) -> bool {
        self.right_height.contains(right.height) && right.left_height.contains(self.height)
    }

    #[verifier::when_used_as_spec(spec_fits)]
    pub fn fits(&self, right: TileConstraints) -> (fit: bool)
        ensures
            fit == self.spec_fits(right),
    {
        self.right_height.contains(right.height) && right.left_height.contains(self.height)
    }
}

/// Takes the next field off the arguments.
fn take_field<'a>(rest: Option<&'a [u8]>) -> (taken: (Option<&'a [u8]>, Option<&'a [u8]>))
    ensures
        taken.0 is Some == next_field(
            match rest {
                Some(bytes) => Some(bytes@),
                None => None,
            },
        ).0 is Some,
        taken.0 matches Some(field) ==> next_field(
            match rest {
                Some(bytes) => Some(bytes@),
                None => None,
            },
        ).0 == Some(field@),
        taken.1 is Some == next_field(
            match rest {
                Some(bytes) => Some(bytes@),
                None => None,
            },
        ).1 is Some,
        taken.1 matches Some(after) ==> next_field(
            match rest {
                Some(bytes) => Some(bytes@),
                None => None,
            },
        ).1 == Some(after@),
{
    match rest {
        None => (None, None),
        Some(bytes) => match split_at_byte(bytes, 0x5Fu8) {
            Some((field, after)) => (Some(field), Some(after)),
            None => (Some(bytes), None),
        },
    }
}

/// The family of a tile texture: what stands in its name between the
/// prefix `tile_` and the next underscore, or the end. A name without the
/// prefix is no tile.
pub open spec fn tile_family(name: Seq<u8>) -> Option<Seq<u8>> {
    let prefix = seq![0x74u8, 0x69u8, 0x6Cu8, 0x65u8, 0x5Fu8];
    if name.len() >= 5 && name.subrange(0, 5) == prefix {
        let rest = name.subrange(5, name.len() as int);
        match split_once(rest, 0x5Fu8) {
            Some((family, _)) => Some(family),
            None => Some(rest),
        }
    } else {
        None
    }
}

/// Reads the family of a tile texture off its name.
pub fn tile_name(name: &[u8]) -> (family: Option<&[u8]>)
    ensures
        family is Some == tile_family(name@) is Some,
        family matches Some(f) ==> tile_family(name@) == Some(f@),
{
    if name.len() >= 5 && name[0] == 0x74u8 && name[1] == 0x69u8 && name[2] == 0x6Cu8 && name[3]
        == 0x65u8 && name[4] == 0x5Fu8 {
        proof {
            assert(name@.subrange(0, 5) =~= seq![0x74u8, 0x69u8, 0x6Cu8, 0x65u8, 0x5Fu8]);
        }
        let rest = slice_subrange(name, 5, name.len());
        match split_at_byte(rest, 0x5Fu8) {
            Some((family, _)) => Some(family),
            None => Some(rest),
        }
    } else {
        proof {
            if name@.len() >= 5 {
                let head = name@.subrange(0, 5);
                let prefix = seq![0x74u8, 0x69u8, 0x6Cu8, 0x65u8, 0x5Fu8];
                assert(head[0] == name@[0] && head[1] == name@[1] && head[2] == name@[2] && head[3]
                    == name@[3] && head[4] == name@[4]);
                assert(prefix[0] == 0x74u8 && prefix[1] == 0x69u8 && prefix[2] == 0x6Cu8
                    && prefix[3] == 0x65u8 && prefix[4] == 0x5Fu8);
            }
        }
        None
    }
}

/// The textures of one family of tiles, each with its constraints.
#[derive(Debug, Clone)]
pub struct Tile(pub Vec<(String, TileConstraints)>);

/// Whether a tile may follow the tile with the constraints `last` when
/// `remaining` tiles are still to be laid, itself included: it has to fit
/// on the right of the last, and where the last is higher than tiles
/// remain, it has to be lower than the last, so that the row comes down to
/// the ground in time. The number of remaining tiles counts modulo 256.
pub open spec fn may_follow(last: TileConstraints, remaining: usize, tile: TileConstraints) -> bool {
    last.fits(tile) && (last.height > (remaining % 256) ==> tile.height < last.height)
}

/// The places, in order, of the tiles of `tiles` that may follow.
pub open spec fn possible_tiles(
    tiles: Seq<(String, TileConstraints)>,
    last: TileConstraints,
    remaining: usize,
) -> Seq<usize>
    decreases tiles.len(),
{
    if tiles.len() == 0 {
        seq![]
    } else {
        let before = possible_tiles(tiles.drop_last(), last, remaining);
        if may_follow(last, remaining, tiles.last().1) {
            before.push((tiles.len() - 1) as usize)
        } else {
            before
        }
    }
}

/// Finds the tiles of a family that may follow the last tile laid, by
/// their places in the family.
pub fn find_possible_tiles(tile: &Tile, last: TileConstraints, remaining: usize) -> (possible: Vec<
    usize,
>)
    ensures
        possible@ == possible_tiles(tile.0@, last, remaining),
{
    let low: u8 = (remaining % 256) as u8;
    let mut possible: Vec<usize> = Vec::new();
    let mut i: usize = 0;
    while i < tile.0.len()
        invariant
            i <= tile.0@.len(),
            low == remaining % 256,
            possible@ == possible_tiles(tile.0@.take(i as int), last, remaining),
        decreases tile.0@.len() - i,
    {
        proof {
            assert(tile.0@.take(i + 1).drop_last() == tile.0@.take(i as int));
            assert(tile.0@.take(i + 1).last() == tile.0@[i as int]);
        }
        let constraints = tile.0[i].1;
        if last.fits(constraints) && (!(last.height > low) || constraints.height < last.height) {
            possible.push(i);
        }
        i += 1;
    }
    proof {
        assert(tile.0@.take(tile.0@.len() as int) == tile.0@);
    }
    possible
}

/// The sum of the first `count` weights.
pub open spec fn weight_sum(weights: Seq<u8>, count: int) -> int
    decreases count,
{
    if count <= 0 {
        0
    } else {
        weight_sum(weights, count - 1) + weights[count - 1]
    }
}

/// The place that a draw of `random` falls on among the weights from
/// place `from` on: the first place up to which the weights, from the
/// beginning, add up to at least `random`, or the first place of all
/// where they never do.
pub open spec fn drawn_from(weights: Seq<u8>, random: u32, from: int) -> int
    decreases weights.len() - from,
{
    if from < 0 || from >= weights.len() {
        0
    } else if weight_sum(weights, from + 1) >= random {
        from
    } else {
        drawn_from(weights, random, from + 1)
    }
}

/// The place that a draw of `random` falls on among the weights.
pub open spec fn drawn_index(weights: Seq<u8>, random: u32) -> int {
    drawn_from(weights, random, 0)
}

/// Picks a place among the weights by a draw: each place is as likely as
/// its weight is large when the draw is even between nothing and the sum
/// of the weights.
pub fn pick_by_weight(weights: &Vec<u8>, random: u32) -> (index: usize)
    ensures
        index == drawn_index(weights@, random),
        weights@.len() > 0 ==> index < weights@.len(),
{
    let mut sum: u64 = 0;
    let mut i: usize = 0;
    while i < weights.len()
        invariant
            i <= weights@.len(),
            sum == weight_sum(weights@, i as int),
            sum <= 0xffff_ffff,
            drawn_index(weights@, random) == drawn_from(weights@, random, i as int),
        decreases weights@.len() - i,
    {
        sum = sum + weights[i] as u64;
        if sum >= random as u64 {
            return i;
        }
        i += 1;
    }
    0
}

} // verus!
