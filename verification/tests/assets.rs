use rolly_polly::assets::{
    find_byte, find_possible_tiles, parse_range, parse_u8, pick_by_weight, split_at_byte,
    split_name_args, tile_name, HeightRange, Tile, TileConstraints,
};

fn range(start: u8, end: u8) -> HeightRange {
    HeightRange { start, end }
}

fn tile(left: (u8, u8), height: u8, right: (u8, u8), weight: u8) -> TileConstraints {
    TileConstraints {
        left_height: range(left.0, left.1),
        height,
        right_height: range(right.0, right.1),
        weight,
    }
}

#[test]
fn finding_bytes() {
    assert_eq!(find_byte(b"a_b_c", b'_'), Some(1));
    assert_eq!(find_byte(b"_", b'_'), Some(0));
    assert_eq!(find_byte(b"abc", b'_'), None);
    assert_eq!(find_byte(b"", b'_'), None);
    assert_eq!(split_at_byte(b"a_b_c", b'_'), Some((&b"a"[..], &b"b_c"[..])));
    assert_eq!(split_at_byte(b"ab_", b'_'), Some((&b"ab"[..], &b""[..])));
    assert_eq!(split_at_byte(b"abc", b'_'), None);
}

#[test]
fn names_and_their_arguments() {
    assert_eq!(split_name_args(b"stone"), (&b"stone"[..], None));
    assert_eq!(
        split_name_args(b"tile_grass_1(0-1_1_0-1_5)"),
        (&b"tile_grass_1"[..], Some(Some(&b"0-1_1_0-1_5"[..])))
    );
    assert_eq!(split_name_args(b"a()"), (&b"a"[..], Some(Some(&b""[..]))));
    assert_eq!(split_name_args(b"a(b)(c)"), (&b"a"[..], Some(Some(&b"b)(c"[..]))));
    assert_eq!(split_name_args(b"(x)"), (&b""[..], Some(Some(&b"x"[..]))));
}

#[test]
fn a_bracket_that_is_not_closed() {
    assert_eq!(split_name_args(b"a(b"), (&b"a"[..], Some(None)));
    assert_eq!(split_name_args(b"a("), (&b"a"[..], Some(None)));
    assert_eq!(split_name_args(b"a(b)c"), (&b"a"[..], Some(None)));
}

#[test]
fn heights_and_weights() {
    assert_eq!(parse_u8(b"0"), Some(0));
    assert_eq!(parse_u8(b"7"), Some(7));
    assert_eq!(parse_u8(b"255"), Some(255));
    assert_eq!(parse_u8(b"+12"), Some(12));
    assert_eq!(parse_u8(b"007"), Some(7));
    assert_eq!(parse_u8(b"0000000000000000000000255"), Some(255));
}

#[test]
fn ill_written_numbers() {
    assert_eq!(parse_u8(b""), None);
    assert_eq!(parse_u8(b"+"), None);
    assert_eq!(parse_u8(b"256"), None);
    assert_eq!(parse_u8(b"99999999999999999999999999"), None);
    assert_eq!(parse_u8(b"-1"), None);
    assert_eq!(parse_u8(b"1 "), None);
    assert_eq!(parse_u8(b"1a"), None);
    assert_eq!(parse_u8(b"++1"), None);
    assert_eq!(parse_u8(b"2560x"), None);
}

#[test]
fn numbers_agree_with_the_standard_reading() {
    let samples: [&str; 12] =
        ["0", "255", "256", "+5", "-5", "", "+", "12a", "00001", "300", " 1", "1000000000000"];
    for s in samples.iter() {
        assert_eq!(parse_u8(s.as_bytes()), s.parse::<u8>().ok());
    }
}

#[test]
fn ranges() {
    assert_eq!(parse_range(b"0-1"), Some(range(0, 1)));
    assert_eq!(parse_range(b"3"), Some(range(3, 3)));
    assert_eq!(parse_range(b"10-2"), Some(range(10, 2)));
    assert_eq!(parse_range(b"0-255"), Some(range(0, 255)));
    assert_eq!(parse_range(b"-1"), None);
    assert_eq!(parse_range(b"1-"), None);
    assert_eq!(parse_range(b"1-2-3"), None);
    assert_eq!(parse_range(b""), None);
    assert_eq!(parse_range(b"a-b"), None);
    assert!(range(2, 4).contains(2));
    assert!(range(2, 4).contains(4));
    assert!(!range(2, 4).contains(5));
    assert!(!range(2, 4).contains(1));
    assert!(!range(4, 2).contains(3));
}

#[test]
fn standard_constraints() {
    assert_eq!(TileConstraints::default(), tile((0, 1), 1, (0, 1), 5));
    assert_eq!(TileConstraints::zero(), tile((0, 255), 0, (0, 255), 0));
    assert_eq!(TileConstraints::new_or_default(None, None, None, None), TileConstraints::default());
    assert_eq!(
        TileConstraints::new_or_default(Some(range(2, 3)), None, None, Some(9)),
        tile((2, 3), 1, (0, 1), 9)
    );
    assert_eq!(
        TileConstraints::new_or_default(None, Some(4), Some(range(5, 6)), None),
        tile((0, 1), 4, (5, 6), 5)
    );
}

#[test]
fn constraints_from_arguments() {
    assert_eq!(TileConstraints::try_parse(b"0-1_1_0-1_5"), Some(TileConstraints::default()));
    assert_eq!(TileConstraints::try_parse(b"2_3_4-6_7"), Some(tile((2, 2), 3, (4, 6), 7)));
    assert_eq!(TileConstraints::try_parse(b"2"), Some(tile((2, 2), 1, (0, 1), 5)));
    assert_eq!(TileConstraints::try_parse(b"2_3"), Some(tile((2, 2), 3, (0, 1), 5)));
    assert_eq!(TileConstraints::try_parse(b"2_3_1-2"), Some(tile((2, 2), 3, (1, 2), 5)));
    assert_eq!(
        TileConstraints::try_parse(b"2_3_1-2_9_whatever_else"),
        Some(tile((2, 2), 3, (1, 2), 9))
    );
    assert_eq!(TileConstraints::parse(b"1-2_3_4-5_6"), tile((1, 2), 3, (4, 5), 6));
}

#[test]
fn ill_written_constraints() {
    assert_eq!(TileConstraints::try_parse(b""), None);
    assert_eq!(TileConstraints::try_parse(b"_"), None);
    assert_eq!(TileConstraints::try_parse(b"1_"), None);
    assert_eq!(TileConstraints::try_parse(b"1__2"), None);
    assert_eq!(TileConstraints::try_parse(b"1_2-3"), None);
    assert_eq!(TileConstraints::try_parse(b"1_2_3_256"), None);
    assert_eq!(TileConstraints::try_parse(b"x"), None);
    assert_eq!(TileConstraints::try_parse(b"1_2_3_4_"), Some(tile((1, 1), 2, (3, 3), 4)));
}

#[test]
fn tiles_fit_by_their_heights() {
    let low = tile((0, 1), 1, (0, 1), 5);
    let high = tile((1, 3), 2, (2, 3), 5);
    let step = tile((0, 1), 1, (1, 2), 5);
    assert!(low.fits(low));
    assert!(!low.fits(high));
    assert!(step.fits(high));
    assert!(!high.fits(low));
    assert!(high.fits(high));
    assert!(TileConstraints::zero().fits(low));
    assert!(!TileConstraints::zero().fits(high));
}

#[test]
fn tile_families() {
    assert_eq!(tile_name(b"tile_grass_1"), Some(&b"grass"[..]));
    assert_eq!(tile_name(b"tile_grass"), Some(&b"grass"[..]));
    assert_eq!(tile_name(b"tile_"), Some(&b""[..]));
    assert_eq!(tile_name(b"tile__x"), Some(&b""[..]));
    assert_eq!(tile_name(b"tile"), None);
    assert_eq!(tile_name(b"tiles_grass"), None);
    assert_eq!(tile_name(b"stone"), None);
    assert_eq!(tile_name(b""), None);
}

fn family() -> Tile {
    Tile(vec![
        ("flat".to_owned(), tile((0, 1), 1, (0, 1), 5)),
        ("up".to_owned(), tile((0, 1), 2, (1, 3), 2)),
        ("top".to_owned(), tile((2, 3), 3, (2, 3), 1)),
        ("down".to_owned(), tile((2, 3), 1, (0, 1), 4)),
    ])
}

#[test]
fn possible_tiles_fit_the_last() {
    let tiles = family();
    assert_eq!(find_possible_tiles(&tiles, TileConstraints::zero(), 10), vec![0, 1]);
    assert_eq!(find_possible_tiles(&tiles, tiles.0[0].1, 10), vec![0]);
    assert_eq!(find_possible_tiles(&tiles, tiles.0[1].1, 10), vec![2, 3]);
    assert_eq!(find_possible_tiles(&tiles, tiles.0[2].1, 10), vec![2]);
}

#[test]
fn a_row_comes_down_in_time() {
    let tiles = family();
    // two tiles remain after a tile of height 2: only a lower one may follow
    assert_eq!(find_possible_tiles(&tiles, tiles.0[1].1, 2), vec![2, 3]);
    assert_eq!(find_possible_tiles(&tiles, tiles.0[1].1, 1), vec![3]);
    assert_eq!(find_possible_tiles(&tiles, tiles.0[2].1, 2), vec![]);
    // the count of remaining tiles counts modulo 256
    assert_eq!(find_possible_tiles(&tiles, tiles.0[1].1, 257), vec![3]);
    assert_eq!(find_possible_tiles(&tiles, tiles.0[1].1, 258), vec![2, 3]);
}

#[test]
fn picking_by_weight() {
    let weights = vec![5u8, 2, 0, 4];
    let expected = [0usize, 0, 0, 0, 0, 0, 1, 1, 3, 3, 3, 3];
    for (random, want) in expected.iter().enumerate() {
        assert_eq!(pick_by_weight(&weights, random as u32), *want);
    }
    // beyond the sum the first place is taken
    assert_eq!(pick_by_weight(&weights, 12), 0);
    assert_eq!(pick_by_weight(&weights, u32::MAX), 0);
    assert_eq!(pick_by_weight(&vec![], 3), 0);
    assert_eq!(pick_by_weight(&vec![0, 0, 7], 0), 0);
    assert_eq!(pick_by_weight(&vec![0, 0, 7], 1), 2);
}
