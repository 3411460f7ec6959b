use tank_game::direction::{DirError, Direction};

fn all_directions() -> Vec<Direction> {
    vec![
        Direction::North,
        Direction::NorthEast,
        Direction::East,
        Direction::SouthEast,
        Direction::South,
        Direction::SouthWest,
        Direction::West,
        Direction::NorthWest,
    ]
}

#[test]
fn parse_roundtrips_canonical_names() {
    for d in all_directions() {
        assert_eq!(Direction::parse(d.canonical_name()), Ok(d));
    }
}

#[test]
fn parse_single_letters_and_words() {
    assert_eq!(Direction::parse("n"), Ok(Direction::North));
    assert_eq!(Direction::parse("north"), Ok(Direction::North));
    assert_eq!(Direction::parse("up"), Ok(Direction::North));
    assert_eq!(Direction::parse("u"), Ok(Direction::North));
    assert_eq!(Direction::parse("e"), Ok(Direction::East));
    assert_eq!(Direction::parse("east"), Ok(Direction::East));
    assert_eq!(Direction::parse("right"), Ok(Direction::East));
    assert_eq!(Direction::parse("r"), Ok(Direction::East));
    assert_eq!(Direction::parse("s"), Ok(Direction::South));
    assert_eq!(Direction::parse("south"), Ok(Direction::South));
    assert_eq!(Direction::parse("down"), Ok(Direction::South));
    assert_eq!(Direction::parse("d"), Ok(Direction::South));
    assert_eq!(Direction::parse("w"), Ok(Direction::West));
    assert_eq!(Direction::parse("west"), Ok(Direction::West));
    assert_eq!(Direction::parse("left"), Ok(Direction::West));
    assert_eq!(Direction::parse("l"), Ok(Direction::West));
}

#[test]
fn parse_numpad_digits() {
    assert_eq!(Direction::parse("8"), Ok(Direction::North));
    assert_eq!(Direction::parse("2"), Ok(Direction::South));
    assert_eq!(Direction::parse("4"), Ok(Direction::West));
    assert_eq!(Direction::parse("6"), Ok(Direction::East));
    assert_eq!(Direction::parse("7"), Ok(Direction::NorthWest));
    assert_eq!(Direction::parse("9"), Ok(Direction::NorthEast));
    assert_eq!(Direction::parse("1"), Ok(Direction::SouthWest));
    assert_eq!(Direction::parse("3"), Ok(Direction::SouthEast));
}

#[test]
fn parse_two_letter_combinations() {
    assert_eq!(Direction::parse("ne"), Ok(Direction::NorthEast));
    assert_eq!(Direction::parse("se"), Ok(Direction::SouthEast));
    assert_eq!(Direction::parse("nw"), Ok(Direction::NorthWest));
    assert_eq!(Direction::parse("sw"), Ok(Direction::SouthWest));
    assert_eq!(Direction::parse("ur"), Ok(Direction::NorthEast));
    assert_eq!(Direction::parse("dr"), Ok(Direction::SouthEast));
    assert_eq!(Direction::parse("ul"), Ok(Direction::NorthWest));
    assert_eq!(Direction::parse("dl"), Ok(Direction::SouthWest));
}

#[test]
fn parse_is_case_insensitive_and_trims() {
    assert_eq!(Direction::parse("N"), Ok(Direction::North));
    assert_eq!(Direction::parse("NORTH"), Ok(Direction::North));
    assert_eq!(Direction::parse("  North  "), Ok(Direction::North));
    assert_eq!(Direction::parse("\tSE\n"), Ok(Direction::SouthEast));
}

#[test]
fn parse_hyphenated_pairs() {
    assert_eq!(Direction::parse("north-east"), Ok(Direction::NorthEast));
    assert_eq!(Direction::parse("east-north"), Ok(Direction::NorthEast));
    assert_eq!(Direction::parse("south-east"), Ok(Direction::SouthEast));
    assert_eq!(Direction::parse("north-west"), Ok(Direction::NorthWest));
    assert_eq!(Direction::parse("south-west"), Ok(Direction::SouthWest));
    assert_eq!(Direction::parse("up-right"), Ok(Direction::NorthEast));
    assert_eq!(Direction::parse("down-left"), Ok(Direction::SouthWest));
    assert_eq!(Direction::parse("UP-LEFT"), Ok(Direction::NorthWest));
    assert_eq!(Direction::parse(" north - east "), Ok(Direction::NorthEast));
    assert_eq!(Direction::parse("n-e"), Ok(Direction::NorthEast));
    assert_eq!(Direction::parse("w-s"), Ok(Direction::SouthWest));
}

#[test]
fn parse_trims_all_unicode_whitespace() {
    assert_eq!(Direction::parse("\u{a0}north\u{a0}"), Ok(Direction::North));
    assert_eq!(Direction::parse("\u{0c}se\u{0b}"), Ok(Direction::SouthEast));
    assert_eq!(Direction::parse("\u{3000}up-left\u{2028}"), Ok(Direction::NorthWest));
    assert_eq!(Direction::parse(" \u{2003}e\u{200a} "), Ok(Direction::East));
}

#[test]
fn parse_rejects_opposite_axes() {
    assert_eq!(Direction::parse("north-south"), Err(DirError::BadPair));
    assert_eq!(Direction::parse("east-west"), Err(DirError::BadPair));
    assert_eq!(Direction::parse("south-north"), Err(DirError::BadPair));
    assert_eq!(Direction::parse("west-east"), Err(DirError::BadPair));
}

#[test]
fn parse_rejects_repeated_axials() {
    assert_eq!(Direction::parse("n-n"), Err(DirError::BadPair));
    assert_eq!(Direction::parse("east-east"), Err(DirError::BadPair));
    assert_eq!(Direction::parse("up-up"), Err(DirError::BadPair));
    assert_eq!(Direction::parse("w-west"), Err(DirError::BadPair));
}

#[test]
fn parse_rejects_non_axial_pairs() {
    assert_eq!(Direction::parse("ne-sw"), Err(DirError::NonAxial));
    assert_eq!(Direction::parse("north-ne"), Err(DirError::NonAxial));
    assert_eq!(Direction::parse("9-1"), Err(DirError::NonAxial));
}

#[test]
fn parse_rejects_garbage() {
    assert_eq!(Direction::parse(""), Err(DirError::Invalid));
    assert_eq!(Direction::parse("   "), Err(DirError::Invalid));
    assert_eq!(Direction::parse("x"), Err(DirError::Invalid));
    assert_eq!(Direction::parse("5"), Err(DirError::Invalid));
    assert_eq!(Direction::parse("0"), Err(DirError::Invalid));
    assert_eq!(Direction::parse("norths"), Err(DirError::Invalid));
    assert_eq!(Direction::parse("north-"), Err(DirError::Invalid));
    assert_eq!(Direction::parse("-east"), Err(DirError::Invalid));
    assert_eq!(Direction::parse("n-e-w"), Err(DirError::Invalid));
    assert_eq!(Direction::parse("nördlich"), Err(DirError::Invalid));
}

#[test]
fn error_descriptions_are_stable() {
    assert_eq!(DirError::Invalid.describe(), "not a direction");
    assert_eq!(
        DirError::NonAxial.describe(),
        "only two cardinal directions can combine"
    );
    assert_eq!(
        DirError::BadPair.describe(),
        "these two directions do not combine"
    );
}

#[test]
fn is_axial_holds_exactly_for_cardinals() {
    assert!(Direction::North.is_axial());
    assert!(Direction::East.is_axial());
    assert!(Direction::South.is_axial());
    assert!(Direction::West.is_axial());
    assert!(!Direction::NorthEast.is_axial());
    assert!(!Direction::SouthEast.is_axial());
    assert!(!Direction::NorthWest.is_axial());
    assert!(!Direction::SouthWest.is_axial());
}

#[test]
fn as_offsets_are_the_unit_vectors() {
    assert_eq!(Direction::North.as_offsets(), (0, -1));
    assert_eq!(Direction::NorthEast.as_offsets(), (1, -1));
    assert_eq!(Direction::East.as_offsets(), (1, 0));
    assert_eq!(Direction::SouthEast.as_offsets(), (1, 1));
    assert_eq!(Direction::South.as_offsets(), (0, 1));
    assert_eq!(Direction::SouthWest.as_offsets(), (-1, 1));
    assert_eq!(Direction::West.as_offsets(), (-1, 0));
    assert_eq!(Direction::NorthWest.as_offsets(), (-1, -1));
}

#[test]
fn offset_values_interior_cell_matches_analytic_offset() {
    for d in all_directions() {
        let (dx, dy) = d.as_offsets();
        let got = d.offset_values(4, 5, 16, 16);
        let want = ((4i16 + dx as i16) as u8, (5i16 + dy as i16) as u8);
        assert_eq!(got, Some(want));
    }
}

#[test]
fn offset_values_stays_on_the_board() {
    for d in all_directions() {
        for x in 0..8u8 {
            for y in 0..8u8 {
                if let Some((nx, ny)) = d.offset_values(x, y, 8, 8) {
                    assert!(nx < 8 && ny < 8);
                }
            }
        }
    }
}

#[test]
fn offset_values_blocks_at_walls() {
    assert_eq!(Direction::North.offset_values(0, 0, 8, 8), None);
    assert_eq!(Direction::West.offset_values(0, 0, 8, 8), None);
    assert_eq!(Direction::NorthWest.offset_values(0, 0, 8, 8), None);
    assert_eq!(Direction::NorthEast.offset_values(0, 0, 8, 8), None);
    assert_eq!(Direction::South.offset_values(7, 7, 8, 8), None);
    assert_eq!(Direction::East.offset_values(7, 7, 8, 8), None);
    assert_eq!(Direction::SouthEast.offset_values(7, 7, 8, 8), None);
    assert_eq!(Direction::South.offset_values(0, 0, 8, 8), Some((0, 1)));
    assert_eq!(Direction::East.offset_values(0, 0, 8, 8), Some((1, 0)));
}
