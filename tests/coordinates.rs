use chess::coordinates::{CoordinateError, Direction, Position};

fn pos(text: &str) -> Position {
    Position::from_str(text).unwrap()
}

#[test]
fn new_accepts_board_coordinates() {
    assert_eq!(Position::new(0, 0), Ok(Position { x: 0, y: 0 }));
    assert_eq!(Position::new(7, 7), Ok(Position { x: 7, y: 7 }));
    assert_eq!(Position::new(3, 5), Ok(Position { x: 3, y: 5 }));
}

#[test]
fn new_rejects_off_board_coordinates() {
    assert_eq!(Position::new(8, 0), Err(CoordinateError::InvalidCoordinate));
    assert_eq!(Position::new(0, 8), Err(CoordinateError::InvalidCoordinate));
    assert_eq!(Position::new(255, 255), Err(CoordinateError::InvalidCoordinate));
}

#[test]
fn new_checked_matches_new() {
    assert_eq!(Position::new_checked(7, 0), Some(Position { x: 7, y: 0 }));
    assert_eq!(Position::new_checked(7, 8), None);
}

#[test]
fn from_str_maps_letter_and_digit() {
    assert_eq!(pos("A1"), Position { x: 0, y: 0 });
    assert_eq!(pos("H8"), Position { x: 7, y: 7 });
    assert_eq!(pos("E2"), Position { x: 4, y: 1 });
}

#[test]
fn from_str_rejects_malformed_text() {
    for text in ["", "A", "A10", "I1", "A9", "a1", "A0", "1A", "é", "Aé"] {
        assert_eq!(Position::from_str(text), Err(CoordinateError::InvalidCoordinate), "{}", text);
    }
}

#[test]
fn moved_steps_and_stays_on_board() {
    assert_eq!(pos("E2").moved(Direction::North, 2), Some(pos("E4")));
    assert_eq!(pos("E2").moved(Direction::SouthWest, 1), Some(pos("D1")));
    assert_eq!(pos("A1").moved(Direction::West, 1), None);
    assert_eq!(pos("H8").moved(Direction::NorthEast, 1), None);
    assert_eq!(pos("A1").moved(Direction::NorthEast, 7), Some(pos("H8")));
    assert_eq!(pos("A1").moved(Direction::NorthEast, 8), None);
    assert_eq!(pos("D4").moved(Direction::North, -3), Some(pos("D1")));
    assert_eq!(pos("D4").moved(Direction::West, -128), None);
    assert_eq!(pos("D4").moved(Direction::East, 127), None);
}

#[test]
fn moved_then_back_returns_home() {
    let opposite = |d: Direction| match d {
        Direction::North => Direction::South,
        Direction::NorthEast => Direction::SouthWest,
        Direction::East => Direction::West,
        Direction::SouthEast => Direction::NorthWest,
        Direction::South => Direction::North,
        Direction::SouthWest => Direction::NorthEast,
        Direction::West => Direction::East,
        Direction::NorthWest => Direction::SouthEast,
    };
    for start in ["A1", "D4", "H8", "C7"] {
        let p = pos(start);
        for d in Direction::all() {
            for n in -7..=7 {
                if let Some(q) = p.moved(d, n) {
                    assert_eq!(q.moved(opposite(d), n), Some(p));
                }
            }
        }
    }
}

#[test]
fn direction_lists() {
    assert_eq!(
        Direction::all_non_diagonal(),
        vec![Direction::North, Direction::East, Direction::South, Direction::West]
    );
    assert_eq!(
        Direction::all_diagonal(),
        vec![Direction::NorthEast, Direction::SouthEast, Direction::SouthWest, Direction::NorthWest]
    );
    let all = Direction::all();
    assert_eq!(all.len(), 8);
    assert_eq!(all[0], Direction::North);
    assert_eq!(all[4], Direction::NorthEast);
}

#[test]
fn same_axis_means_equal_or_opposite() {
    assert!(Direction::North.is_same_axis(&Direction::North));
    assert!(Direction::North.is_same_axis(&Direction::South));
    assert!(Direction::NorthEast.is_same_axis(&Direction::SouthWest));
    assert!(!Direction::North.is_same_axis(&Direction::East));
    assert!(!Direction::North.is_same_axis(&Direction::NorthEast));
}
