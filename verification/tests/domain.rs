use gcs::text::{fmt_i32, parse_i32};
use gcs::{Direction, Error, Motion, Plateau, Pose, Rover};

#[test]
fn turn_left_four_times_is_identity() {
    for d in [Direction::North, Direction::East, Direction::South, Direction::West] {
        let mut r = Rover::new(0, 0, d);
        r.turn_left();
        r.turn_left();
        r.turn_left();
        r.turn_left();
        assert_eq!(r.facing(), d);
    }
}

#[test]
fn turn_right_four_times_is_identity() {
    for d in [Direction::North, Direction::East, Direction::South, Direction::West] {
        let mut r = Rover::new(0, 0, d);
        r.turn_right();
        r.turn_right();
        r.turn_right();
        r.turn_right();
        assert_eq!(r.facing(), d);
    }
}

#[test]
fn turns_are_mutual_inverses() {
    for d in [Direction::North, Direction::East, Direction::South, Direction::West] {
        let mut r = Rover::new(0, 0, d);
        r.turn_left();
        r.turn_right();
        assert_eq!(r.facing(), d);
        r.turn_right();
        r.turn_left();
        assert_eq!(r.facing(), d);
    }
}

#[test]
fn left_cycle_order() {
    let mut r = Rover::new(0, 0, Direction::North);
    r.turn_left();
    assert_eq!(r.facing(), Direction::West);
    r.turn_left();
    assert_eq!(r.facing(), Direction::South);
    r.turn_left();
    assert_eq!(r.facing(), Direction::East);
    r.turn_left();
    assert_eq!(r.facing(), Direction::North);
}

#[test]
fn right_cycle_order() {
    let mut r = Rover::new(0, 0, Direction::North);
    r.turn_right();
    assert_eq!(r.facing(), Direction::East);
    r.turn_right();
    assert_eq!(r.facing(), Direction::South);
    r.turn_right();
    assert_eq!(r.facing(), Direction::West);
    r.turn_right();
    assert_eq!(r.facing(), Direction::North);
}

fn plateau_5_5() -> Plateau {
    Plateau::parse("5 5").unwrap()
}

#[test]
fn moves_clamp_at_every_boundary() {
    let p = plateau_5_5();
    // north edge
    let mut r = Rover::new(2, 5, Direction::North);
    r.move_straight(&p);
    assert_eq!((r.x(), r.y()), (2, 5));
    // east edge
    let mut r = Rover::new(5, 2, Direction::East);
    r.move_straight(&p);
    assert_eq!((r.x(), r.y()), (5, 2));
    // south edge
    let mut r = Rover::new(2, 0, Direction::South);
    r.move_straight(&p);
    assert_eq!((r.x(), r.y()), (2, 0));
    // west edge
    let mut r = Rover::new(0, 2, Direction::West);
    r.move_straight(&p);
    assert_eq!((r.x(), r.y()), (0, 2));
}

#[test]
fn long_path_never_leaves_grid() {
    let p = plateau_5_5();
    let mut r = Rover::new(0, 0, Direction::North);
    let path = Motion::parse_path("MMMMMMMMMMRMMMMMMMMMMRMMMMMMMMMMRMMMMMMMMMM").unwrap();
    r.apply_motion_vector(path, &p);
    assert!(r.x() >= 0 && r.x() <= 5);
    assert!(r.y() >= 0 && r.y() <= 5);
}

#[test]
fn parse_path_accepts_lrm_only() {
    let path = Motion::parse_path("LMR").unwrap();
    assert_eq!(path, vec![Motion::TurnLeft, Motion::MoveStraight, Motion::TurnRight]);
    let empty = Motion::parse_path("").unwrap();
    assert!(empty.is_empty());
}

#[test]
fn parse_path_rejects_first_bad_character() {
    let err = Motion::parse_path("LMXRQ").unwrap_err();
    match &err {
        Error::MotionParseError(m) => assert_eq!(m, "Invalid motion 'X'"),
        other => panic!("unexpected error {:?}", other),
    }
    assert_eq!(err.message(), "Error parsing motion: Invalid motion 'X'");
    assert!(Motion::parse_path("lmr").is_err());
    assert!(Motion::parse_path("L M").is_err());
}

#[test]
fn pose_parse_round_trip() {
    let p = Pose::parse("1 2 N").unwrap();
    assert_eq!((p.x(), p.y(), p.facing()), (1, 2, Direction::North));
    assert_eq!(p.to_text(), "1 2 N");
    let q = Pose::parse("-3 -4 S").unwrap();
    assert_eq!((q.x(), q.y(), q.facing()), (-3, -4, Direction::South));
    assert_eq!(q.to_text(), "-3 -4 S");
    let r = Pose::new(2147483647, -2147483648, Direction::West);
    assert_eq!(r.to_text(), "2147483647 -2147483648 W");
    let back = Pose::parse(&r.to_text()).unwrap();
    assert_eq!(back, r);
}

#[test]
fn pose_parse_trims_whitespace() {
    let p = Pose::parse("  7 8 E \n").unwrap();
    assert_eq!((p.x(), p.y(), p.facing()), (7, 8, Direction::East));
}

#[test]
fn pose_parse_errors() {
    match Pose::parse("1 2").unwrap_err() {
        Error::PoseParseError(m) => assert_eq!(m, "Expected 3 parameters but found 2"),
        other => panic!("unexpected error {:?}", other),
    }
    match Pose::parse("1 2 3 4").unwrap_err() {
        Error::PoseParseError(m) => assert_eq!(m, "Expected 3 parameters but found 4"),
        other => panic!("unexpected error {:?}", other),
    }
    match Pose::parse("1 2 Q").unwrap_err() {
        Error::PoseParseError(m) => assert_eq!(m, "Invalid direction 'Q'"),
        other => panic!("unexpected error {:?}", other),
    }
    match Pose::parse("a 2 N").unwrap_err() {
        Error::CoOrdinateParseError(m) => {
            assert_eq!(m, "Co-ordinate can only be a non-negative integer")
        }
        other => panic!("unexpected error {:?}", other),
    }
    match Pose::parse("1 2147483648 N").unwrap_err() {
        Error::CoOrdinateParseError(_) => {}
        other => panic!("unexpected error {:?}", other),
    }
}

#[test]
fn plateau_parse_round_trip() {
    let p = Plateau::parse("5 5").unwrap();
    assert_eq!((p.x_max(), p.y_max()), (5, 5));
    assert_eq!(p.to_text(), "5 5");
    assert_eq!(p.id().len(), 36);
    let q = Plateau::parse(" 12 0 ").unwrap();
    assert_eq!(q.to_text(), "12 0");
}

#[test]
fn plateau_parse_errors() {
    match Plateau::parse("5").unwrap_err() {
        Error::CoOrdinateParseError(m) => assert_eq!(m, "Y co-ordinate may be missing"),
        other => panic!("unexpected error {:?}", other),
    }
    match Plateau::parse("5 5 5").unwrap_err() {
        Error::CoOrdinateParseError(m) => assert_eq!(m, "Too many co-ordinates"),
        other => panic!("unexpected error {:?}", other),
    }
    match Plateau::parse("a b").unwrap_err() {
        Error::CoOrdinateParseError(m) => {
            assert_eq!(m, "Co-ordinate can only be a non-negative integer")
        }
        other => panic!("unexpected error {:?}", other),
    }
    match Plateau::parse("").unwrap_err() {
        Error::CoOrdinateParseError(m) => assert_eq!(m, "Y co-ordinate may be missing"),
        other => panic!("unexpected error {:?}", other),
    }
}

#[test]
fn error_messages_render() {
    assert_eq!(Error::EmptyFile.message(), "Error: Empty file");
    assert_eq!(
        Error::InitialPoseNotFound.message(),
        "Error: Initial pose for the rover not found"
    );
    assert_eq!(Error::PathNotFound.message(), "Error: Path for the rover not found");
    assert_eq!(Error::NotFound.message(), "Error: Not found");
    assert_eq!(Error::StoreUnavailable.message(), "Error: Store unavailable");
    assert_eq!(
        Error::PoseParseError("Invalid direction 'Q'".to_string()).message(),
        "Error parsing pose: Invalid direction 'Q'"
    );
}

#[test]
fn fresh_ids_are_distinct() {
    let a = Rover::new(0, 0, Direction::North);
    let b = Rover::new(0, 0, Direction::North);
    assert_eq!(a.id().len(), 36);
    assert_eq!(b.id().len(), 36);
    assert_ne!(a.id(), b.id());
}

#[test]
fn rover_pose_reflects_fields() {
    let r = Rover::new(3, 4, Direction::East);
    let p = r.pose();
    assert_eq!((p.x(), p.y(), p.facing()), (3, 4, Direction::East));
    assert_eq!(p.to_text(), "3 4 E");
}

#[test]
fn number_formatting_matches_decimal() {
    assert_eq!(fmt_i32(0), "0");
    assert_eq!(fmt_i32(-7), "-7");
    assert_eq!(fmt_i32(2147483647), "2147483647");
    assert_eq!(fmt_i32(-2147483648), "-2147483648");
    assert_eq!(parse_i32("+42"), Some(42));
    assert_eq!(parse_i32("007"), Some(7));
    assert_eq!(parse_i32("-2147483648"), Some(-2147483648));
    assert_eq!(parse_i32("2147483648"), None);
    assert_eq!(parse_i32("-2147483649"), None);
    assert_eq!(parse_i32("99999999999999999999"), None);
    assert_eq!(parse_i32(""), None);
    assert_eq!(parse_i32("+"), None);
    assert_eq!(parse_i32("1 2"), None);
}

#[test]
fn fields_split_on_whitespace_runs() {
    let p = Pose::parse("1  2 N").unwrap();
    assert_eq!((p.x(), p.y(), p.facing()), (1, 2, Direction::North));
    let p = Pose::parse("1\t2  N").unwrap();
    assert_eq!((p.x(), p.y(), p.facing()), (1, 2, Direction::North));
    let q = Plateau::parse("5  5").unwrap();
    assert_eq!((q.x_max(), q.y_max()), (5, 5));
    let q = Plateau::parse("5\t7").unwrap();
    assert_eq!((q.x_max(), q.y_max()), (5, 7));
}

#[test]
fn row_conversions_keep_creation_time() {
    let r = Rover::new(1, 2, Direction::North);
    let row = r.to_rover_db("p".to_string());
    assert_eq!(row.created_at, r.created_at);
    assert_eq!(row.to_rover().created_at, r.created_at);
    let p = Plateau::new(5, 5);
    let prow = p.to_plateau_db();
    assert_eq!(prow.created_at, p.created_at);
    assert_eq!(prow.to_plateau().created_at, p.created_at);
}
