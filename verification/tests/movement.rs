use planetkit::globe::{CellPos, Dir};
use planetkit::movement::{
    adjacent_pos_in_dir, has_edge, is_pentagon, turn_by_one_hex_edge, OutOfBounds, TurnDir, TurnError,
};

const RES: [i64; 2] = [8, 8];

fn turn_n(pos: CellPos, dir: Dir, turn_dir: TurnDir, n: usize) -> (CellPos, Dir) {
    let mut pos = pos;
    let mut dir = dir;
    for _ in 0..n {
        turn_by_one_hex_edge(&mut pos, &mut dir, RES, turn_dir).unwrap();
    }
    (pos, dir)
}

#[test]
fn pentagons_are_the_two_poles() {
    assert!(is_pentagon(&CellPos::new(0, 0, 0, 0), RES));
    assert!(is_pentagon(&CellPos::new(3, 8, 8, 5), RES));
    assert!(is_pentagon(&CellPos::new(1, 0, 0, 7), [3, 5]));
    assert!(is_pentagon(&CellPos::new(1, 3, 5, 7), [3, 5]));
}

#[test]
fn other_cells_are_hexagons() {
    assert!(!is_pentagon(&CellPos::new(0, 1, 0, 0), RES));
    assert!(!is_pentagon(&CellPos::new(0, 0, 1, 0), RES));
    assert!(!is_pentagon(&CellPos::new(0, 8, 0, 0), RES));
    assert!(!is_pentagon(&CellPos::new(0, 0, 8, 0), RES));
    assert!(!is_pentagon(&CellPos::new(0, 4, 4, 0), RES));
    assert!(!is_pentagon(&CellPos::new(0, 5, 3, 0), [3, 5]));
}

#[test]
fn steps_follow_the_six_offsets() {
    let pos = CellPos::new(2, 4, 5, 6);
    let expected = [(5, 5), (4, 6), (3, 6), (3, 5), (4, 4), (5, 4)];
    for (index, (x, y)) in expected.iter().enumerate() {
        let next = adjacent_pos_in_dir(pos, Dir::new(index as u8)).unwrap();
        assert_eq!(next, CellPos::new(2, *x, *y, 6));
    }
}

#[test]
fn step_rejects_a_direction_that_is_no_edge() {
    let pos = CellPos::new(0, 4, 4, 0);
    assert_eq!(adjacent_pos_in_dir(pos, Dir::new(6)), Err(OutOfBounds));
    assert_eq!(adjacent_pos_in_dir(pos, Dir::new(255)), Err(OutOfBounds));
}

#[test]
fn step_rejects_the_missing_edge_of_the_origin_pole() {
    let pole = CellPos::new(4, 0, 0, 2);
    assert_eq!(adjacent_pos_in_dir(pole, Dir::new(4)), Err(OutOfBounds));
    assert_eq!(adjacent_pos_in_dir(pole, Dir::new(0)), Ok(CellPos::new(4, 1, 0, 2)));
    assert_eq!(adjacent_pos_in_dir(pole, Dir::new(3)), Ok(CellPos::new(4, -1, 0, 2)));
    assert_eq!(adjacent_pos_in_dir(pole, Dir::new(5)), Ok(CellPos::new(4, 1, -1, 2)));
}

#[test]
fn step_rejects_a_coordinate_out_of_range() {
    let far = CellPos::new(0, i64::MAX, i64::MIN, 0);
    assert_eq!(adjacent_pos_in_dir(far, Dir::new(0)), Err(OutOfBounds));
    assert_eq!(adjacent_pos_in_dir(far, Dir::new(4)), Err(OutOfBounds));
    assert_eq!(adjacent_pos_in_dir(far, Dir::new(5)), Err(OutOfBounds));
    assert_eq!(adjacent_pos_in_dir(far, Dir::new(1)), Ok(CellPos::new(0, i64::MAX, i64::MIN + 1, 0)));
    assert_eq!(adjacent_pos_in_dir(far, Dir::new(3)), Ok(CellPos::new(0, i64::MAX - 1, i64::MIN, 0)));
}

#[test]
fn step_and_step_back_returns_to_the_cell() {
    for x in 1..8 {
        for y in 1..8 {
            let pos = CellPos::new(1, x, y, 3);
            for index in 0..6u8 {
                let dir = Dir::new(index);
                let there = adjacent_pos_in_dir(pos, dir).unwrap();
                assert_ne!(there, pos);
                let back = adjacent_pos_in_dir(there, dir.opposite()).unwrap();
                assert_eq!(back, pos);
            }
        }
    }
}

#[test]
fn opposite_directions() {
    let expected = [3u8, 4, 5, 0, 1, 2];
    for index in 0..6u8 {
        assert_eq!(Dir::new(index).opposite(), Dir::new(expected[index as usize]));
    }
    assert_eq!(Dir::new(9).opposite(), Dir::new(9));
}

#[test]
fn turn_left_at_hexagon_goes_to_next_slot() {
    let mut pos = CellPos::new(0, 3, 4, 1);
    let mut dir = Dir::new(2);
    assert_eq!(turn_by_one_hex_edge(&mut pos, &mut dir, RES, TurnDir::Left), Ok(()));
    assert_eq!(dir, Dir::new(3));
    assert_eq!(pos, CellPos::new(0, 3, 4, 1));
    let mut dir = Dir::new(5);
    assert_eq!(turn_by_one_hex_edge(&mut pos, &mut dir, RES, TurnDir::Left), Ok(()));
    assert_eq!(dir, Dir::new(0));
}

#[test]
fn turn_right_at_hexagon_goes_to_previous_slot() {
    let mut pos = CellPos::new(0, 3, 4, 1);
    let mut dir = Dir::new(2);
    assert_eq!(turn_by_one_hex_edge(&mut pos, &mut dir, RES, TurnDir::Right), Ok(()));
    assert_eq!(dir, Dir::new(1));
    let mut dir = Dir::new(0);
    assert_eq!(turn_by_one_hex_edge(&mut pos, &mut dir, RES, TurnDir::Right), Ok(()));
    assert_eq!(dir, Dir::new(5));
    assert_eq!(pos, CellPos::new(0, 3, 4, 1));
}

#[test]
fn six_turns_close_the_loop_at_every_hexagon() {
    for x in 0..=8 {
        for y in 0..=8 {
            let pos = CellPos::new(2, x, y, 0);
            if is_pentagon(&pos, RES) {
                continue;
            }
            for index in 0..6u8 {
                for turn_dir in [TurnDir::Left, TurnDir::Right] {
                    let start = Dir::new(index);
                    for n in 1..6 {
                        assert_ne!(turn_n(pos, start, turn_dir, n), (pos, start));
                    }
                    assert_eq!(turn_n(pos, start, turn_dir, 6), (pos, start));
                }
            }
        }
    }
}

#[test]
fn five_turns_close_the_loop_at_both_poles() {
    let poles = [(CellPos::new(0, 0, 0, 0), 4u8), (CellPos::new(0, 8, 8, 0), 1u8)];
    for (pos, missing) in poles {
        for index in 0..6u8 {
            if index == missing {
                continue;
            }
            for turn_dir in [TurnDir::Left, TurnDir::Right] {
                let start = Dir::new(index);
                for n in 1..5 {
                    assert_ne!(turn_n(pos, start, turn_dir, n), (pos, start));
                }
                assert_eq!(turn_n(pos, start, turn_dir, 5), (pos, start));
            }
        }
    }
}

#[test]
fn turn_at_origin_pole_steps_over_slot_four() {
    let mut pos = CellPos::new(0, 0, 0, 0);
    let mut dir = Dir::new(3);
    assert_eq!(turn_by_one_hex_edge(&mut pos, &mut dir, RES, TurnDir::Left), Ok(()));
    assert_eq!(dir, Dir::new(5));
    assert_eq!(turn_by_one_hex_edge(&mut pos, &mut dir, RES, TurnDir::Right), Ok(()));
    assert_eq!(dir, Dir::new(3));
    assert_eq!(pos, CellPos::new(0, 0, 0, 0));
}

#[test]
fn turn_at_far_pole_steps_over_slot_one() {
    let mut pos = CellPos::new(0, 8, 8, 0);
    let mut dir = Dir::new(0);
    assert_eq!(turn_by_one_hex_edge(&mut pos, &mut dir, RES, TurnDir::Left), Ok(()));
    assert_eq!(dir, Dir::new(2));
    assert_eq!(turn_by_one_hex_edge(&mut pos, &mut dir, RES, TurnDir::Right), Ok(()));
    assert_eq!(dir, Dir::new(0));
    assert_eq!(pos, CellPos::new(0, 8, 8, 0));
}

#[test]
fn turn_fails_for_a_direction_that_is_no_edge() {
    let mut pos = CellPos::new(0, 3, 3, 0);
    let mut dir = Dir::new(6);
    assert_eq!(
        turn_by_one_hex_edge(&mut pos, &mut dir, RES, TurnDir::Left),
        Err(TurnError::NotAnEdge)
    );
    assert_eq!(dir, Dir::new(6));
    assert_eq!(pos, CellPos::new(0, 3, 3, 0));
}

#[test]
fn turn_fails_on_the_missing_edge_of_a_pentagon() {
    let mut pos = CellPos::new(0, 0, 0, 0);
    let mut dir = Dir::new(4);
    assert_eq!(
        turn_by_one_hex_edge(&mut pos, &mut dir, RES, TurnDir::Right),
        Err(TurnError::MissingEdge)
    );
    assert_eq!(dir, Dir::new(4));
    let mut pos = CellPos::new(0, 8, 8, 0);
    let mut dir = Dir::new(1);
    assert_eq!(
        turn_by_one_hex_edge(&mut pos, &mut dir, RES, TurnDir::Left),
        Err(TurnError::MissingEdge)
    );
    assert_eq!(dir, Dir::new(1));
}

#[test]
fn has_edge_tells_where_a_turn_succeeds() {
    assert!(has_edge(&CellPos::new(0, 2, 2, 0), Dir::new(4), RES));
    assert!(!has_edge(&CellPos::new(0, 2, 2, 0), Dir::new(6), RES));
    assert!(!has_edge(&CellPos::new(0, 0, 0, 0), Dir::new(4), RES));
    assert!(has_edge(&CellPos::new(0, 0, 0, 0), Dir::new(1), RES));
    assert!(!has_edge(&CellPos::new(0, 8, 8, 0), Dir::new(1), RES));
    assert!(has_edge(&CellPos::new(0, 8, 8, 0), Dir::new(4), RES));
}

#[test]
fn left_then_right_is_no_turn() {
    for index in 0..6u8 {
        let mut pos = CellPos::new(0, 5, 2, 0);
        let mut dir = Dir::new(index);
        turn_by_one_hex_edge(&mut pos, &mut dir, RES, TurnDir::Left).unwrap();
        turn_by_one_hex_edge(&mut pos, &mut dir, RES, TurnDir::Right).unwrap();
        assert_eq!(dir, Dir::new(index));
    }
}

#[test]
fn default_address_and_direction() {
    assert_eq!(CellPos::default(), CellPos::new(0, 0, 0, 0));
    assert_eq!(Dir::default(), Dir::new(0));
    assert!(Dir::default().points_at_hex_edge());
    assert!(!Dir::new(6).points_at_hex_edge());
}

#[test]
fn cells_above_and_below() {
    let pos = CellPos::new(1, 2, 3, 4);
    assert_eq!(pos.above(), Some(CellPos::new(1, 2, 3, 5)));
    assert_eq!(pos.below(), Some(CellPos::new(1, 2, 3, 3)));
    assert_eq!(CellPos::new(0, 0, 0, i64::MAX).above(), None);
    assert_eq!(CellPos::new(0, 0, 0, i64::MIN).below(), None);
}
