use planetkit::cell_dweller::cell_dweller::{
    edge_angle_at, CellTransform, HEXAGON_EDGE_ANGLE, PENTAGON_EDGE_ANGLE,
};
use planetkit::cell_dweller::CellDweller;
use planetkit::globe::{CellPos, Dir, Spec};
use planetkit::movement::TurnDir;
use planetkit::physics::Collision;
use planetkit::render::player_camera::ClientPlayer;
use specs::{Builder, World, WorldExt};

fn spec() -> Spec {
    Spec::new([8, 8], [2, 2, 2])
}

fn dweller_at(pos: CellPos, dir: Dir) -> CellDweller {
    CellDweller::new(pos, dir, spec(), None)
}

#[test]
fn new_dweller() {
    let pos = CellPos::new(1, 2, 3, 4);
    let dweller = dweller_at(pos, Dir::new(2));
    assert_eq!(dweller.pos(), pos);
    assert_eq!(dweller.dir(), Dir::new(2));
    assert_eq!(dweller.last_turn_bias, TurnDir::Right);
    assert_eq!(dweller.yaw, 0);
    assert!(dweller.is_real_space_transform_dirty());
    assert_eq!(dweller.globe_spec, spec());
    assert!(dweller.globe_entity.is_none());
}

#[test]
fn dweller_keeps_the_entity_of_its_globe() {
    let mut world = World::new();
    let first = world.create_entity().build();
    let second = world.create_entity().build();
    let dweller = CellDweller::new(CellPos::default(), Dir::default(), spec(), Some(second));
    assert_eq!(dweller.globe_entity, Some(second));
    assert_ne!(dweller.globe_entity, Some(first));
    let collision = Collision::new(Some(first));
    assert_eq!(collision.globe_entity, Some(first));
    assert!(Collision::new(None).globe_entity.is_none());
}

#[test]
fn edge_angles() {
    assert_eq!(HEXAGON_EDGE_ANGLE, 60 * 3600);
    assert_eq!(PENTAGON_EDGE_ANGLE, 72 * 3600);
    assert_eq!(edge_angle_at(&CellPos::new(0, 3, 3, 0), [8, 8]), 216_000);
    assert_eq!(edge_angle_at(&CellPos::new(0, 0, 0, 0), [8, 8]), 259_200);
    assert_eq!(edge_angle_at(&CellPos::new(0, 8, 8, 0), [8, 8]), 259_200);
}

#[test]
fn setting_the_cell_marks_the_transform_dirty() {
    let mut dweller = dweller_at(CellPos::new(0, 2, 2, 0), Dir::new(0));
    dweller.get_real_transform_and_mark_as_clean();
    assert!(!dweller.is_real_space_transform_dirty());
    dweller.set_cell_pos(CellPos::new(0, 3, 2, 0));
    assert!(dweller.is_real_space_transform_dirty());
    assert_eq!(dweller.pos(), CellPos::new(0, 3, 2, 0));
    assert_eq!(dweller.dir(), Dir::new(0));
    dweller.get_real_transform_and_mark_as_clean();
    dweller.set_cell_transform(CellPos::new(0, 4, 4, 1), Dir::new(5), TurnDir::Left);
    assert!(dweller.is_real_space_transform_dirty());
    assert_eq!(dweller.pos(), CellPos::new(0, 4, 4, 1));
    assert_eq!(dweller.dir(), Dir::new(5));
    assert_eq!(dweller.last_turn_bias, TurnDir::Left);
}

#[test]
fn transform_looks_one_cell_ahead() {
    let mut dweller = dweller_at(CellPos::new(0, 2, 2, 3), Dir::new(2));
    dweller.yaw = 1234;
    assert!(dweller.has_target());
    let transform = dweller.get_real_transform_and_mark_as_clean();
    assert_eq!(
        transform,
        CellTransform { pos: CellPos::new(0, 2, 2, 3), target: CellPos::new(0, 1, 3, 3), yaw: 1234 }
    );
    assert!(!dweller.is_real_space_transform_dirty());
    assert!(!dweller_at(CellPos::new(0, 0, 0, 0), Dir::new(4)).has_target());
    assert!(!dweller_at(CellPos::new(0, 2, 2, 0), Dir::new(7)).has_target());
}

#[test]
fn turn_moves_to_the_next_edge() {
    let mut dweller = dweller_at(CellPos::new(0, 2, 2, 0), Dir::new(5));
    dweller.get_real_transform_and_mark_as_clean();
    assert!(dweller.can_turn());
    dweller.turn(TurnDir::Left);
    assert_eq!(dweller.dir(), Dir::new(0));
    assert_eq!(dweller.pos(), CellPos::new(0, 2, 2, 0));
    assert!(dweller.is_real_space_transform_dirty());
    dweller.turn(TurnDir::Right);
    dweller.turn(TurnDir::Right);
    assert_eq!(dweller.dir(), Dir::new(4));
    assert_eq!(dweller.last_turn_bias, TurnDir::Right);
    assert!(!dweller_at(CellPos::new(0, 0, 0, 0), Dir::new(4)).can_turn());
    assert!(!dweller_at(CellPos::new(0, 1, 0, 0), Dir::new(6)).can_turn());
}

#[test]
fn pan_by_nothing_changes_nothing() {
    let mut dweller = dweller_at(CellPos::new(0, 2, 2, 0), Dir::new(1));
    dweller.yaw = 500;
    dweller.get_real_transform_and_mark_as_clean();
    assert!(dweller.pan_will_end(0));
    dweller.pan(0);
    assert_eq!(dweller.yaw, 500);
    assert_eq!(dweller.dir(), Dir::new(1));
    assert!(!dweller.is_real_space_transform_dirty());
}

#[test]
fn small_pan_only_changes_the_yaw() {
    let mut dweller = dweller_at(CellPos::new(0, 2, 2, 0), Dir::new(1));
    dweller.get_real_transform_and_mark_as_clean();
    dweller.pan(100_000);
    assert_eq!(dweller.yaw, 100_000);
    assert_eq!(dweller.dir(), Dir::new(1));
    assert!(dweller.is_real_space_transform_dirty());
    dweller.pan(8_000);
    assert_eq!(dweller.yaw, 108_000);
    assert_eq!(dweller.dir(), Dir::new(1));
    dweller.pan(-216_000);
    assert_eq!(dweller.yaw, -108_000);
    assert_eq!(dweller.dir(), Dir::new(1));
}

#[test]
fn pan_past_half_an_edge_turns_the_dweller() {
    let mut dweller = dweller_at(CellPos::new(0, 2, 2, 0), Dir::new(1));
    dweller.pan(108_001);
    assert_eq!(dweller.dir(), Dir::new(2));
    assert_eq!(dweller.yaw, 108_001 - 216_000);
    dweller.pan(-2);
    assert_eq!(dweller.dir(), Dir::new(1));
    assert_eq!(dweller.yaw, 107_999);
}

#[test]
fn large_pan_turns_more_than_once() {
    let mut dweller = dweller_at(CellPos::new(0, 2, 2, 0), Dir::new(0));
    dweller.pan(3 * 216_000 + 50_000);
    assert_eq!(dweller.dir(), Dir::new(3));
    assert_eq!(dweller.yaw, 50_000);
    dweller.pan(-(6 * 216_000));
    assert_eq!(dweller.dir(), Dir::new(3));
    assert_eq!(dweller.yaw, 50_000);
    dweller.pan(-(2 * 216_000 + 160_000));
    assert_eq!(dweller.dir(), Dir::new(0));
    assert_eq!(dweller.yaw, 106_000);
}

#[test]
fn pan_at_a_pentagon_turns_by_seventy_two_degrees() {
    let mut dweller = dweller_at(CellPos::new(0, 0, 0, 0), Dir::new(2));
    dweller.pan(129_600);
    assert_eq!(dweller.dir(), Dir::new(2));
    assert_eq!(dweller.yaw, 129_600);
    dweller.pan(1);
    assert_eq!(dweller.dir(), Dir::new(3));
    assert_eq!(dweller.yaw, 129_601 - 259_200);
    dweller.pan(259_200);
    assert_eq!(dweller.dir(), Dir::new(5));
    assert_eq!(dweller.yaw, 129_601 - 259_200);
    dweller.pan(5 * 259_200);
    assert_eq!(dweller.dir(), Dir::new(5));
    assert_eq!(dweller.yaw, 129_601 - 259_200);
}

#[test]
fn pan_that_would_not_end_is_told_apart() {
    let mut dweller = dweller_at(CellPos::new(0, 2, 2, 0), Dir::new(0));
    dweller.yaw = -129_600;
    assert!(!dweller.pan_will_end(1_000));
    assert!(dweller.pan_will_end(21_600));
    assert!(dweller.pan_will_end(-1_000));
    dweller.yaw = i64::MAX;
    assert!(!dweller.pan_will_end(1));
    assert!(!dweller.pan_will_end(-1));
    dweller.yaw = 100_000;
    assert!(dweller.pan_will_end(i64::MAX - 100_000));
    assert!(!dweller.pan_will_end(i64::MAX - 99_999));
    let lost = dweller_at(CellPos::new(0, 0, 0, 0), Dir::new(4));
    assert!(!lost.pan_will_end(5));
    assert!(lost.pan_will_end(0));
}

#[test]
fn pan_from_a_yaw_past_the_half_angle_of_a_hexagon() {
    let mut dweller = dweller_at(CellPos::new(0, 2, 2, 0), Dir::new(0));
    dweller.yaw = 129_600;
    assert!(dweller.pan_will_end(1));
    dweller.pan(1);
    assert_eq!(dweller.dir(), Dir::new(1));
    assert_eq!(dweller.yaw, 129_601 - 216_000);
}

#[test]
fn client_player_is_a_marker() {
    assert_eq!(ClientPlayer::default(), ClientPlayer);
}
