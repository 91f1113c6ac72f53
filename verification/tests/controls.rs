use raytracer::controls::{edits, Axis, Edit, Held, SHIFT, SHIFT_BACK, TURN, TURN_BACK};
use raytracer::geometry::{Rot3, Vec3};
use raytracer::objects::Camera;
use raytracer::scalar::Scalar;

fn nothing_held() -> Held {
    Held {
        right: false,
        left: false,
        up: false,
        down: false,
        r: false,
        f: false,
        h: false,
        y: false,
        u: false,
        t: false,
        g: false,
        j: false,
    }
}

fn everything_held() -> Held {
    Held {
        right: true,
        left: true,
        up: true,
        down: true,
        r: true,
        f: true,
        h: true,
        y: true,
        u: true,
        t: true,
        g: true,
        j: true,
    }
}

fn camera(fov: u16) -> Camera {
    let zero = Scalar::from_bits(0);
    Camera::new(Vec3 { x: zero, y: zero, z: zero }, Rot3::new(), fov)
}

#[test]
fn the_steps_are_the_patterns_of_their_numbers() {
    assert_eq!(TURN, 0.01_f64.to_bits());
    assert_eq!(TURN_BACK, (-0.01_f64).to_bits());
    assert_eq!(SHIFT, 0.05_f64.to_bits());
    assert_eq!(SHIFT_BACK, (-0.05_f64).to_bits());
}

#[test]
fn the_mesh_turns_on_every_tick() {
    let list = edits(&nothing_held());
    assert_eq!(list.len(), 1);
    match list[0] {
        Edit::TurnMesh(by) => assert_eq!(by.bits, 0.01_f64.to_bits()),
        _ => panic!("the mesh turns"),
    }
}

#[test]
fn every_key_asks_for_its_edit_in_order() {
    let list = edits(&everything_held());
    assert_eq!(list.len(), 13);
    let back = (-0.01_f64).to_bits();
    let on = 0.01_f64.to_bits();
    let down = (-0.05_f64).to_bits();
    let up = 0.05_f64.to_bits();
    assert!(matches!(list[0], Edit::CameraYaw(by) if by.bits == back));
    assert!(matches!(list[1], Edit::CameraYaw(by) if by.bits == on));
    assert!(matches!(list[2], Edit::CameraRoll(by) if by.bits == on));
    assert!(matches!(list[3], Edit::CameraRoll(by) if by.bits == back));
    assert!(matches!(list[4], Edit::WidenView));
    assert!(matches!(list[5], Edit::NarrowView));
    assert!(matches!(list[6], Edit::MoveLight(Axis::Y, by) if by.bits == down));
    assert!(matches!(list[7], Edit::MoveLight(Axis::Y, by) if by.bits == up));
    assert!(matches!(list[8], Edit::MoveLight(Axis::Z, by) if by.bits == down));
    assert!(matches!(list[9], Edit::MoveLight(Axis::Z, by) if by.bits == up));
    assert!(matches!(list[10], Edit::MoveLight(Axis::X, by) if by.bits == down));
    assert!(matches!(list[11], Edit::MoveLight(Axis::X, by) if by.bits == up));
    assert!(matches!(list[12], Edit::TurnMesh(by) if by.bits == on));
}

#[test]
fn a_single_key_asks_for_a_single_edit() {
    let list = edits(&Held { right: true, ..nothing_held() });
    assert_eq!(list.len(), 2);
    assert!(matches!(list[0], Edit::CameraYaw(by) if by.bits == TURN_BACK));
    assert!(matches!(list[1], Edit::TurnMesh(_)));

    let list = edits(&Held { t: true, ..nothing_held() });
    assert_eq!(list.len(), 2);
    assert!(matches!(list[0], Edit::MoveLight(Axis::Z, by) if by.bits == SHIFT));

    let list = edits(&Held { g: true, f: true, ..nothing_held() });
    assert_eq!(list.len(), 3);
    assert!(matches!(list[0], Edit::NarrowView));
    assert!(matches!(list[1], Edit::MoveLight(Axis::X, by) if by.bits == SHIFT_BACK));
}

#[test]
fn the_field_of_view_steps_by_one_degree() {
    let mut cam = camera(40);
    let id = cam.id.clone();
    cam.widen();
    assert_eq!(cam.fov, 41);
    cam.narrow();
    cam.narrow();
    assert_eq!(cam.fov, 39);
    assert_eq!(cam.id, id);
    assert_eq!(cam.pos.x.bits, 0);
}

#[test]
fn the_field_of_view_reaches_its_ends() {
    let mut cam = camera(1);
    cam.narrow();
    assert_eq!(cam.fov, 0);
    let mut cam = camera(u16::MAX - 1);
    cam.widen();
    assert_eq!(cam.fov, u16::MAX);
}
