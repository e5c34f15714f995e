use nalgebra_glm::vec3;
use tile_scene::animation::Animation;
use tile_scene::control::steer;
use tile_scene::input::{
    classify, flip_for, pace_for, resolve_direction, Actions, Key, Movement,
};
use tile_scene::scene::Scene;
use tile_scene::transform::Transform;

fn held(up: bool, left: bool, down: bool, right: bool, run: bool) -> Actions {
    Actions { up, left, down, right, unused_a: false, unused_b: false, run }
}

#[test]
fn no_flag_is_set_at_first() {
    let a = Actions::new();
    assert!(!a.up && !a.left && !a.down && !a.right && !a.unused_a && !a.unused_b && !a.run);
}

#[test]
fn flags_classify_into_three_movements() {
    assert_eq!(classify(&held(false, false, false, false, false)), Movement::Idle);
    assert_eq!(classify(&held(false, false, false, false, true)), Movement::Idle);
    assert_eq!(classify(&held(true, false, false, false, false)), Movement::Walking);
    assert_eq!(classify(&held(false, true, false, false, false)), Movement::Walking);
    assert_eq!(classify(&held(false, false, true, false, false)), Movement::Walking);
    assert_eq!(classify(&held(false, false, false, true, false)), Movement::Walking);
    assert_eq!(classify(&held(true, false, false, false, true)), Movement::Running);
    assert_eq!(classify(&held(false, true, true, false, true)), Movement::Running);
    let mut unused = Actions::new();
    unused.unused_a = true;
    unused.unused_b = true;
    assert_eq!(classify(&unused), Movement::Idle);
}

#[test]
fn left_and_right_flip() {
    assert_eq!(flip_for(&held(false, true, false, false, false)), Some(0));
    assert_eq!(flip_for(&held(false, false, false, true, false)), Some(1));
    assert_eq!(flip_for(&held(false, true, false, true, false)), Some(0));
    assert_eq!(flip_for(&held(true, false, true, false, true)), None);
}

#[test]
fn running_is_four_times_as_fast() {
    assert_eq!(pace_for(&held(true, false, false, false, true)), 4);
    assert_eq!(pace_for(&held(true, false, false, false, false)), 1);
}

#[test]
fn direction_follows_the_flags_and_the_first_axis() {
    let left = vec3(0.0, 0.5, 0.0);
    assert_eq!(resolve_direction(&held(false, false, false, false, true), &left), vec3(0.0, 0.0, 0.0));
    assert_eq!(resolve_direction(&held(true, false, false, false, false), &left), vec3(0.0, 1.0, 0.0));
    assert_eq!(resolve_direction(&held(false, false, true, false, false), &left), vec3(0.0, -1.0, 0.0));
    assert_eq!(resolve_direction(&held(true, false, true, false, false), &left), vec3(0.0, 1.0, 0.0));
    assert_eq!(resolve_direction(&held(false, true, false, false, false), &left), vec3(0.0, -0.5, 0.0));
    assert_eq!(resolve_direction(&held(false, false, false, true, false), &left), vec3(0.0, 0.5, 0.0));
    assert_eq!(resolve_direction(&held(false, true, false, true, false), &left), vec3(0.0, -0.5, 0.0));
    assert_eq!(resolve_direction(&held(true, false, false, true, false), &left), vec3(0.0, 1.5, 0.0));
    let side = vec3(0.5, 0.0, 0.0);
    assert_eq!(resolve_direction(&held(false, true, true, false, false), &side), vec3(-0.5, -1.0, 0.0));
}

#[test]
fn steering_flips_animates_and_resolves_the_direction() {
    let mut scene = Scene::new();
    let hero = scene.add(Transform::new());
    let other = scene.add(Transform::new());
    Transform::translate(&mut scene, hero, &vec3(400.0, 400.0, 0.0));
    let matrix = scene.get(hero).unwrap().matrix;
    let mut clock = Animation { index: 0, offset: 190, max: 8, speed: 166_000_000, elapsed: 0 };
    let direction = steer(&mut scene, hero, &mut clock, &held(true, false, false, true, false), 250_000_000);
    assert_eq!(direction, vec3(0.5, 1.0, 0.0));
    let node = scene.get(hero).unwrap();
    assert_eq!(node.flip_x, 1);
    assert_eq!(node.index, 222);
    assert_eq!(node.matrix, matrix);
    assert_eq!(node.position, vec3(400.0, 400.0, 0.0));
    assert_eq!((clock.index, clock.offset, clock.elapsed), (2, 220, 50_000_000));
    assert_eq!(scene.get(other).unwrap().index, 0);
    assert_eq!(scene.get(other).unwrap().flip_x, 0);

    // nothing held and no frame due: only the strip changes
    let direction = steer(&mut scene, hero, &mut clock, &Actions::new(), 1_000_000);
    assert_eq!(direction, vec3(0.0, 0.0, 0.0));
    let node = scene.get(hero).unwrap();
    assert_eq!(node.flip_x, 1);
    assert_eq!(node.index, 192);

    // same strip, no frame due: the sprite stays
    scene.set_index(hero, 5);
    let direction = steer(&mut scene, hero, &mut clock, &held(false, false, false, false, true), 1_000_000);
    assert_eq!(direction, vec3(0.0, 0.0, 0.0));
    assert_eq!(scene.get(hero).unwrap().index, 5);
    assert_eq!(clock.elapsed, 52_000_000);
}

#[test]
fn steering_resolves_left_along_the_turned_axis() {
    let mut scene = Scene::new();
    let hero = scene.add(Transform::new());
    Transform::rotate(&mut scene, hero, &vec3(0.0, 0.0, 90.0));
    let mut clock = Animation::new();
    let direction = steer(&mut scene, hero, &mut clock, &held(false, true, false, false, true), 0);
    assert!((direction - vec3(0.0, -0.5, 0.0)).abs().max() < 1e-6);
    assert_eq!(scene.get(hero).unwrap().flip_x, 0);
    assert_eq!(scene.get(hero).unwrap().index, 201);
}

#[test]
fn keys_set_and_clear_their_flags() {
    let mut a = Actions::new();
    a.press(Key::W);
    assert!(a.up && !a.left && !a.down && !a.right && !a.unused_a && !a.unused_b && !a.run);
    a.press(Key::A);
    a.press(Key::S);
    a.press(Key::D);
    a.press(Key::Q);
    a.press(Key::E);
    a.press(Key::LShift);
    assert!(a.up && a.left && a.down && a.right && a.unused_a && a.unused_b && a.run);
    a.release(Key::W);
    assert!(!a.up && a.left && a.down && a.right && a.unused_a && a.unused_b && a.run);
    a.release(Key::A);
    assert!(!a.left && a.down);
    a.release(Key::S);
    assert!(!a.down && a.right);
    a.release(Key::D);
    assert!(!a.right && a.unused_a);
    a.release(Key::Q);
    assert!(!a.unused_a && a.unused_b);
    a.release(Key::E);
    assert!(!a.unused_b && a.run);
    a.release(Key::LShift);
    assert!(!a.run);
    a.press(Key::R);
    a.press(Key::F);
    a.press(Key::Other);
    assert!(!a.up && !a.left && !a.down && !a.right && !a.unused_a && !a.unused_b && !a.run);
    a.press(Key::D);
    a.release(Key::Other);
    a.release(Key::R);
    assert!(a.right);
}
