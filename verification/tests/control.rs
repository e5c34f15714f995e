use nalgebra_glm::{vec3, vec4, Mat4, Vec3};
use tile_scene::animation::Animation;
use tile_scene::camera::Camera;
use tile_scene::control::{advance, aim, displacement, heading_to_cursor, update, SPEED};
use tile_scene::frame::advance_frame;
use tile_scene::input::Actions;
use tile_scene::scene::Scene;
use tile_scene::stage::{place_hero, seed_crowd};
use tile_scene::transform::Transform;
use tile_scene::vertex::get_rect;
use tile_scene::viewport::Viewport;

fn view() -> Mat4 {
    nalgebra_glm::look_at_lh(&vec3(0.0, 0.0, -1.0), &vec3(0.0, 0.0, 0.0), &vec3(0.0, 1.0, 0.0))
}

fn close3(a: &Vec3, b: &Vec3) -> bool {
    (a - b).abs().max() < 1e-4
}

// the heading as the formula reads, in plain numbers
fn heading_by_hand(mx: f32, my: f32, w: u32, h: u32, zoom: f32) -> f32 {
    let screen = vec4((mx - w as f32 * 0.5) * zoom, (my - h as f32 * 0.5) * zoom, 0.0, 1.0);
    let world = nalgebra_glm::inverse(&view()) * screen;
    let place = vec3(world.x, -world.y, 0.0);
    let towards = nalgebra_glm::normalize(&(place - vec3(0.0, 0.0, 0.0)));
    towards.y.atan2(towards.x).to_degrees()
}

#[test]
fn displacement_is_direction_times_time_speed_and_pace() {
    assert_eq!(SPEED, 100);
    let direction = vec3(0.5, 1.0, 0.0);
    let dt = 16_000_000.0_f32 / 1_000_000_000.0_f32;
    assert_eq!(displacement(&direction, 16_000_000, 4), direction * dt * 100.0 * 4.0);
    assert_eq!(displacement(&direction, 16_000_000, 1), direction * dt * 100.0);
    assert_eq!(displacement(&direction, 1_000_000_000, 1), vec3(50.0, 100.0, 0.0));
    assert_eq!(displacement(&direction, 500_000_000, 4), vec3(100.0, 200.0, 0.0));
    assert_eq!(displacement(&direction, 0, 4), vec3(0.0, 0.0, 0.0));
    assert_eq!(displacement(&vec3(0.0, 0.0, 0.0), 1_000_000_000, 4), vec3(0.0, 0.0, 0.0));
}

#[test]
fn aim_points_from_the_origin_to_the_cursor() {
    let viewport = Viewport::new(1280, 720);
    // right of the middle
    assert!(close3(&aim(&vec3(1280.0, 360.0, 0.0), &viewport, 10, &view()), &vec3(1.0, 0.0, 0.0)));
    // above the middle: the screen's y runs downwards
    assert!(close3(&aim(&vec3(640.0, 0.0, 0.0), &viewport, 10, &view()), &vec3(0.0, 1.0, 0.0)));
    assert!(close3(&aim(&vec3(640.0, 720.0, 0.0), &viewport, 10, &view()), &vec3(0.0, -1.0, 0.0)));
    let slanted = aim(&vec3(940.0, 760.0, 0.0), &viewport, 25, &view());
    assert!(close3(&slanted, &vec3(0.6, -0.8, 0.0)));
}

#[test]
fn aim_goes_back_through_the_view() {
    let viewport = Viewport::new(800, 600);
    let moved = nalgebra_glm::translation(&vec3(100.0, 50.0, 0.0));
    // 400 right of the middle on the screen is 300 right and 50 below in the scene
    let towards = aim(&vec3(800.0, 300.0, 0.0), &viewport, 10, &moved);
    let length = (300.0_f32 * 300.0 + 50.0 * 50.0).sqrt();
    assert!(close3(&towards, &vec3(300.0 / length, 50.0 / length, 0.0)));
    let doubled = nalgebra_glm::scaling(&vec3(2.0, 4.0, 1.0));
    let towards = aim(&vec3(800.0, 0.0, 0.0), &viewport, 20, &doubled);
    // (800, -600) on the screen is (400, -150) in the scene, turned over
    let length = (400.0_f32 * 400.0 + 150.0 * 150.0).sqrt();
    assert!(close3(&towards, &vec3(400.0 / length, 150.0 / length, 0.0)));
}

#[test]
fn heading_is_the_angle_of_the_aim() {
    let viewport = Viewport::new(1280, 720);
    let right = heading_to_cursor(&vec3(1280.0, 360.0, 0.0), &viewport, 10, &view());
    assert!(close3(&right, &vec3(0.0, 0.0, 0.0)));
    let up = heading_to_cursor(&vec3(640.0, 0.0, 0.0), &viewport, 10, &view());
    assert!(close3(&up, &vec3(0.0, 0.0, 90.0)));
    let down_left = heading_to_cursor(&vec3(0.0, 1000.0, 0.0), &viewport, 10, &view());
    assert!(close3(&down_left, &vec3(0.0, 0.0, -135.0)));
    for (mx, my, zoom) in [(100.0, 200.0, 10u32), (1000.0, 50.0, 15), (641.0, 700.0, 3)] {
        let heading = heading_to_cursor(&vec3(mx, my, 0.0), &viewport, zoom, &view());
        let expected = heading_by_hand(mx, my, 1280, 720, zoom as f32 / 10.0);
        assert!(close3(&heading, &vec3(0.0, 0.0, expected)));
    }
}

#[test]
fn advance_turns_then_moves() {
    let mut scene = Scene::new();
    let hero = scene.add(Transform::new());
    let child = scene.add(Transform::new());
    Transform::translate(&mut scene, hero, &vec3(400.0, 400.0, 0.0));
    Transform::parent(&mut scene, hero, child);
    advance(&mut scene, hero, &vec3(0.0, 0.0, 90.0), &vec3(1.0, 2.0, 0.0));
    let node = scene.get(hero).unwrap();
    assert_eq!(node.rotation, vec3(0.0, 0.0, 90.0));
    assert_eq!(node.position, vec3(401.0, 402.0, 0.0));
    assert_eq!(node.matrix, node.get_local_model_matrix());
    let below = scene.get(child).unwrap();
    assert_eq!(below.matrix, node.matrix * scene.local_matrix(child).unwrap());
}

#[test]
fn update_moves_along_the_axis_the_entity_had() {
    let mut scene = Scene::new();
    let hero = scene.add(Transform::new());
    Transform::translate(&mut scene, hero, &vec3(400.0, 400.0, 0.0));
    let mut clock = Animation::new();
    let mut held = Actions::new();
    held.right = true;
    held.run = true;
    // unturned, the first axis is (0.5, 0, 0): a second at pace 4 covers 200
    update(&mut scene, hero, &mut clock, &held, 1_000_000_000, &vec3(0.0, 0.0, 90.0));
    let node = scene.get(hero).unwrap();
    assert_eq!(node.position, vec3(600.0, 400.0, 0.0));
    assert_eq!(node.rotation, vec3(0.0, 0.0, 90.0));
    assert_eq!(node.flip_x, 1);
    assert_eq!(clock.offset, 200);
    // 66 ms were at hand, 1000 more came: 16 frames of 66 ms, 10 ms left
    assert_eq!(clock.index, 0);
    assert_eq!(clock.elapsed, 10_000_000);
    assert_eq!(node.index, 200);
    // now turned a quarter: the first axis is (0, 0.5, 0)
    held.right = false;
    held.left = true;
    update(&mut scene, hero, &mut clock, &held, 500_000_000, &vec3(0.0, 0.0, 0.0));
    let node = scene.get(hero).unwrap();
    assert!(close3(&node.position, &vec3(600.0, 300.0, 0.0)));
    assert_eq!(node.rotation, vec3(0.0, 0.0, 0.0));
    assert_eq!(node.flip_x, 0);
    assert_eq!(node.matrix, node.get_local_model_matrix());
}

#[test]
fn a_frame_updates_entity_camera_and_records() {
    let viewport = Viewport::new(800, 600);
    let mut scene = Scene::new();
    let hero = scene.add(Transform::new());
    Transform::translate(&mut scene, hero, &vec3(400.0, 400.0, 0.0));
    let mut group = Vec::new();
    for k in 0..3 {
        let id = scene.add(Transform::new());
        Transform::translate(&mut scene, id, &vec3(32.0 * k as f32, 32.0, 0.0));
        group.push(id);
    }
    let mut clock = Animation::new();
    let mut camera = Camera::new(&viewport);
    camera.zoom = 20;
    let mut held = Actions::new();
    held.up = true;
    let cursor = vec3(400.0, 0.0, 0.0);
    let frame = advance_frame(
        &mut scene, hero, &group, &mut clock, &mut camera, &held, &viewport, &cursor, 250_000_000,
    );
    let node = scene.get(hero).unwrap();
    assert_eq!(node.position, vec3(400.0, 425.0, 0.0));
    assert!(close3(&node.rotation, &vec3(0.0, 0.0, 90.0)));
    assert_eq!(node.flip_x, 0);
    // 66 + 250 ms at 100 ms a frame: three frames, 16 ms left
    assert_eq!((clock.index, clock.offset, clock.elapsed), (3, 220, 16_000_000));
    assert_eq!(node.index, 223);
    let expected = nalgebra_glm::ortho_lh(
        400.0 - 800.0,
        400.0 + 800.0,
        425.0 - 600.0,
        425.0 + 600.0,
        0.025,
        1000.0,
    );
    assert_eq!(camera.projection, expected);
    assert_eq!(frame.camera.projection, expected);
    assert_eq!(frame.camera.view, view());
    assert_eq!(frame.controlled.transform, node.matrix);
    assert_eq!(frame.controlled.index, 223);
    assert_eq!(frame.controlled.flip_x, 0);
    assert_eq!(frame.instances.len(), 3);
    for k in 0..3 {
        assert_eq!(frame.instances[k].transform, scene.get(group[k]).unwrap().matrix);
    }
}

#[test]
fn the_rectangle_has_four_corners_and_two_triangles() {
    let (corners, indices) = get_rect(vec3(96.0, 64.0, 0.0));
    assert_eq!(indices, vec![0, 1, 2, 2, 3, 0]);
    assert_eq!(corners.len(), 4);
    assert_eq!(corners[0].position, vec3(96.0, 64.0, 0.0));
    assert_eq!(corners[0].tex_coords, (1, 0));
    assert_eq!(corners[1].position, vec3(-96.0, 64.0, 0.0));
    assert_eq!(corners[1].tex_coords, (0, 0));
    assert_eq!(corners[2].position, vec3(-96.0, -64.0, 0.0));
    assert_eq!(corners[2].tex_coords, (0, 1));
    assert_eq!(corners[3].position, vec3(96.0, -64.0, 0.0));
    assert_eq!(corners[3].tex_coords, (1, 1));
}

#[test]
fn heading_turns_about_z_only() {
    let viewport = Viewport::new(800, 600);
    for (mx, my) in [(400.0, 200.0), (0.0, 0.0), (799.0, 1.0), (13.0, 599.0), (401.0, 300.0)] {
        let heading = heading_to_cursor(&vec3(mx, my, 0.0), &viewport, 10, &view());
        assert_eq!(heading.x, 0.0);
        assert_eq!(heading.y, 0.0);
        assert_eq!(heading.component_mul(&vec3(0.0, 0.0, 1.0)), heading);
    }
}

#[test]
fn cursor_above_the_centre_turns_the_entity_a_quarter() {
    let viewport = Viewport::new(800, 600);
    let cursor = vec3(400.0, 200.0, 0.0);
    for start in [vec3(0.0, 0.0, 0.0), vec3(400.0, 400.0, 0.0), vec3(-70.0, 900.0, 0.0)] {
        let mut scene = Scene::new();
        let hero = scene.add(Transform::new());
        Transform::translate(&mut scene, hero, &start);
        let mut clock = Animation::new();
        let mut camera = Camera::new(&viewport);
        let frame = advance_frame(
            &mut scene, hero, &vec![], &mut clock, &mut camera, &Actions::new(), &viewport,
            &cursor, 16_000_000,
        );
        let rotation = scene.get(hero).unwrap().rotation;
        assert!(close3(&rotation, &vec3(0.0, 0.0, 90.0)));
        assert_eq!(rotation.x, 0.0);
        assert_eq!(rotation.y, 0.0);
        assert_eq!(scene.get(hero).unwrap().position, start);
        assert!(frame.instances.is_empty());
    }
}

#[test]
fn the_camera_follows_the_place_in_the_scene() {
    let viewport = Viewport::new(800, 600);
    let mut scene = Scene::new();
    let cart = scene.add(Transform::new());
    Transform::translate(&mut scene, cart, &vec3(1000.0, 2000.0, 0.0));
    let hero = scene.add(Transform::new());
    Transform::translate(&mut scene, hero, &vec3(1100.0, 2050.0, 0.0));
    Transform::parent(&mut scene, cart, hero);
    assert_eq!(scene.get(hero).unwrap().position, vec3(100.0, 50.0, 0.0));
    let mut clock = Animation::new();
    let mut camera = Camera::new(&viewport);
    camera.zoom = 20;
    let frame = advance_frame(
        &mut scene, hero, &vec![cart], &mut clock, &mut camera, &Actions::new(), &viewport,
        &vec3(800.0, 300.0, 0.0), 16_000_000,
    );
    assert_eq!(scene.get(hero).unwrap().position, vec3(100.0, 50.0, 0.0));
    let expected = nalgebra_glm::ortho_lh(
        1100.0 - 800.0,
        1100.0 + 800.0,
        2050.0 - 600.0,
        2050.0 + 600.0,
        0.025,
        1000.0,
    );
    assert_eq!(camera.projection, expected);
    assert_eq!(frame.camera.projection, expected);
    // the cart's local matrix is as it was
    assert_eq!(
        scene.local_matrix(cart).unwrap(),
        nalgebra_glm::translation(&vec3(1000.0, 2000.0, 0.0))
    );
    assert_eq!(frame.instances[0].transform, scene.local_matrix(cart).unwrap());
}

#[test]
fn the_cast_starts_in_place() {
    let mut scene = Scene::new();
    let hero = place_hero(&mut scene);
    assert_eq!(hero, 0);
    let node = scene.get(hero).unwrap();
    assert_eq!(node.position, vec3(400.0, 400.0, 0.0));
    assert_eq!(node.rotation, vec3(0.0, 0.0, 0.0));
    assert_eq!(node.scale, vec3(1.0, 1.0, 1.0));
    assert_eq!(node.label.as_deref(), Some("transform"));
    assert_eq!((node.index, node.flip_x), (0, 0));
    assert_eq!(node.matrix, nalgebra_glm::translation(&vec3(400.0, 400.0, 0.0)));
    let crowd = seed_crowd(&mut scene);
    assert_eq!(crowd.len(), 100);
    assert_eq!(scene.slot_count(), 101);
    for y in 0..10 {
        for x in 0..10 {
            let k = y * 10 + x;
            assert_eq!(crowd[k], 1 + k);
            let node = scene.get(crowd[k]).unwrap();
            let at = vec3(32.0 + x as f32 * 32.0, 32.0 + y as f32 * 32.0, 0.0);
            assert_eq!(node.position, at);
            assert_eq!(node.label.as_deref(), Some(format!("{}", k).as_str()));
            assert_eq!((node.index, node.flip_x), (0, 0));
            assert_eq!(node.matrix, nalgebra_glm::translation(&at));
            assert_eq!(scene.parent_of(crowd[k]), None);
        }
    }
    assert_eq!(scene.get(crowd[37]).unwrap().position, vec3(256.0, 128.0, 0.0));
    assert_eq!(scene.get(hero).unwrap().position, vec3(400.0, 400.0, 0.0));
}
