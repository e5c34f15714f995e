use nalgebra_glm::{vec3, Mat4};
use tile_scene::camera::{Camera, CameraUniform, ZOOM_ONE};
use tile_scene::input::Key;
use tile_scene::viewport::Viewport;

#[test]
fn camera_uniform_holds_projection_and_view() {
    let mut camera = CameraUniform::new();
    assert_eq!(camera.projection, Mat4::identity());
    assert_eq!(camera.view, Mat4::identity());
    let projection = nalgebra_glm::ortho_lh(-700.0, 900.0, -550.0, 650.0, 0.025, 1000.0);
    let view = nalgebra_glm::look_at_lh(
        &vec3(0.0, 0.0, -1.0),
        &vec3(0.0, 0.0, 0.0),
        &vec3(0.0, 1.0, 0.0),
    );
    camera.update(projection, view);
    assert_eq!(camera.projection, projection);
    assert_eq!(camera.view, view);
}

#[test]
fn camera_starts_over_the_viewport() {
    let camera = Camera::new(&Viewport::new(1280, 720));
    assert_eq!(camera.zoom, 10);
    assert_eq!(ZOOM_ONE, 10);
    assert_eq!(camera.projection, nalgebra_glm::ortho_lh(0.0, 1280.0, 0.0, 720.0, 0.025, 1000.0));
    assert_eq!(
        camera.view,
        nalgebra_glm::look_at_lh(&vec3(0.0, 0.0, -1.0), &vec3(0.0, 0.0, 0.0), &vec3(0.0, 1.0, 0.0))
    );
}

#[test]
fn projection_bounds_follow_position_viewport_and_zoom() {
    let viewport = Viewport::new(800, 600);
    let mut camera = Camera::new(&viewport);
    let view = camera.view;
    camera.zoom = 20;
    camera.follow(&vec3(100.0, 50.0, 0.0), &viewport);
    let expected = nalgebra_glm::ortho_lh(
        100.0 - 800.0,
        100.0 + 800.0,
        50.0 - 600.0,
        50.0 + 600.0,
        0.025,
        1000.0,
    );
    assert_eq!(camera.projection, expected);
    assert_eq!(camera.view, view);
    assert_eq!(camera.zoom, 20);
    // the bounds, read back from the matrix
    let m = camera.projection;
    let width = 2.0 / m[(0, 0)];
    let middle = -m[(0, 3)] * width / 2.0;
    assert!((middle - width / 2.0 - (100.0 - 800.0)).abs() < 1e-3);
    assert!((middle + width / 2.0 - (100.0 + 800.0)).abs() < 1e-3);
    let height = 2.0 / m[(1, 1)];
    let centre = -m[(1, 3)] * height / 2.0;
    assert!((centre - height / 2.0 - (50.0 - 600.0)).abs() < 1e-3);
    assert!((centre + height / 2.0 - (50.0 + 600.0)).abs() < 1e-3);
    let uniform = camera.uniform();
    assert_eq!(uniform.projection, expected);
    assert_eq!(uniform.view, view);
}

#[test]
fn projection_at_zoom_one_and_a_half() {
    let viewport = Viewport::new(1280, 720);
    let mut camera = Camera::new(&viewport);
    camera.zoom = 15;
    camera.follow(&vec3(400.0, 400.0, 0.0), &viewport);
    let expected = nalgebra_glm::ortho_lh(
        400.0 - 960.0,
        400.0 + 960.0,
        400.0 - 540.0,
        400.0 + 540.0,
        0.025,
        1000.0,
    );
    assert_eq!(camera.projection, expected);
}

#[test]
fn zoom_stops_at_nothing() {
    let mut camera = Camera::new(&Viewport::new(800, 600));
    camera.zoom_in();
    assert_eq!(camera.zoom, 11);
    camera.zoom_out();
    camera.zoom_out();
    assert_eq!(camera.zoom, 9);
    camera.zoom = 1;
    camera.zoom_out();
    assert_eq!(camera.zoom, 0);
    camera.zoom_out();
    assert_eq!(camera.zoom, 0);
    camera.zoom = u32::MAX;
    camera.zoom_in();
    assert_eq!(camera.zoom, u32::MAX);
}

#[test]
fn r_and_f_zoom() {
    let mut camera = Camera::new(&Viewport::new(800, 600));
    let projection = camera.projection;
    camera.press(Key::F);
    camera.press(Key::F);
    assert_eq!(camera.zoom, 12);
    camera.press(Key::R);
    assert_eq!(camera.zoom, 11);
    camera.press(Key::W);
    camera.press(Key::Other);
    assert_eq!(camera.zoom, 11);
    assert_eq!(camera.projection, projection);
    camera.zoom = 0;
    camera.press(Key::R);
    assert_eq!(camera.zoom, 0);
}

#[test]
fn viewport_passes_over_an_empty_size() {
    let mut viewport = Viewport::new(1280, 720);
    assert!(!viewport.resize(0, 600));
    assert_eq!(viewport, Viewport { width: 1280, height: 720 });
    assert!(!viewport.resize(800, 0));
    assert!(!viewport.resize(0, 0));
    assert_eq!(viewport, Viewport { width: 1280, height: 720 });
    assert!(viewport.resize(800, 600));
    assert_eq!(viewport, Viewport { width: 800, height: 600 });
    assert!(viewport.resize(1, 1));
    assert_eq!((viewport.width, viewport.height), (1, 1));
}
