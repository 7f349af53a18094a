use pongi::draw::{line_indices, quad_indices, quad_indices_for_quad, DrawMode, DrawSpace, FramebufferInfo, FramebufferTarget, TextureArrayInfo};
use pongi::math::clamp_integer;
use pongi::timer::Timer;

#[test]
fn mesh_indices() {
    assert_eq!(line_indices(6), [6, 7]);
    assert_eq!(quad_indices(8), [8, 9, 10, 10, 11, 8]);
    assert_eq!(quad_indices_for_quad(2), [8, 9, 10, 10, 11, 8]);
}

#[test]
fn clamping_integers() {
    assert_eq!(clamp_integer(5, 0, 3), 3);
    assert_eq!(clamp_integer(-5, 0, 3), 0);
    assert_eq!(clamp_integer(2, 0, 3), 2);
    assert_eq!(clamp_integer(2, 2, 2), 2);
}

#[test]
fn empty_framebuffer_info() {
    let info = FramebufferInfo::empty();
    assert_eq!(info.id, 0);
    assert_eq!(info.width, 0);
    assert_eq!(info.height, 0);
    assert_eq!(info.name, "");
    let target = FramebufferTarget::Offscreen(info.clone());
    assert!(matches!(target, FramebufferTarget::Offscreen(_)));
    let tex = TextureArrayInfo { id: 1, width: 2, height: 3, num_textures: 4, name: String::from("atlas") };
    assert_eq!(tex.clone(), tex);
    assert_ne!(DrawSpace::World, DrawSpace::Canvas);
    assert_ne!(DrawMode::Lines, DrawMode::Fill);
}

#[test]
fn timer_measures_from_reset() {
    let mut timer = Timer::new();
    let first = timer.start_time;
    timer.reset();
    assert!(timer.start_time >= first);
}
