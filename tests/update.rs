use fmod_audio::update_camera_position;

#[test]
fn no_listener_means_no_update() {
    let none: Vec<(f32, f32, f32)> = Vec::new();
    assert_eq!(update_camera_position(&none), None);
}

#[test]
fn one_listener_gives_its_position() {
    let one = vec![(1.0f32, 2.0f32, 3.0f32)];
    assert_eq!(update_camera_position(&one), Some((1.0, 2.0, 3.0)));
}

#[test]
fn several_listeners_mean_no_update() {
    let two = vec![(1.0f32, 0.0f32, 0.0f32), (0.0f32, 1.0f32, 0.0f32)];
    assert_eq!(update_camera_position(&two), None);
}
