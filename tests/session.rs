use faraday_art::params::{is_valid_range, ComputeData};
use faraday_art::session::{FrameAction, KeyCommand, Session};
use faraday_art::viewport::{COORD_ONE, MAX_ZOOM_DELTA};

const ONE: i64 = COORD_ONE;

fn clean_session() -> Session {
    let mut s = Session::new();
    let a = s.plan_frame();
    s.frame_done(a);
    s
}

#[test]
fn new_session_owes_one_compute() {
    let s = Session::new();
    assert!(s.recompute_texture);
    assert!(!s.update_compute_data_buffer);
    assert_eq!(s.compute_data.get_x_range(), (-2 * ONE, ONE / 2));
    assert_eq!(s.compute_data.get_y_range(), (-5 * ONE / 4, 5 * ONE / 4));
    assert_eq!(s.compute_data.max_iter, 100);
    assert_eq!(
        s.plan_frame(),
        FrameAction { upload_params: false, run_compute: true, save_image: false }
    );
}

#[test]
fn arrow_keys_pan_by_one_step() {
    let mut s = clean_session();
    let step = 5 * ONE / 2 / 50;
    assert!(!s.key_pressed(KeyCommand::Left));
    assert_eq!(s.compute_data.get_x_range(), (-2 * ONE - step, ONE / 2 - step));
    assert!(s.update_compute_data_buffer && s.recompute_texture);
    s.key_pressed(KeyCommand::Right);
    assert_eq!(s.compute_data.get_x_range(), (-2 * ONE, ONE / 2));
    s.key_pressed(KeyCommand::Up);
    assert_eq!(s.compute_data.get_y_range(), (-5 * ONE / 4 + step, 5 * ONE / 4 + step));
    s.key_pressed(KeyCommand::Down);
    assert_eq!(s.compute_data.get_y_range(), (-5 * ONE / 4, 5 * ONE / 4));
}

#[test]
fn zoom_keys_zoom_around_centre() {
    let mut s = clean_session();
    s.key_pressed(KeyCommand::ZoomIn);
    let (x0, x1) = s.compute_data.get_x_range();
    assert!(x1 - x0 < 5 * ONE / 2);
    let centre = (x0 + x1) / 2;
    assert!((centre - (-3 * ONE / 4)).abs() <= 2);
    assert!(s.recompute_texture && s.update_compute_data_buffer);
    s.key_pressed(KeyCommand::ZoomOut);
    let (y0, y1) = s.compute_data.get_y_range();
    let step = 10 * s.state.zoom_speed;
    let expected = (5 * ONE / 2) as f64 * ((ONE - step) as f64 / ONE as f64)
        * ((ONE + step) as f64 / ONE as f64);
    assert!(((y1 - y0) as f64 - expected).abs() < 4.0);
}

#[test]
fn other_keys_set_requests() {
    let mut s = clean_session();
    assert!(s.key_pressed(KeyCommand::Quit));
    assert!(!s.recompute_texture);
    s.key_pressed(KeyCommand::Save);
    assert!(s.state.save_image);
    s.key_pressed(KeyCommand::Recompute);
    assert!(s.recompute_texture && !s.update_compute_data_buffer);
    assert!(!s.key_pressed(KeyCommand::Other));
}

#[test]
fn wheel_zooms_around_mouse() {
    let mut s = clean_session();
    s.mouse_moved((-2 * ONE, -2 * ONE), (4 * ONE, 4 * ONE));
    assert_eq!(s.state.mouse_pos, (0, 0));
    s.mouse_wheel(ONE);
    let (x0, x1) = s.compute_data.get_x_range();
    assert_eq!(x0, -2 * ONE);
    assert!(x1 > ONE / 2);
    assert!(s.recompute_texture);
}

#[test]
fn zoom_below_minimum_width_is_refused() {
    let mut s = clean_session();
    s.compute_data.x_range = (0, MAX_ZOOM_DELTA);
    s.mouse_wheel(-100 * ONE);
    assert_eq!(s.compute_data.get_x_range(), (0, MAX_ZOOM_DELTA));
    assert!(!s.recompute_texture && !s.update_compute_data_buffer);
    assert!(!is_valid_range((0, MAX_ZOOM_DELTA - 1)));
    let mut d = ComputeData::default();
    d.update_x_range((5, 4));
    assert_eq!(d.get_x_range(), (-2 * ONE, ONE / 2));
    d.update_y_range((0, 3 * ONE));
    assert_eq!(d.get_y_range(), (0, 3 * ONE));
}

#[test]
fn drag_pans_by_relative_motion() {
    let mut s = clean_session();
    s.mouse_moved((0, 0), (4 * ONE, 4 * ONE));
    assert_eq!(s.state.mouse_pos, (ONE / 2, ONE / 2));
    s.mouse_moved((ONE, 0), (4 * ONE, 4 * ONE));
    assert_eq!(s.compute_data.get_x_range(), (-2 * ONE, ONE / 2));
    s.mouse_pressed();
    assert!(s.state.dragging);
    s.mouse_moved((2 * ONE, 0), (4 * ONE, 4 * ONE));
    let shift = 5 * ONE / 8;
    assert_eq!(s.compute_data.get_x_range(), (-2 * ONE - shift, ONE / 2 - shift));
    assert_eq!(s.compute_data.get_y_range(), (-5 * ONE / 4, 5 * ONE / 4));
    assert_eq!(s.state.prev_drag_pos, (ONE, ONE / 2));
    s.mouse_released();
    assert!(!s.state.dragging);
    s.mouse_moved((0, 0), (0, 4 * ONE));
    assert_eq!(s.state.mouse_pos, (ONE, ONE / 2));
}

#[test]
fn flags_clear_only_for_work_done() {
    let mut s = clean_session();
    assert_eq!(
        s.plan_frame(),
        FrameAction { upload_params: false, run_compute: false, save_image: false }
    );
    s.set_max_iter(500);
    let a = s.plan_frame();
    assert_eq!(a, FrameAction { upload_params: true, run_compute: true, save_image: false });
    s.frame_done(FrameAction { upload_params: false, run_compute: true, save_image: false });
    assert!(s.update_compute_data_buffer);
    assert!(!s.recompute_texture);
    s.frame_done(a);
    assert!(!s.update_compute_data_buffer);
    s.state.continuous_compute = true;
    assert!(s.plan_frame().run_compute);
    assert!(!s.plan_frame().upload_params);
}

#[test]
fn unchanged_parameters_stay_clean() {
    let mut s = clean_session();
    s.set_max_iter(100);
    s.set_dt(s.compute_data.dt);
    s.set_mu(s.compute_data.mu);
    assert!(!s.recompute_texture && !s.update_compute_data_buffer);
    s.set_dt(ONE / 2);
    assert_eq!(s.compute_data.dt, ONE / 2);
    assert!(s.recompute_texture && s.update_compute_data_buffer);
    s.frame_done(s.plan_frame());
    s.set_mu(ONE);
    assert_eq!(s.compute_data.mu, ONE);
    assert!(s.update_compute_data_buffer);
    s.frame_done(s.plan_frame());
    s.resized();
    assert!(s.recompute_texture && !s.update_compute_data_buffer);
}
