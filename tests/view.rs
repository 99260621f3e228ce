use pro_pain_t::geometry::draw_line;
use pro_pain_t::view::{screen_to_canvas, ProjectViewState, MAX_ZOOM_PERCENT, MIN_ZOOM_PERCENT};

#[test]
fn screen_click_resolves_through_zoom_and_pan() {
    assert_eq!(screen_to_canvas(14, 14, 0, 0, 200, 10, 10), (2, 2));
}

#[test]
fn screen_to_canvas_rounds_down() {
    assert_eq!(screen_to_canvas(9, 0, 0, 0, 200, 10, 0), (-1, 0));
    assert_eq!(screen_to_canvas(5, 7, 2, 3, 100, 0, 0), (3, 4));
    assert_eq!(screen_to_canvas(3, 3, 0, 0, 50, 0, 0), (6, 6));
}

#[test]
fn screen_to_canvas_saturates() {
    assert_eq!(screen_to_canvas(i32::MAX, i32::MIN, 0, 0, 5, 0, 0).0, i32::MAX);
    assert_eq!(screen_to_canvas(i32::MAX, i32::MIN, 0, 0, 5, 0, 0).1, i32::MIN);
}

#[test]
fn draw_line_horizontal() {
    assert_eq!(draw_line(0, 0, 3, 0), vec![(0, 0), (1, 0), (2, 0), (3, 0)]);
}

#[test]
fn draw_line_single_point() {
    assert_eq!(draw_line(5, -2, 5, -2), vec![(5, -2)]);
}

#[test]
fn draw_line_steep_and_reversed() {
    assert_eq!(draw_line(0, 0, 1, 3), vec![(0, 0), (0, 1), (1, 2), (1, 3)]);
    assert_eq!(draw_line(3, 1, 0, 0), vec![(3, 1), (2, 1), (1, 0), (0, 0)]);
}

#[test]
fn draw_line_has_no_gaps() {
    let pts = draw_line(-7, 4, 12, -9);
    assert_eq!(pts.first(), Some(&(-7, 4)));
    assert_eq!(pts.last(), Some(&(12, -9)));
    assert_eq!(pts.len(), 20);
    for w in pts.windows(2) {
        assert!((w[0].0 - w[1].0).abs() <= 1 && (w[0].1 - w[1].1).abs() <= 1);
    }
}

#[test]
fn view_centers_only_once() {
    let mut v = ProjectViewState::new();
    assert_eq!(v.ensure_centered_once(800, 600, 100, 50), Some((350, 275)));
    assert_eq!((v.pan_x, v.pan_y), (350, 275));
    v.pan_by(-50, 5);
    assert_eq!(v.ensure_centered_once(800, 600, 100, 50), None);
    assert_eq!((v.pan_x, v.pan_y), (300, 280));
}

#[test]
fn centering_accounts_for_zoom() {
    let mut v = ProjectViewState::new();
    v.set_zoom_percent(200);
    assert_eq!(v.ensure_centered_once(100, 100, 100, 10), Some((-50, 40)));
}

#[test]
fn zoom_is_clamped_and_stepped() {
    let mut v = ProjectViewState::new();
    assert_eq!(v.zoom_percent(), 100);
    v.zoom_in_by_step();
    assert_eq!(v.zoom_percent(), 110);
    v.zoom_out_by_step();
    v.zoom_out_by_step();
    assert_eq!(v.zoom_percent(), 90);
    v.set_zoom_percent(100_000);
    assert_eq!(v.zoom_percent(), MAX_ZOOM_PERCENT);
    v.set_zoom_percent(-3);
    assert_eq!(v.zoom_percent(), MIN_ZOOM_PERCENT);
    v.zoom_out_by_step();
    assert_eq!(v.zoom_percent(), MIN_ZOOM_PERCENT);
    v.reset_zoom_to_100();
    assert_eq!(v.zoom_percent(), 100);
}

#[test]
fn pan_by_saturates() {
    let mut v = ProjectViewState::new();
    v.pan_by(i32::MAX, i32::MIN);
    v.pan_by(10, -10);
    assert_eq!((v.pan_x, v.pan_y), (i32::MAX, i32::MIN));
}
