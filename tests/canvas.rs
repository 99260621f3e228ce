use pro_pain_t::canvas::Canvas;
use pro_pain_t::color::{transparent_color, Color};
use pro_pain_t::error::PaintError;
use pro_pain_t::pixel::Pixel;

fn red() -> Color {
    Color::new(255, 0, 0, 255)
}

fn blue() -> Color {
    Color::new(0, 0, 255, 255)
}

#[test]
fn new_canvas_is_filled_with_background() {
    let c = Canvas::new(3, 2, red());
    assert_eq!(c.width, 3);
    assert_eq!(c.height, 2);
    assert_eq!(c.content.len(), 6);
    assert!(c.content.iter().all(|&p| p == red()));
}

#[test]
fn zero_sized_canvas_is_empty() {
    let c = Canvas::new(0, 5, red());
    assert_eq!(c.content.len(), 0);
}

#[test]
fn set_then_get_pixel() {
    let mut c = Canvas::new(4, 3, red());
    assert_eq!(c.set_pixel(Pixel::new(2, 1, blue())), Ok(()));
    assert_eq!(c.get_pixel(2, 1), Ok(Pixel::new(2, 1, blue())));
    assert_eq!(c.content[1 * 4 + 2], blue());
    assert_eq!(c.get_pixel(1, 2), Ok(Pixel::new(1, 2, red())));
}

#[test]
fn out_of_bounds_access_is_an_error() {
    let mut c = Canvas::new(4, 3, red());
    assert_eq!(c.set_pixel(Pixel::new(4, 0, blue())), Err(PaintError::OutOfBounds));
    assert_eq!(c.set_pixel(Pixel::new(0, 3, blue())), Err(PaintError::OutOfBounds));
    assert_eq!(c.get_pixel(4, 0), Err(PaintError::OutOfBounds));
    assert_eq!(c.get_pixel(0, 3), Err(PaintError::OutOfBounds));
    assert!(c.content.iter().all(|&p| p == red()));
}

#[test]
fn resize_keeps_overlap_and_fills_background() {
    let mut c = Canvas::new(2, 2, red());
    c.set_pixel(Pixel::new(1, 1, blue())).unwrap();
    c.resize(3, 1);
    assert_eq!((c.width, c.height), (3, 1));
    assert_eq!(c.content, vec![red(), red(), red()]);
    let mut d = Canvas::new(2, 2, red());
    d.set_pixel(Pixel::new(1, 1, blue())).unwrap();
    d.resize(3, 3);
    assert_eq!(d.get_pixel(1, 1).unwrap().color, blue());
    assert_eq!(d.get_pixel(2, 2).unwrap().color, red());
    assert_eq!(d.content.len(), 9);
}

#[test]
fn resize_to_same_size_changes_nothing() {
    let mut c = Canvas::new(2, 2, red());
    c.set_pixel(Pixel::new(0, 1, blue())).unwrap();
    let before = c.content.clone();
    c.resize(2, 2);
    assert_eq!(c.content, before);
}

#[test]
fn resize_round_trip_keeps_shared_region() {
    let mut c = Canvas::new(4, 4, red());
    for i in 0..4u32 {
        c.set_pixel(Pixel::new(i, i, Color::new(i as u8, 10, 20, 255))).unwrap();
    }
    let before = c.content.clone();
    c.resize(2, 3);
    c.resize(4, 4);
    for y in 0..3usize {
        for x in 0..2usize {
            assert_eq!(c.content[y * 4 + x], before[y * 4 + x]);
        }
    }
    assert_eq!(c.content[3 * 4 + 3], red());
}

#[test]
fn clear_resets_to_background() {
    let mut c = Canvas::new(2, 2, red());
    c.set_pixel(Pixel::new(0, 0, transparent_color())).unwrap();
    c.clear();
    assert!(c.content.iter().all(|&p| p == red()));
}
