use pro_pain_t::color::Color;
use pro_pain_t::error::PaintError;
use pro_pain_t::history::{History, PixelDiff, StrokeDiff};
use pro_pain_t::pixel::Pixel;
use pro_pain_t::project::Project;

fn c(v: u8) -> Color {
    Color::new(v, v, v, 255)
}

fn stroke(layer_id: usize, v: u8) -> StrokeDiff {
    StrokeDiff::new(
        layer_id,
        vec![PixelDiff { before: Pixel::new(0, 0, c(0)), after: Pixel::new(0, 0, c(v)) }],
    )
}

#[test]
fn undo_moves_newest_stroke_to_redo() {
    let mut h = History::new(10);
    h.add(stroke(0, 1));
    h.add(stroke(0, 2));
    let s = h.undo().unwrap();
    assert_eq!(s.pixels[0].after.color, c(2));
    assert_eq!(h.undo.len(), 1);
    assert_eq!(h.redo.len(), 1);
    let r = h.redo().unwrap();
    assert_eq!(r.pixels[0].after.color, c(2));
    assert_eq!(h.undo.len(), 2);
    assert_eq!(h.redo.len(), 0);
}

#[test]
fn undo_and_redo_on_empty_history_give_nothing() {
    let mut h = History::new(3);
    assert!(h.undo().is_none());
    assert!(h.redo().is_none());
}

#[test]
fn add_empties_redo_queue() {
    let mut h = History::new(10);
    h.add(stroke(0, 1));
    h.add(stroke(0, 2));
    h.undo().unwrap();
    h.undo().unwrap();
    assert_eq!(h.redo.len(), 2);
    h.add(stroke(0, 3));
    assert!(h.redo().is_none());
    assert_eq!(h.undo.len(), 1);
}

#[test]
fn bounded_history_keeps_last_two() {
    let mut h = History::new(2);
    h.add(stroke(0, 1));
    h.add(stroke(0, 2));
    h.add(stroke(0, 3));
    assert_eq!(h.undo().unwrap().pixels[0].after.color, c(3));
    assert_eq!(h.undo().unwrap().pixels[0].after.color, c(2));
    assert!(h.undo().is_none());
}

#[test]
fn duplicate_copies_a_stroke() {
    let s = stroke(4, 9);
    let d = s.duplicate();
    assert_eq!(d.layer_id, 4);
    assert_eq!(d.pixels, s.pixels);
}

fn painted_project() -> Project {
    let mut p = Project::new("doc".to_string(), 2, 2, c(0));
    let diffs = vec![
        PixelDiff { before: Pixel::new(0, 0, c(0)), after: Pixel::new(0, 0, c(7)) },
        PixelDiff { before: Pixel::new(1, 1, c(0)), after: Pixel::new(1, 1, c(8)) },
    ];
    p.layers[0].canvas.set_pixel(Pixel::new(0, 0, c(7))).unwrap();
    p.layers[0].canvas.set_pixel(Pixel::new(1, 1, c(8))).unwrap();
    p.history.add(StrokeDiff::new(0, diffs));
    p
}

#[test]
fn apply_undo_restores_before_pixels() {
    let mut p = painted_project();
    assert_eq!(History::apply_undo(&mut p), Ok(()));
    assert!(p.layers[0].canvas.content.iter().all(|&x| x == c(0)));
    assert_eq!(p.history.redo.len(), 1);
}

#[test]
fn undo_then_redo_restores_canvas() {
    let mut p = painted_project();
    let before = p.layers[0].canvas.content.clone();
    History::apply_undo(&mut p).unwrap();
    History::apply_redo(&mut p).unwrap();
    assert_eq!(p.layers[0].canvas.content, before);
    assert_eq!(p.history.undo.len(), 1);
    assert_eq!(p.history.redo.len(), 0);
}

#[test]
fn apply_on_empty_history_is_empty_history_error() {
    let mut p = Project::new("doc".to_string(), 1, 1, c(0));
    assert_eq!(History::apply_undo(&mut p), Err(PaintError::EmptyHistory));
    assert_eq!(History::apply_redo(&mut p), Err(PaintError::EmptyHistory));
}

#[test]
fn undo_of_deleted_layer_is_skipped() {
    let mut p = Project::new("doc".to_string(), 2, 2, c(0));
    p.add_new_layer();
    p.layers[1].canvas.set_pixel(Pixel::new(0, 0, c(5))).unwrap();
    p.history.add(StrokeDiff::new(
        1,
        vec![PixelDiff { before: Pixel::new(0, 0, c(0)), after: Pixel::new(0, 0, c(5)) }],
    ));
    assert_eq!(p.remove_layer(1), Ok(()));
    let base = p.layers[0].canvas.content.clone();
    assert_eq!(History::apply_undo(&mut p), Ok(()));
    assert_eq!(p.layers[0].canvas.content, base);
    assert_eq!(p.history.undo.len(), 0);
    assert_eq!(p.history.redo.len(), 1);
}
