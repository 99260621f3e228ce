use pro_pain_t::color::Color;
use pro_pain_t::dtos::{ErrorMessage, ExportObjectDto, ImageDto, PathDto, ProjectDto, SaveObjectDto};
use pro_pain_t::error::PaintError;
use pro_pain_t::layer::Layer;
use pro_pain_t::project::Project;

fn white() -> Color {
    Color::new(255, 255, 255, 255)
}

#[test]
fn new_project_has_one_background_layer() {
    let p = Project::new("art".to_string(), 3, 2, white());
    assert_eq!(p.layers.len(), 1);
    assert_eq!(p.layers[0].id, 0);
    assert_eq!(p.next_layer_id, 1);
    assert_eq!(p.layers[0].canvas.content.len(), 6);
    assert_eq!(p.current_color, Color::new(0, 0, 0, 255));
    assert_eq!(p.history.max_count, 10);
}

#[test]
fn layer_ids_are_never_reused() {
    let mut p = Project::new("art".to_string(), 1, 1, white());
    p.add_new_layer();
    p.add_new_layer();
    assert_eq!(p.layers[2].id, 2);
    p.remove_layer(2).unwrap();
    p.add_new_layer();
    assert_eq!(p.layers[2].id, 3);
    assert_eq!(p.next_layer_id, 4);
}

#[test]
fn new_layer_is_visible_and_unlocked() {
    let l = Layer::new(7, "x".to_string(), 2, 2, white());
    assert!(l.is_visible);
    assert!(!l.is_locked);
    assert_eq!(l.id, 7);
}

#[test]
fn find_layer_by_id() {
    let mut p = Project::new("art".to_string(), 1, 1, white());
    p.add_new_layer();
    assert_eq!(p.find_layer(1), Some(1));
    assert_eq!(p.find_layer(9), None);
}

#[test]
fn missing_layer_operations_report_layer_not_found() {
    let mut p = Project::new("art".to_string(), 1, 1, white());
    assert_eq!(p.set_layer_visible(5, false), Err(PaintError::LayerNotFound));
    assert_eq!(p.set_layer_locked(5, true), Err(PaintError::LayerNotFound));
    assert_eq!(p.remove_layer(5), Err(PaintError::LayerNotFound));
    assert_eq!(p.move_layer(5, 0), Err(PaintError::LayerNotFound));
}

#[test]
fn toggles_change_flags() {
    let mut p = Project::new("art".to_string(), 1, 1, white());
    p.set_layer_visible(0, false).unwrap();
    p.set_layer_locked(0, true).unwrap();
    assert!(!p.layers[0].is_visible);
    assert!(p.layers[0].is_locked);
}

#[test]
fn move_layer_reorders() {
    let mut p = Project::new("art".to_string(), 1, 1, white());
    p.add_new_layer();
    p.add_new_layer();
    assert_eq!(p.move_layer(0, 2), Ok(()));
    let ids: Vec<usize> = p.layers.iter().map(|l| l.id).collect();
    assert_eq!(ids, vec![1, 2, 0]);
    assert_eq!(p.move_layer(0, 3), Err(PaintError::OutOfBounds));
}

#[test]
fn resize_canvas_resizes_every_layer() {
    let mut p = Project::new("art".to_string(), 2, 2, white());
    p.add_new_layer();
    p.resize_canvas(3, 1);
    assert_eq!((p.width, p.height), (3, 1));
    for l in &p.layers {
        assert_eq!((l.canvas.width, l.canvas.height), (3, 1));
        assert_eq!(l.canvas.content.len(), 3);
    }
}

#[test]
fn set_current_color_sets_it() {
    let mut p = Project::new("art".to_string(), 1, 1, white());
    p.set_current_color(Color::new(1, 2, 3, 4));
    assert_eq!(p.current_color, Color::new(1, 2, 3, 4));
}

#[test]
fn records_hold_their_values() {
    assert_eq!(ErrorMessage::new("bad".to_string()).message, "bad");
    let img = ImageDto::new(1, 1, vec![1, 2, 3]);
    let e = ExportObjectDto::new("/x.png".to_string(), img);
    assert_eq!(e.path, "/x.png");
    assert_eq!(e.image.raw_data, vec![1, 2, 3]);
    assert_eq!(PathDto::new("/p".to_string()).path, "/p");
    assert_eq!(ProjectDto::new(vec![9]).data, vec![9]);
    let s = SaveObjectDto::new("/s".to_string(), "{}".to_string());
    assert_eq!((s.path.as_str(), s.project_serialized.as_str()), ("/s", "{}"));
}
