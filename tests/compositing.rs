use pro_pain_t::color::{transparent_color, Color};
use pro_pain_t::composite::{blend, composite_layers};
use pro_pain_t::layer::Layer;
use pro_pain_t::pixel::Pixel;
use pro_pain_t::render::{generate_checkerboard, has_transparency};

fn layer(id: usize, w: u32, h: u32, bg: Color) -> Layer {
    Layer::new(id, format!("layer {}", id), w, h, bg)
}

#[test]
fn empty_layer_list_gives_empty_image() {
    let (bytes, w, h) = composite_layers(&[]);
    assert!(bytes.is_empty());
    assert_eq!((w, h), (0, 0));
}

#[test]
fn zero_size_canvas_gives_empty_image() {
    let (bytes, w, h) = composite_layers(&[layer(0, 0, 3, Color::new(1, 2, 3, 255))]);
    assert!(bytes.is_empty());
    assert_eq!((w, h), (0, 3));
}

#[test]
fn single_opaque_layer_flattens_to_its_bytes() {
    let mut l = layer(0, 2, 1, Color::new(10, 20, 30, 255));
    l.canvas.set_pixel(Pixel::new(1, 0, Color::new(1, 2, 3, 255))).unwrap();
    let (bytes, w, h) = composite_layers(&[l]);
    assert_eq!((w, h), (2, 1));
    assert_eq!(bytes, vec![10, 20, 30, 255, 1, 2, 3, 255]);
}

#[test]
fn blend_opaque_source_wins() {
    let d = Color::new(200, 100, 50, 128);
    let s = Color::new(1, 2, 3, 255);
    assert_eq!(blend(d, s), s);
}

#[test]
fn blend_transparent_source_keeps_destination() {
    let d = Color::new(200, 100, 50, 128);
    assert_eq!(blend(d, transparent_color()), d);
}

#[test]
fn blend_both_transparent_is_transparent_black() {
    assert_eq!(blend(Color::new(9, 9, 9, 0), Color::new(7, 7, 7, 0)), transparent_color());
}

#[test]
fn blend_half_alpha_over_opaque() {
    // a = 128*255 + 255*127 = 65025; r = (255*128*255 + 0) / 65025 = 128
    let d = Color::new(0, 0, 255, 255);
    let s = Color::new(255, 0, 0, 128);
    assert_eq!(blend(d, s), Color::new(128, 0, 127, 255));
}

#[test]
fn blend_half_alpha_over_transparent() {
    // a = 128*255 = 32640; r = 255*128*255 / 32640 = 255; alpha = 32640 / 255 = 128
    let s = Color::new(255, 0, 0, 128);
    assert_eq!(blend(transparent_color(), s), Color::new(255, 0, 0, 128));
}

#[test]
fn invisible_layers_do_not_change_the_composite() {
    let bg = Color::new(5, 6, 7, 255);
    let mut hidden = layer(0, 2, 2, bg);
    hidden.canvas.set_pixel(Pixel::new(0, 0, Color::new(255, 0, 0, 255))).unwrap();
    hidden.is_visible = false;
    let mut hidden2 = layer(2, 2, 2, bg);
    hidden2.canvas.set_pixel(Pixel::new(1, 1, Color::new(0, 255, 0, 200))).unwrap();
    hidden2.is_visible = false;
    let mut shown = layer(1, 2, 2, bg);
    shown.canvas.set_pixel(Pixel::new(1, 0, Color::new(0, 0, 255, 100))).unwrap();
    let mut shown_alone = layer(1, 2, 2, bg);
    shown_alone.canvas.set_pixel(Pixel::new(1, 0, Color::new(0, 0, 255, 100))).unwrap();
    let stacked = composite_layers(&[hidden, shown, hidden2]);
    let alone = composite_layers(&[shown_alone]);
    assert_eq!(stacked, alone);
}

#[test]
fn opaque_top_layer_hides_everything_below() {
    let mut bottom = layer(0, 2, 1, Color::new(1, 1, 1, 255));
    bottom.canvas.set_pixel(Pixel::new(0, 0, Color::new(9, 9, 9, 30))).unwrap();
    let mut top = layer(1, 2, 1, Color::new(50, 60, 70, 255));
    top.canvas.set_pixel(Pixel::new(1, 0, Color::new(80, 90, 100, 255))).unwrap();
    let (bytes, _, _) = composite_layers(&[bottom, top]);
    assert_eq!(bytes, vec![50, 60, 70, 255, 80, 90, 100, 255]);
}

#[test]
fn layers_blend_in_order() {
    let bottom = layer(0, 1, 1, Color::new(0, 0, 255, 255));
    let top = layer(1, 1, 1, Color::new(255, 0, 0, 128));
    let (bytes, _, _) = composite_layers(&[bottom, top]);
    assert_eq!(bytes, vec![128, 0, 127, 255]);
}

#[test]
fn checkerboard_alternates_tiles() {
    let px = generate_checkerboard(4, 2, 2);
    assert_eq!(px.len(), 32);
    let level = |x: usize, y: usize| px[(y * 4 + x) * 4];
    assert_eq!(level(0, 0), 0xe0);
    assert_eq!(level(1, 1), 0xe0);
    assert_eq!(level(2, 0), 0xb0);
    assert_eq!(level(3, 1), 0xb0);
    assert!(px.chunks(4).all(|c| c[0] == c[1] && c[1] == c[2] && c[3] == 255));
}

#[test]
fn transparency_is_detected_per_whole_pixel() {
    assert!(!has_transparency(&[1, 2, 3, 255, 4, 5, 6, 255]));
    assert!(has_transparency(&[1, 2, 3, 255, 4, 5, 6, 254]));
    assert!(!has_transparency(&[1, 2, 3, 255, 0, 0]));
    assert!(!has_transparency(&[]));
}
