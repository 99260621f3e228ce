use pro_pain_t::canvas::Canvas;
use pro_pain_t::color::{transparent_color, Color};
use pro_pain_t::history::PixelDiff;
use pro_pain_t::project::Project;
use pro_pain_t::tools::brush::{BrushState, EraserState};
use pro_pain_t::tools::bucket::{flood_fill, BucketState};
use pro_pain_t::tools::context::{PointerInput, ToolContext};
use pro_pain_t::tools::eyedropper::EyedropperState;
use pro_pain_t::tools::line::LineState;
use pro_pain_t::tools::pan::{PanAction, PanOffset, PanTool};
use pro_pain_t::tools::pen::PenState;
use pro_pain_t::tools::{Tool, WorkspaceState};

fn ctx(zoom_percent: u32) -> ToolContext {
    ToolContext {
        origin_x: 0,
        origin_y: 0,
        zoom_percent,
        pan_x: 0,
        pan_y: 0,
        selected_layer: Some(0),
        brush_size: 0,
    }
}

fn at(x: i32, y: i32) -> PointerInput {
    PointerInput { pointer_id: 1, button: 0, client_x: x, client_y: y }
}

fn red() -> Color {
    Color::new(255, 0, 0, 255)
}

fn blue() -> Color {
    Color::new(0, 0, 255, 255)
}

fn black() -> Color {
    Color::new(0, 0, 0, 255)
}

#[test]
fn bucket_fills_uniform_canvas_in_one_stroke() {
    let mut p = Project::new("b".to_string(), 4, 4, red());
    p.set_current_color(blue());
    let mut b = BucketState::new();
    let c = ctx(100);
    b.on_pointer_down();
    b.on_pointer_up(&at(0, 0), &c, &mut p);
    assert!(p.layers[0].canvas.content.iter().all(|&x| x == blue()));
    assert_eq!(p.history.undo.len(), 1);
    let s = &p.history.undo[0];
    assert_eq!(s.layer_id, 0);
    assert_eq!(s.pixels.len(), 16);
    assert!(s.pixels.iter().all(|d| d.before.color == red() && d.after.color == blue()));
    assert!(b.current_stroke.is_empty());
}

#[test]
fn bucket_with_same_color_records_nothing() {
    let mut p = Project::new("b".to_string(), 2, 2, red());
    p.set_current_color(red());
    let mut b = BucketState::new();
    b.on_pointer_up(&at(0, 0), &ctx(100), &mut p);
    assert_eq!(p.history.undo.len(), 0);
}

#[test]
fn bucket_outside_canvas_is_a_no_op() {
    let mut p = Project::new("b".to_string(), 2, 2, red());
    p.set_current_color(blue());
    let mut b = BucketState::new();
    b.on_pointer_up(&at(5, 0), &ctx(100), &mut p);
    b.on_pointer_up(&at(-1, 0), &ctx(100), &mut p);
    assert!(p.layers[0].canvas.content.iter().all(|&x| x == red()));
    assert_eq!(p.history.undo.len(), 0);
}

#[test]
fn bucket_on_locked_layer_does_nothing() {
    let mut p = Project::new("b".to_string(), 2, 2, red());
    p.set_current_color(blue());
    p.set_layer_locked(0, true).unwrap();
    let mut b = BucketState::new();
    b.on_pointer_up(&at(0, 0), &ctx(100), &mut p);
    assert!(p.layers[0].canvas.content.iter().all(|&x| x == red()));
}

#[test]
fn flood_fill_stays_inside_its_region() {
    // 3x3: a blue wall down the middle column splits the red cells.
    let mut c = Canvas::new(3, 3, red());
    for y in 0..3 {
        c.content[y * 3 + 1] = blue();
    }
    let mut diffs: Vec<PixelDiff> = Vec::new();
    flood_fill(&mut c, 0, 0, black(), &mut diffs);
    for y in 0..3 {
        assert_eq!(c.content[y * 3], black());
        assert_eq!(c.content[y * 3 + 1], blue());
        assert_eq!(c.content[y * 3 + 2], red());
    }
    assert_eq!(diffs.len(), 3);
    let mut cells: Vec<(u32, u32)> = diffs.iter().map(|d| (d.after.x, d.after.y)).collect();
    cells.sort();
    cells.dedup();
    assert_eq!(cells, vec![(0, 0), (0, 1), (0, 2)]);
}

#[test]
fn flood_fill_is_four_connected() {
    // Diagonal neighbours are not joined.
    let mut c = Canvas::new(2, 2, red());
    c.content[1] = blue();
    c.content[2] = blue();
    let mut diffs: Vec<PixelDiff> = Vec::new();
    flood_fill(&mut c, 0, 0, black(), &mut diffs);
    assert_eq!(c.content, vec![black(), blue(), blue(), red()]);
    assert_eq!(diffs.len(), 1);
}

#[test]
fn pen_stroke_records_each_new_cell_once() {
    let mut p = Project::new("p".to_string(), 4, 4, transparent_color());
    let mut pen = PenState::new();
    let c = ctx(100);
    pen.on_pointer_down();
    pen.on_pointer_move(&at(0, 0), &c, &mut p);
    pen.on_pointer_move(&at(3, 0), &c, &mut p);
    pen.on_pointer_up(&c, &mut p);
    assert_eq!(p.history.undo.len(), 1);
    let s = &p.history.undo[0];
    let cells: Vec<(u32, u32)> = s.pixels.iter().map(|d| (d.after.x, d.after.y)).collect();
    assert_eq!(cells, vec![(0, 0), (1, 0), (2, 0), (3, 0)]);
    assert!(s.pixels.iter().all(|d| d.before.color.alpha == 0 && d.after.color == black()));
    assert!(pen.current_stroke.is_empty());
}

#[test]
fn pen_click_that_changes_nothing_records_nothing() {
    let mut p = Project::new("p".to_string(), 2, 2, black());
    let mut pen = PenState::new();
    let c = ctx(100);
    pen.on_pointer_down();
    pen.on_pointer_move(&at(1, 1), &c, &mut p);
    pen.on_pointer_up(&c, &mut p);
    assert_eq!(p.history.undo.len(), 0);
}

#[test]
fn pen_without_press_does_not_draw() {
    let mut p = Project::new("p".to_string(), 2, 2, transparent_color());
    let mut pen = PenState::new();
    pen.on_pointer_move(&at(1, 1), &ctx(100), &mut p);
    assert!(p.layers[0].canvas.content.iter().all(|&x| x == transparent_color()));
}

#[test]
fn pen_uses_the_view_transform() {
    let mut p = Project::new("p".to_string(), 4, 4, transparent_color());
    let mut pen = PenState::new();
    let mut c = ctx(200);
    c.pan_x = 10;
    c.pan_y = 10;
    pen.on_pointer_down();
    pen.on_pointer_move(&at(14, 14), &c, &mut p);
    assert_eq!(p.layers[0].canvas.content[2 * 4 + 2], black());
}

#[test]
fn brush_stamps_a_round_tip() {
    let mut p = Project::new("p".to_string(), 5, 5, transparent_color());
    let mut brush = BrushState::new();
    let c = ctx(100);
    brush.on_pointer_down(&at(2, 2), &c, &mut p);
    brush.on_pointer_up(&c, &mut p);
    // brush size 0 gives radius 1: the centre and its four edge neighbours.
    let painted: Vec<usize> = (0..25).filter(|&i| p.layers[0].canvas.content[i] == black()).collect();
    assert_eq!(painted, vec![7, 11, 12, 13, 17]);
    assert_eq!(p.history.undo[0].pixels.len(), 5);
}

#[test]
fn eraser_clears_to_transparent() {
    let mut p = Project::new("p".to_string(), 3, 3, red());
    let mut eraser = EraserState::new();
    let c = ctx(100);
    eraser.on_pointer_down(&at(1, 1), &c, &mut p);
    eraser.on_pointer_up(&c, &mut p);
    assert_eq!(p.layers[0].canvas.content[4], transparent_color());
    assert_eq!(p.layers[0].canvas.content[0], red());
    assert_eq!(p.history.undo[0].pixels.len(), 5);
}

#[test]
fn line_tool_draws_between_two_clicks() {
    let mut p = Project::new("p".to_string(), 4, 4, transparent_color());
    let mut line = LineState::new();
    let c = ctx(100);
    line.on_pointer_down(&at(0, 0), &c, &mut p);
    assert_eq!(line.start_point, Some((0, 0)));
    line.on_pointer_down(&at(3, 3), &c, &mut p);
    assert_eq!(line.start_point, None);
    for i in 0..4 {
        assert_eq!(p.layers[0].canvas.content[i * 4 + i], black());
    }
    assert_eq!(p.history.undo.len(), 1);
    assert_eq!(p.history.undo[0].pixels.len(), 4);
}

#[test]
fn eyedropper_picks_color() {
    let mut p = Project::new("p".to_string(), 2, 2, red());
    let mut e = EyedropperState::new();
    e.on_pointer_down(&at(1, 0), &ctx(100), &mut p);
    assert_eq!(p.current_color, red());
    assert_eq!(p.history.undo.len(), 0);
}

#[test]
fn pan_tool_reports_deltas_for_its_pointer() {
    let mut t = PanTool::new();
    assert_eq!(t.cursor(), "grab");
    assert_eq!(t.on_pointer_down(2, 1, 0, 0), None);
    assert_eq!(t.on_pointer_down(0, 1, 10, 10), Some(PanAction::Started));
    assert_eq!(t.cursor(), "grabbing");
    assert_eq!(t.on_pointer_move(2, 20, 20), None);
    assert_eq!(t.on_pointer_move(1, 13, 6), Some(PanAction::Delta { dx: 3, dy: -4 }));
    assert_eq!(t.on_pointer_move(1, 13, 6), None);
    assert_eq!(t.on_pointer_up(2), None);
    assert_eq!(t.on_pointer_up(1), Some(PanAction::Stopped));
    assert!(!t.is_panning());
}

#[test]
fn pan_offset_saturates() {
    let mut o = PanOffset::new(i32::MAX - 1, 0);
    o.translate_by(5, -3);
    assert_eq!(o, PanOffset::new(i32::MAX, -3));
}

#[test]
fn tool_dispatch_reaches_the_active_tool() {
    let mut p = Project::new("p".to_string(), 2, 2, transparent_color());
    let mut tool = Tool::Pen(PenState::new());
    let c = ctx(100);
    assert!(!tool.is_pan());
    assert_eq!(tool.cursor(), "default");
    assert_eq!(tool.on_pointer_down(&at(0, 0), &c, &mut p), None);
    tool.on_pointer_move(&at(1, 1), &c, &mut p);
    tool.on_pointer_up(&at(1, 1), &c, &mut p);
    assert_eq!(p.layers[0].canvas.content[3], black());
    assert_eq!(p.history.undo.len(), 1);
    tool.on_pointer_cancel();
    let pan = Tool::Pan(PanTool::new());
    assert!(pan.is_pan());
    assert_eq!(Tool::Bucket(BucketState::new()).cursor(), "cell");
    assert_eq!(Tool::EyeDropper(EyedropperState::new()).cursor(), "copy");
}

#[test]
fn workspace_starts_with_pen_on_bottom_layer() {
    let w = WorkspaceState::new();
    assert_eq!(w.selected_layer_id, Some(0));
    assert_eq!(w.current_tool.cursor(), "default");
}

#[test]
fn tools_skip_missing_and_hidden_layers() {
    let mut p = Project::new("p".to_string(), 3, 3, transparent_color());
    let mut missing = ctx(100);
    missing.selected_layer = Some(9);
    let mut pen = PenState::new();
    pen.on_pointer_down();
    pen.on_pointer_move(&at(1, 1), &missing, &mut p);
    pen.on_pointer_up(&missing, &mut p);
    assert!(p.layers[0].canvas.content.iter().all(|&x| x == transparent_color()));
    p.set_layer_visible(0, false).unwrap();
    let mut brush = BrushState::new();
    brush.on_pointer_down(&at(1, 1), &ctx(100), &mut p);
    brush.on_pointer_up(&ctx(100), &mut p);
    assert!(p.layers[0].canvas.content.iter().all(|&x| x == transparent_color()));
    assert_eq!(p.history.undo.len(), 0);
}

#[test]
fn cancel_drops_pending_stroke() {
    let mut p = Project::new("p".to_string(), 3, 3, transparent_color());
    let mut pen = PenState::new();
    let c = ctx(100);
    pen.on_pointer_down();
    pen.on_pointer_move(&at(1, 1), &c, &mut p);
    pen.cancel();
    pen.on_pointer_up(&c, &mut p);
    assert_eq!(p.history.undo.len(), 0);
    assert!(!pen.is_drawing);
}

#[test]
fn large_brush_covers_the_canvas() {
    let mut p = Project::new("p".to_string(), 3, 3, transparent_color());
    let mut brush = BrushState::new();
    let mut c = ctx(100);
    c.brush_size = 100;
    brush.on_pointer_down(&at(1, 1), &c, &mut p);
    assert!(p.layers[0].canvas.content.iter().all(|&x| x == black()));
}

#[test]
fn brush_too_large_for_memory_draws_nothing() {
    let mut p = Project::new("p".to_string(), 3, 3, transparent_color());
    let mut brush = BrushState::new();
    let mut c = ctx(100);
    c.brush_size = u32::MAX;
    brush.on_pointer_down(&at(1, 1), &c, &mut p);
    assert!(p.layers[0].canvas.content.iter().all(|&x| x == transparent_color()));
}

#[test]
fn eyedropper_cancel_changes_nothing() {
    let mut e = EyedropperState::new();
    e.cancel();
    let mut tool = Tool::EyeDropper(e);
    tool.on_pointer_cancel();
    assert_eq!(tool.cursor(), "copy");
}
