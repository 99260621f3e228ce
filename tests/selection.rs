use pro_pain_t::color::{transparent_color, Color};
use pro_pain_t::history::History;
use pro_pain_t::layer::Layer;
use pro_pain_t::project::Project;
use pro_pain_t::tools::context::{PointerInput, ToolContext};
use pro_pain_t::tools::pen::PenState;
use pro_pain_t::tools::select::{
    apply_buffer, clear_rect, cursor_for_handle, extract_buffer_from_layer, handle_at, resize_rect,
    scale_buffer, ResizeHandle, SelectionBuffer, SelectionRect,
};
use pro_pain_t::tools::select_state::{SelectMode, SelectState};
use pro_pain_t::tools::selection::{commit_selection, cut_buffer, SelectionState};
use pro_pain_t::tools::{Tool, WorkspaceState};

fn shade(i: usize) -> Color {
    Color::new(i as u8 * 10, 1, 2, 255)
}

/// A 4x4 project whose cells all differ.
fn patterned() -> Project {
    let mut p = Project::new("s".to_string(), 4, 4, transparent_color());
    for i in 0..16 {
        p.layers[0].canvas.content[i] = shade(i);
    }
    p
}

/// At 3200% zoom one canvas cell is 32 screen pixels and the grip
/// tolerance is under one cell.
fn ctx() -> ToolContext {
    ToolContext {
        origin_x: 0,
        origin_y: 0,
        zoom_percent: 3200,
        pan_x: 0,
        pan_y: 0,
        selected_layer: Some(0),
        brush_size: 0,
    }
}

fn cell(x: i32, y: i32) -> PointerInput {
    PointerInput { pointer_id: 7, button: 0, client_x: x * 32 + 1, client_y: y * 32 + 1 }
}

#[test]
fn rect_from_points_is_normalized() {
    let r = SelectionRect::from_points((3, 1), (1, 4));
    assert_eq!(r, SelectionRect { x: 1, y: 1, w: 3, h: 4 });
    assert!(r.contains(1, 1));
    assert!(r.contains(3, 4));
    assert!(!r.contains(4, 4));
    assert!(!r.is_empty());
    assert!(SelectionRect { x: 0, y: 0, w: 0, h: 3 }.is_empty());
}

#[test]
fn resize_rect_moves_grabbed_edges_only() {
    let r = SelectionRect { x: 2, y: 2, w: 4, h: 4 };
    assert_eq!(resize_rect(r, ResizeHandle::Se, 1, 2), SelectionRect { x: 2, y: 2, w: 5, h: 6 });
    assert_eq!(resize_rect(r, ResizeHandle::Nw, -1, 1), SelectionRect { x: 1, y: 3, w: 5, h: 3 });
    assert_eq!(resize_rect(r, ResizeHandle::E, 3, 9), SelectionRect { x: 2, y: 2, w: 7, h: 4 });
}

#[test]
fn resize_rect_never_inverts() {
    let r = SelectionRect { x: 2, y: 2, w: 4, h: 4 };
    let squashed = resize_rect(r, ResizeHandle::W, 10, 0);
    assert_eq!(squashed, SelectionRect { x: 6, y: 2, w: 0, h: 4 });
    let flat = resize_rect(r, ResizeHandle::S, 0, -10);
    assert_eq!(flat, SelectionRect { x: 2, y: 2, w: 4, h: 0 });
    let corner = resize_rect(r, ResizeHandle::Ne, -9, 9);
    assert_eq!(corner, SelectionRect { x: 2, y: 6, w: 0, h: 0 });
}

#[test]
fn handles_are_hit_within_screen_tolerance() {
    let r = SelectionRect { x: 10, y: 10, w: 20, h: 20 };
    assert_eq!(handle_at(r, 10, 10, 100), Some(ResizeHandle::Nw));
    assert_eq!(handle_at(r, 30, 30, 100), Some(ResizeHandle::Se));
    assert_eq!(handle_at(r, 10, 20, 100), Some(ResizeHandle::W));
    assert_eq!(handle_at(r, 20, 31, 100), Some(ResizeHandle::S));
    assert_eq!(handle_at(r, 20, 20, 100), None);
    // At 1000% the tolerance is 0.6 cells.
    assert_eq!(handle_at(r, 11, 11, 1000), None);
    assert_eq!(handle_at(SelectionRect { x: 0, y: 0, w: 0, h: 5 }, 0, 0, 100), None);
}

#[test]
fn handle_cursors() {
    assert_eq!(cursor_for_handle(ResizeHandle::Nw), "nwse-resize");
    assert_eq!(cursor_for_handle(ResizeHandle::Sw), "nesw-resize");
    assert_eq!(cursor_for_handle(ResizeHandle::N), "ns-resize");
    assert_eq!(cursor_for_handle(ResizeHandle::W), "ew-resize");
}

#[test]
fn extract_reads_block_and_pads_with_transparency() {
    let p = patterned();
    let b = extract_buffer_from_layer(&p.layers[0], SelectionRect { x: 3, y: 2, w: 2, h: 2 });
    assert_eq!((b.width, b.height), (2, 2));
    assert_eq!(b.pixels, vec![shade(11), transparent_color(), shade(15), transparent_color()]);
}

#[test]
fn clear_then_apply_records_row_major_diffs() {
    let mut l: Layer = patterned().layers.remove(0);
    let mut diffs = Vec::new();
    clear_rect(&mut l, SelectionRect { x: 1, y: 1, w: 2, h: 1 }, &mut diffs);
    assert_eq!(l.canvas.content[5], transparent_color());
    assert_eq!(l.canvas.content[6], transparent_color());
    assert_eq!(diffs.len(), 2);
    assert_eq!((diffs[0].after.x, diffs[1].after.x), (1, 2));
    let buf = SelectionBuffer { width: 1, height: 1, pixels: vec![shade(3)] };
    apply_buffer(&mut l, SelectionRect { x: 0, y: 0, w: 1, h: 1 }, &buf, &mut diffs);
    assert_eq!(l.canvas.content[0], shade(3));
    assert_eq!(diffs.len(), 3);
}

#[test]
fn scale_buffer_nearest_neighbour() {
    let b = SelectionBuffer { width: 2, height: 1, pixels: vec![shade(1), shade(2)] };
    let s = scale_buffer(&b, 4, 2);
    assert_eq!((s.width, s.height), (4, 2));
    assert_eq!(s.pixels, vec![shade(1), shade(1), shade(2), shade(2), shade(1), shade(1), shade(2), shade(2)]);
    let z = scale_buffer(&b, 0, 0);
    assert_eq!((z.width, z.height), (1, 1));
    assert_eq!(z.pixels, vec![shade(1)]);
}

#[test]
fn cut_then_commit_after_pure_move() {
    let mut p = patterned();
    let before = p.layers[0].canvas.content.clone();
    let rect = SelectionRect { x: 0, y: 0, w: 2, h: 2 };
    let (buffer, diffs) = cut_buffer(&mut p, 0, rect);
    assert_eq!(diffs.len(), 4);
    let moved = SelectionRect { x: 2, y: 2, w: 2, h: 2 };
    let sel = SelectionState { layer_id: 0, rect: moved, buffer: Some(buffer), original_pixels: diffs };
    commit_selection(&mut p, &sel);
    let after = &p.layers[0].canvas.content;
    for y in 0..4usize {
        for x in 0..4usize {
            let i = y * 4 + x;
            let in_old = x < 2 && y < 2;
            let in_new = x >= 2 && y >= 2;
            if in_new {
                assert_eq!(after[i], before[(y - 2) * 4 + (x - 2)]);
            } else if in_old {
                assert_eq!(after[i], transparent_color());
            } else {
                assert_eq!(after[i], before[i]);
            }
        }
    }
    assert_eq!(p.history.undo.len(), 1);
    assert_eq!(p.history.undo[0].pixels.len(), 4 + 4 + 4);
}

#[test]
fn commit_without_buffer_changes_nothing() {
    let mut p = patterned();
    let before = p.layers[0].canvas.content.clone();
    let sel = SelectionState {
        layer_id: 0,
        rect: SelectionRect { x: 0, y: 0, w: 2, h: 2 },
        buffer: None,
        original_pixels: Vec::new(),
    };
    commit_selection(&mut p, &sel);
    assert_eq!(p.layers[0].canvas.content, before);
    assert_eq!(p.history.undo.len(), 0);
}

#[test]
fn select_tool_create_move_commit() {
    let mut p = patterned();
    let before = p.layers[0].canvas.content.clone();
    let c = ctx();
    let mut s = SelectState::new();
    s.on_pointer_down(&cell(0, 0), &c, &mut p);
    assert!(matches!(s.mode, SelectMode::Creating { .. }));
    s.on_pointer_move(&cell(1, 1), &c);
    s.on_pointer_up(&cell(1, 1));
    assert_eq!(s.selection.as_ref().unwrap().rect, SelectionRect { x: 0, y: 0, w: 2, h: 2 });
    s.on_pointer_down(&cell(1, 1), &c, &mut p);
    assert!(matches!(s.mode, SelectMode::Moving { .. }));
    assert_eq!(s.cursor(), "move");
    assert_eq!(p.layers[0].canvas.content[0], transparent_color());
    s.on_pointer_move(&cell(3, 3), &c);
    s.on_pointer_up(&cell(3, 3));
    assert_eq!(s.selection.as_ref().unwrap().rect, SelectionRect { x: 2, y: 2, w: 2, h: 2 });
    s.deselect(&mut p);
    assert!(s.selection.is_none());
    let after = &p.layers[0].canvas.content;
    assert_eq!(after[2 * 4 + 2], before[0]);
    assert_eq!(after[3 * 4 + 3], before[1 * 4 + 1]);
    assert_eq!(after[0], transparent_color());
    assert_eq!(after[3], before[3]);
    assert_eq!(p.history.undo.len(), 1);
}

#[test]
fn select_click_without_drag_selects_nothing() {
    let mut p = patterned();
    let c = ctx();
    let mut s = SelectState::new();
    s.on_pointer_down(&cell(2, 2), &c, &mut p);
    s.on_pointer_up(&cell(2, 2));
    assert!(s.selection.is_none());
    assert!(matches!(s.mode, SelectMode::Idle));
}

#[test]
fn select_resize_resamples_buffer() {
    let mut p = patterned();
    let c = ctx();
    let mut s = SelectState::new();
    s.on_pointer_down(&cell(0, 0), &c, &mut p);
    s.on_pointer_move(&cell(1, 1), &c);
    s.on_pointer_up(&cell(1, 1));
    // The right edge of the 2x2 rectangle is at x = 2.
    let grip = PointerInput { pointer_id: 7, button: 0, client_x: 2 * 32, client_y: 32 + 1 };
    s.on_pointer_down(&grip, &c, &mut p);
    assert!(matches!(s.mode, SelectMode::Resizing { handle: ResizeHandle::E, .. }));
    assert_eq!(s.cursor(), "ew-resize");
    let drag = PointerInput { pointer_id: 7, button: 0, client_x: 4 * 32, client_y: 32 + 1 };
    s.on_pointer_move(&drag, &c);
    s.on_pointer_up(&drag);
    let sel = s.selection.as_ref().unwrap();
    assert_eq!(sel.rect, SelectionRect { x: 0, y: 0, w: 4, h: 2 });
    let b = sel.buffer.as_ref().unwrap();
    assert_eq!((b.width, b.height), (4, 2));
    assert_eq!(b.pixels[0], shade(0));
    assert_eq!(b.pixels[1], shade(0));
    assert_eq!(b.pixels[2], shade(1));
}

#[test]
fn switching_tools_commits_selection() {
    let mut p = patterned();
    let c = ctx();
    let mut w = WorkspaceState::new();
    w.set_tool(Tool::Select(SelectState::new()), &mut p);
    w.current_tool.on_pointer_down(&cell(0, 0), &c, &mut p);
    w.current_tool.on_pointer_move(&cell(1, 1), &c, &mut p);
    w.current_tool.on_pointer_up(&cell(1, 1), &c, &mut p);
    w.current_tool.on_pointer_down(&cell(1, 1), &c, &mut p);
    w.current_tool.on_pointer_move(&cell(2, 1), &c, &mut p);
    w.current_tool.on_pointer_up(&cell(2, 1), &c, &mut p);
    assert_eq!(p.history.undo.len(), 0);
    w.set_tool(Tool::Pen(PenState::new()), &mut p);
    assert_eq!(p.history.undo.len(), 1);
    assert_eq!(p.layers[0].canvas.content[0], transparent_color());
    assert_eq!(p.layers[0].canvas.content[1], shade(0));
}

#[test]
fn switching_layer_commits_selection_on_other_layer() {
    let mut p = patterned();
    p.add_new_layer();
    let c = ctx();
    let mut w = WorkspaceState::new();
    w.set_tool(Tool::Select(SelectState::new()), &mut p);
    w.current_tool.on_pointer_down(&cell(0, 0), &c, &mut p);
    w.current_tool.on_pointer_move(&cell(1, 1), &c, &mut p);
    w.current_tool.on_pointer_up(&cell(1, 1), &c, &mut p);
    w.current_tool.on_pointer_down(&cell(1, 1), &c, &mut p);
    w.current_tool.on_pointer_up(&cell(1, 1), &c, &mut p);
    w.set_selected_layer(Some(1), &mut p);
    assert_eq!(w.selected_layer_id, Some(1));
    assert_eq!(p.history.undo.len(), 1);
}

#[test]
fn undo_of_moved_selection_restores_canvas() {
    let mut p = patterned();
    let before = p.layers[0].canvas.content.clone();
    let c = ctx();
    let mut s = SelectState::new();
    s.on_pointer_down(&cell(0, 0), &c, &mut p);
    s.on_pointer_move(&cell(1, 1), &c);
    s.on_pointer_up(&cell(1, 1));
    s.on_pointer_down(&cell(1, 1), &c, &mut p);
    s.on_pointer_move(&cell(2, 2), &c);
    s.on_pointer_up(&cell(2, 2));
    s.deselect(&mut p);
    let committed = p.layers[0].canvas.content.clone();
    assert_eq!(committed[1 * 4 + 1], before[0]);
    assert_eq!(committed[2 * 4 + 2], before[1 * 4 + 1]);
    assert_eq!(History::apply_undo(&mut p), Ok(()));
    assert_eq!(p.layers[0].canvas.content, before);
    assert_eq!(History::apply_redo(&mut p), Ok(()));
    assert_eq!(p.layers[0].canvas.content, committed);
}

#[test]
fn commit_records_cut_before_clear_and_paste() {
    let mut p = patterned();
    let rect = SelectionRect { x: 0, y: 0, w: 1, h: 1 };
    let (buffer, diffs) = cut_buffer(&mut p, 0, rect);
    let cut = diffs.clone();
    let sel = SelectionState {
        layer_id: 0,
        rect: SelectionRect { x: 3, y: 3, w: 1, h: 1 },
        buffer: Some(buffer),
        original_pixels: diffs,
    };
    commit_selection(&mut p, &sel);
    let stroke = &p.history.undo[0].pixels;
    assert_eq!(stroke.len(), 3);
    assert_eq!(stroke[0], cut[0]);
    assert_eq!((stroke[1].after.x, stroke[1].after.y, stroke[1].after.color), (3, 3, transparent_color()));
    assert_eq!((stroke[2].after.x, stroke[2].after.y, stroke[2].after.color), (3, 3, shade(0)));
}
