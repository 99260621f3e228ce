use vstd::prelude::*;
use crate::canvas::{paint, resized};
use crate::color::Color;
use crate::error::PaintError;
use crate::history::{afters, apply_diffs, befores_newest_first, lemma_undo_then_redo, History, PixelDiff, StrokeDiff};
use crate::layer::Layer;
use crate::tools::bucket::{fill_records, flood_fill, in_region};
use crate::tools::stroke::{paint_points, records, stamped};

verus! {

/// How many strokes a new project can undo.
pub const HISTORY_DEPTH: usize = 10;

/// The document: its dimensions, the ordered layers (index 0 at the
/// bottom), the drawing color and the edit history.
pub struct Project {
    pub name: String,
    pub width: u32,
    pub height: u32,
    pub background_color: Color,
    pub layers: Vec<Layer>,
    pub history: History,
    pub next_layer_id: usize,
    pub current_color: Color,
}

/// Position of the first layer that carries `id`.
pub open spec fn first_with_id(layers: Seq<Layer>, id: usize, i: int) -> bool {
    0 <= i < layers.len() && layers[i].id == id && forall|j: int| 0 <= j < i ==> layers[j].id != id
}

pub open spec fn has_id(layers: Seq<Layer>, id: usize) -> bool {
    exists|i: int| 0 <= i < layers.len() && layers[i].id == id
}

impl Project {
    pub open spec fn wf(&self) -> bool {
        &&& forall|i: int| 0 <= i < self.layers@.len() ==> (#[trigger] self.layers@[i]).canvas.wf()
        &&& forall|i: int| 0 <= i < self.layers@.len() ==> (#[trigger] self.layers@[i]).id < self.next_layer_id
        &&& forall|i: int, j: int|
            0 <= i < self.layers@.len() && 0 <= j < self.layers@.len() && i != j ==> (
            #[trigger] self.layers@[i]).id != (#[trigger] self.layers@[j]).id
    }

    /// A project with one background layer of the given size and color.
    pub fn new(name: String, width: u32, height: u32, background_color: Color) -> (p: Self)
        requires
            width as int * height as int <= usize::MAX,
        ensures
            p.wf(),
            p.name@ == name@,
            p.width == width,
            p.height == height,
            p.background_color == background_color,
            p.layers@.len() == 1,
            p.layers@[0].id == 0,
            p.layers@[0].editable(),
            p.layers@[0].canvas.width == width,
            p.layers@[0].canvas.height == height,
            p.layers@[0].canvas.background_color == background_color,
            p.layers@[0].canvas.content@ == Seq::new((width as int * height as int) as nat, |_i: int| background_color),
            p.next_layer_id == 1,
            p.history.max_count == HISTORY_DEPTH,
            p.history.undo_view().len() == 0,
            p.history.redo_view().len() == 0,
            p.current_color == (Color { r: 0, g: 0, b: 0, alpha: 255 }),
    {
        let base = Layer::new(0, "Background".to_owned(), width, height, background_color);
        let mut layers: Vec<Layer> = Vec::new();
        layers.push(base);
        Project {
            name,
            width,
            height,
            background_color,
            layers,
            history: History::new(HISTORY_DEPTH),
            next_layer_id: 1,
            current_color: Color::new(0, 0, 0, 255),
        }
    }

    /// Puts a fresh layer on top, under an id never used before.
    pub fn add_new_layer(&mut self)
        requires
            old(self).wf(),
            old(self).next_layer_id < usize::MAX,
            old(self).width as int * old(self).height as int <= usize::MAX,
        ensures
            final(self).wf(),
            final(self).next_layer_id == old(self).next_layer_id + 1,
            final(self).layers@.len() == old(self).layers@.len() + 1,
            final(self).layers@.subrange(0, old(self).layers@.len() as int) == old(self).layers@,
            final(self).layers@.last().id == old(self).next_layer_id,
            final(self).layers@.last().editable(),
            final(self).layers@.last().canvas.width == old(self).width,
            final(self).layers@.last().canvas.height == old(self).height,
            final(self).layers@.last().canvas.background_color == old(self).background_color,
            final(self).layers@.last().canvas.content@ == Seq::new(
                (old(self).width as int * old(self).height as int) as nat,
                |_i: int| old(self).background_color,
            ),
            final(self).width == old(self).width,
            final(self).height == old(self).height,
            final(self).background_color == old(self).background_color,
            final(self).current_color == old(self).current_color,
            final(self).history == old(self).history,
    {
        let layer = Layer::new(
            self.next_layer_id,
            "Layer".to_owned(),
            self.width,
            self.height,
            self.background_color,
        );
        self.layers.push(layer);
        self.next_layer_id = self.next_layer_id + 1;
        assert(self.layers@.subrange(0, old(self).layers@.len() as int) =~= old(self).layers@);
    }

    /// Index of the first layer that carries `id`.
    pub fn find_layer(&self, id: usize) -> (r: Option<usize>)
        ensures
            r.is_none() <==> !has_id(self.layers@, id),
            r.is_some() ==> first_with_id(self.layers@, id, r.unwrap() as int),
    {
        let mut i: usize = 0;
        while i < self.layers.len()
            invariant
                i <= self.layers@.len(),
                forall|j: int| 0 <= j < i ==> self.layers@[j].id != id,
            decreases self.layers@.len() - i,
        {
            if self.layers[i].id == id {
                return Some(i);
            }
            i = i + 1;
        }
        None
    }

    /// Index of the first layer that carries `id`, where that layer can be
    /// edited.
    pub fn editable_layer(&self, id: usize) -> (r: Option<usize>)
        ensures
            r.is_some() <==> exists|i: int| first_with_id(self.layers@, id, i) && self.layers@[i].editable(),
            r.is_some() ==> first_with_id(self.layers@, id, r.unwrap() as int) && self.layers@[r.unwrap() as int].editable(),
    {
        match self.find_layer(id) {
            Some(i) => {
                if !self.layers[i].is_locked && self.layers[i].is_visible {
                    Some(i)
                } else {
                    proof {
                        assert forall|j: int| first_with_id(self.layers@, id, j) implies j == i by {}
                    }
                    None
                }
            },
            None => None,
        }
    }

    /// Paints `color` onto the points `pts` of the canvas of layer `i`,
    /// appending a diff for every cell that changes.
    pub fn paint_layer(&mut self, i: usize, pts: &Vec<(i64, i64)>, color: Color, diffs: &mut Vec<PixelDiff>)
        requires
            old(self).wf(),
            i < old(self).layers@.len(),
        ensures
            final(self).wf(),
            same_but_layers(*old(self), *final(self)),
            stamped_layers(old(self).layers@, final(self).layers@, i as int, pts@, color),
            final(diffs)@.len() >= old(diffs)@.len(),
            final(diffs)@.subrange(0, old(diffs)@.len() as int) == old(diffs)@,
            records(
                old(self).layers@[i as int].canvas.content@,
                old(self).layers@[i as int].canvas.width as int,
                old(self).layers@[i as int].canvas.height as int,
                pts@,
                color,
                final(diffs)@.subrange(old(diffs)@.len() as int, final(diffs)@.len() as int),
            ),
    {
        let mut layer = self.layers.remove(i);
        paint_points(&mut layer.canvas, pts, color, diffs);
        self.layers.insert(i, layer);
        proof {
            let ls = old(self).layers@;
            assert forall|j: int| 0 <= j < ls.len() && j != i implies self.layers@[j] == ls[j] by {}
            assert forall|j: int| 0 <= j < ls.len() implies #[trigger] self.layers@[j].id == ls[j].id by {}
        }
    }

    /// Flood-fills layer `i` from `(x, y)` with `fill`, appending a diff
    /// for each filled cell.
    pub fn fill_layer(&mut self, i: usize, x: u32, y: u32, fill: Color, diffs: &mut Vec<PixelDiff>)
        requires
            old(self).wf(),
            i < old(self).layers@.len(),
            old(self).layers@[i as int].canvas.in_bounds(x as int, y as int),
            old(self).layers@[i as int].canvas.color_at(x as int, y as int) != fill,
        ensures
            final(self).wf(),
            same_but_layers(*old(self), *final(self)),
            filled_layers(old(self).layers@, final(self).layers@, i as int, x, y, fill),
            final(diffs)@.len() >= old(diffs)@.len(),
            final(diffs)@.subrange(0, old(diffs)@.len() as int) == old(diffs)@,
            ({
                let c = old(self).layers@[i as int].canvas;
                fill_records(
                    c.content@,
                    c.width as int,
                    c.height as int,
                    (x as i64, y as i64),
                    c.color_at(x as int, y as int),
                    fill,
                    final(diffs)@.subrange(old(diffs)@.len() as int, final(diffs)@.len() as int),
                )
            }),
    {
        let mut layer = self.layers.remove(i);
        flood_fill(&mut layer.canvas, x, y, fill, diffs);
        self.layers.insert(i, layer);
        proof {
            let ls = old(self).layers@;
            assert forall|j: int| 0 <= j < ls.len() && j != i implies self.layers@[j] == ls[j] by {}
            assert forall|j: int| 0 <= j < ls.len() implies #[trigger] self.layers@[j].id == ls[j].id by {}
        }
    }

    /// Resizes the project and every layer's canvas, keeping each layer's
    /// top-left region and filling new cells with its background.
    pub fn resize_canvas(&mut self, width: u32, height: u32)
        requires
            old(self).wf(),
            width as int * height as int <= usize::MAX,
        ensures
            final(self).wf(),
            final(self).width == width,
            final(self).height == height,
            final(self).layers@.len() == old(self).layers@.len(),
            forall|i: int|
                0 <= i < old(self).layers@.len() ==> {
                    let a = old(self).layers@[i];
                    let b = #[trigger] final(self).layers@[i];
                    &&& b.id == a.id
                    &&& b.title == a.title
                    &&& b.is_locked == a.is_locked
                    &&& b.is_visible == a.is_visible
                    &&& b.canvas.width == width
                    &&& b.canvas.height == height
                    &&& b.canvas.background_color == a.canvas.background_color
                    &&& b.canvas.content@ == resized(
                        a.canvas.content@,
                        a.canvas.width as int,
                        a.canvas.height as int,
                        width as int,
                        height as int,
                        a.canvas.background_color,
                    )
                },
            final(self).history == old(self).history,
            final(self).next_layer_id == old(self).next_layer_id,
            final(self).current_color == old(self).current_color,
            final(self).background_color == old(self).background_color,
    {
        let n = self.layers.len();
        let mut i: usize = 0;
        while i < n
            invariant
                i <= n,
                n == old(self).layers@.len(),
                self.layers@.len() == n,
                width as int * height as int <= usize::MAX,
                self.history == old(self).history,
                self.next_layer_id == old(self).next_layer_id,
                self.current_color == old(self).current_color,
                self.background_color == old(self).background_color,
                self.name == old(self).name,
                self.width == old(self).width,
                self.height == old(self).height,
                forall|j: int| 0 <= j < n ==> (#[trigger] self.layers@[j]).canvas.wf(),
                forall|j: int| 0 <= j < n ==> (#[trigger] self.layers@[j]).id == old(self).layers@[j].id,
                forall|j: int| i <= j < n ==> (#[trigger] self.layers@[j]) == old(self).layers@[j],
                forall|j: int|
                    0 <= j < i ==> {
                        let a = old(self).layers@[j];
                        let b = #[trigger] self.layers@[j];
                        &&& b.title == a.title
                        &&& b.is_locked == a.is_locked
                        &&& b.is_visible == a.is_visible
                        &&& b.canvas.width == width
                        &&& b.canvas.height == height
                        &&& b.canvas.background_color == a.canvas.background_color
                        &&& b.canvas.content@ == resized(
                            a.canvas.content@,
                            a.canvas.width as int,
                            a.canvas.height as int,
                            width as int,
                            height as int,
                            a.canvas.background_color,
                        )
                    },
            decreases n - i,
        {
            let mut layer = self.layers.remove(i);
            layer.canvas.resize(width, height);
            self.layers.insert(i, layer);
            i = i + 1;
        }
        self.width = width;
        self.height = height;
        proof {
            assert forall|a: int, b: int|
                0 <= a < self.layers@.len() && 0 <= b < self.layers@.len() && a != b implies (
                #[trigger] self.layers@[a]).id != (#[trigger] self.layers@[b]).id by {
                assert(old(self).layers@[a].id != old(self).layers@[b].id);
            }
            assert forall|a: int| 0 <= a < self.layers@.len() implies (#[trigger] self.layers@[a]).id < self.next_layer_id by {
                assert(old(self).layers@[a].id < old(self).next_layer_id);
            }
        }
    }

    /// Shows or hides the layer `id`.
    pub fn set_layer_visible(&mut self, id: usize, visible: bool) -> (r: Result<(), PaintError>)
        requires
            old(self).wf(),
        ensures
            final(self).wf(),
            !has_id(old(self).layers@, id) ==> r == Err::<(), PaintError>(PaintError::LayerNotFound)
                && *final(self) == *old(self),
            has_id(old(self).layers@, id) ==> r == Ok::<(), PaintError>(()) && same_but_layers(*old(self), *final(self))
                && ({
                let i = choose|i: int| first_with_id(old(self).layers@, id, i);
                &&& final(self).layers@.len() == old(self).layers@.len()
                &&& forall|j: int| 0 <= j < old(self).layers@.len() && j != i ==> final(self).layers@[j] == old(self).layers@[j]
                &&& final(self).layers@[i].is_visible == visible
                &&& final(self).layers@[i].is_locked == old(self).layers@[i].is_locked
                &&& final(self).layers@[i].id == old(self).layers@[i].id
                &&& final(self).layers@[i].canvas.content@ == old(self).layers@[i].canvas.content@
            }),
    {
        match self.find_layer(id) {
            None => Err(PaintError::LayerNotFound),
            Some(i) => {
                let mut layer = self.layers.remove(i);
                layer.is_visible = visible;
                self.layers.insert(i, layer);
                proof {
                    let ls = old(self).layers@;
                    assert forall|j: int| 0 <= j < ls.len() && j != i implies self.layers@[j] == ls[j] by {}
                    assert forall|j: int| 0 <= j < ls.len() implies #[trigger] self.layers@[j].id == ls[j].id by {}
                    assert forall|j: int| first_with_id(ls, id, j) implies j == i by {}
                }
                Ok(())
            },
        }
    }

    /// Locks or unlocks the layer `id`; locked layers refuse the tools.
    pub fn set_layer_locked(&mut self, id: usize, locked: bool) -> (r: Result<(), PaintError>)
        requires
            old(self).wf(),
        ensures
            final(self).wf(),
            !has_id(old(self).layers@, id) ==> r == Err::<(), PaintError>(PaintError::LayerNotFound)
                && *final(self) == *old(self),
            has_id(old(self).layers@, id) ==> r == Ok::<(), PaintError>(()) && same_but_layers(*old(self), *final(self))
                && ({
                let i = choose|i: int| first_with_id(old(self).layers@, id, i);
                &&& final(self).layers@.len() == old(self).layers@.len()
                &&& forall|j: int| 0 <= j < old(self).layers@.len() && j != i ==> final(self).layers@[j] == old(self).layers@[j]
                &&& final(self).layers@[i].is_locked == locked
                &&& final(self).layers@[i].is_visible == old(self).layers@[i].is_visible
                &&& final(self).layers@[i].id == old(self).layers@[i].id
                &&& final(self).layers@[i].canvas.content@ == old(self).layers@[i].canvas.content@
            }),
    {
        match self.find_layer(id) {
            None => Err(PaintError::LayerNotFound),
            Some(i) => {
                let mut layer = self.layers.remove(i);
                layer.is_locked = locked;
                self.layers.insert(i, layer);
                proof {
                    let ls = old(self).layers@;
                    assert forall|j: int| 0 <= j < ls.len() && j != i implies self.layers@[j] == ls[j] by {}
                    assert forall|j: int| 0 <= j < ls.len() implies #[trigger] self.layers@[j].id == ls[j].id by {}
                    assert forall|j: int| first_with_id(ls, id, j) implies j == i by {}
                }
                Ok(())
            },
        }
    }

    /// Deletes the layer `id`; its id is never handed out again.
    pub fn remove_layer(&mut self, id: usize) -> (r: Result<(), PaintError>)
        requires
            old(self).wf(),
        ensures
            final(self).wf(),
            !has_id(old(self).layers@, id) ==> r == Err::<(), PaintError>(PaintError::LayerNotFound)
                && *final(self) == *old(self),
            has_id(old(self).layers@, id) ==> r == Ok::<(), PaintError>(()) && same_but_layers(*old(self), *final(self))
                && final(self).layers@ == old(self).layers@.remove(choose|i: int| first_with_id(old(self).layers@, id, i)),
    {
        match self.find_layer(id) {
            None => Err(PaintError::LayerNotFound),
            Some(i) => {
                let _ = self.layers.remove(i);
                proof {
                    let ls = old(self).layers@;
                    assert forall|j: int| first_with_id(ls, id, j) implies j == i by {}
                    assert forall|a: int| 0 <= a < self.layers@.len() implies #[trigger] self.layers@[a] == if a < i { ls[a] } else { ls[a + 1] } by {}
                    assert forall|a: int, b: int|
                        0 <= a < self.layers@.len() && 0 <= b < self.layers@.len() && a != b implies (
                        #[trigger] self.layers@[a]).id != (#[trigger] self.layers@[b]).id by {
                        let a2 = if a < i { a } else { a + 1 };
                        let b2 = if b < i { b } else { b + 1 };
                        assert(ls[a2].id != ls[b2].id);
                    }
                }
                Ok(())
            },
        }
    }

    /// Moves the layer `id` to position `to` of the paint order.
    pub fn move_layer(&mut self, id: usize, to: usize) -> (r: Result<(), PaintError>)
        requires
            old(self).wf(),
        ensures
            final(self).wf(),
            !has_id(old(self).layers@, id) ==> r == Err::<(), PaintError>(PaintError::LayerNotFound)
                && *final(self) == *old(self),
            has_id(old(self).layers@, id) && to >= old(self).layers@.len() ==> r == Err::<(), PaintError>(
                PaintError::OutOfBounds,
            ) && *final(self) == *old(self),
            has_id(old(self).layers@, id) && to < old(self).layers@.len() ==> r == Ok::<(), PaintError>(())
                && same_but_layers(*old(self), *final(self)) && ({
                let i = choose|i: int| first_with_id(old(self).layers@, id, i);
                final(self).layers@ == old(self).layers@.remove(i).insert(to as int, old(self).layers@[i])
            }),
    {
        match self.find_layer(id) {
            None => Err(PaintError::LayerNotFound),
            Some(i) => {
                if to >= self.layers.len() {
                    return Err(PaintError::OutOfBounds);
                }
                let layer = self.layers.remove(i);
                self.layers.insert(to, layer);
                proof {
                    let ls = old(self).layers@;
                    assert forall|j: int| first_with_id(ls, id, j) implies j == i by {}
                    let mid = ls.remove(i as int);
                    assert forall|a: int| 0 <= a < mid.len() implies #[trigger] mid[a] == if a < i { ls[a] } else { ls[a + 1] } by {}
                    let fin = self.layers@;
                    let x = ls[i as int];
                    assert(fin =~= mid.insert(to as int, x));
                    assert forall|a: int| 0 <= a < fin.len() implies #[trigger] fin[a] == ls[moved_index(a, i as int, to as int)]
                        && 0 <= moved_index(a, i as int, to as int) < ls.len() by {}
                    assert forall|a: int, b: int|
                        0 <= a < fin.len() && 0 <= b < fin.len() && a != b implies (#[trigger] fin[a]).id != (#[trigger] fin[b]).id by {
                        assert(fin[a] == ls[moved_index(a, i as int, to as int)]);
                        assert(fin[b] == ls[moved_index(b, i as int, to as int)]);
                    }
                    assert forall|a: int| 0 <= a < fin.len() implies (#[trigger] fin[a]).canvas.wf() && fin[a].id < self.next_layer_id by {
                        assert(fin[a] == ls[moved_index(a, i as int, to as int)]);
                    }
                }
                Ok(())
            },
        }
    }

    /// Sets the drawing color.
    pub fn set_current_color(&mut self, color: Color)
        ensures
            *final(self) == (Project { current_color: color, ..*old(self) }),
    {
        self.current_color = color;
    }
}

impl History {
    /// Pops the newest undo entry and writes each diff's `before` pixel,
    /// newest diff first, back into the layer it names; where that layer is gone the entry
    /// still moves to the redo stack and nothing is painted.
    pub fn apply_undo(project: &mut Project) -> (r: Result<(), PaintError>)
        requires
            old(project).wf(),
        ensures
            final(project).wf(),
            final(project).layers@.len() == old(project).layers@.len(),
            old(project).history.undo_view().len() == 0 ==> r == Err::<(), PaintError>(
                PaintError::EmptyHistory,
            ) && *final(project) == *old(project),
            old(project).history.undo_view().len() > 0 ==> r == Ok::<(), PaintError>(()) && ({
                let s = old(project).history.undo_view().last();
                &&& final(project).history.undo_view() == old(project).history.undo_view().drop_last()
                &&& final(project).history.redo_view() == old(project).history.redo_view().push(s)
                &&& painted_layers(old(project).layers@, final(project).layers@, s.0, befores_newest_first(s.1))
            }),
    {
        if project.history.undo.len() == 0 {
            return Err(PaintError::EmptyHistory);
        }
        let popped = project.history.undo();
        match popped {
            None => Err(PaintError::EmptyHistory),
            Some(stroke) => {
                paint_stroke(project, &stroke, false);
                Ok(())
            },
        }
    }

    /// Pops the newest redo entry and writes each diff's `after` pixel into
    /// the layer it names, skipping the painting where that layer is gone.
    pub fn apply_redo(project: &mut Project) -> (r: Result<(), PaintError>)
        requires
            old(project).wf(),
        ensures
            final(project).wf(),
            final(project).layers@.len() == old(project).layers@.len(),
            old(project).history.redo_view().len() == 0 ==> r == Err::<(), PaintError>(
                PaintError::EmptyHistory,
            ) && *final(project) == *old(project),
            old(project).history.redo_view().len() > 0 ==> r == Ok::<(), PaintError>(()) && ({
                let s = old(project).history.redo_view().last();
                &&& final(project).history.redo_view() == old(project).history.redo_view().drop_last()
                &&& final(project).history.undo_view() == old(project).history.undo_view().push(s)
                &&& painted_layers(old(project).layers@, final(project).layers@, s.0, afters(s.1))
            }),
    {
        if project.history.redo.len() == 0 {
            return Err(PaintError::EmptyHistory);
        }
        let popped = project.history.redo();
        match popped {
            None => Err(PaintError::EmptyHistory),
            Some(stroke) => {
                paint_stroke(project, &stroke, true);
                Ok(())
            },
        }
    }
}

/// Where position `a` of the list after moving the layer at `i` to `to`
/// comes from.
pub open spec fn moved_index(a: int, i: int, to: int) -> int {
    let b = if a < to {
        a
    } else if a == to {
        -1
    } else {
        a - 1
    };
    if b == -1 {
        i
    } else if b < i {
        b
    } else {
        b + 1
    }
}

/// Every field but the layer list is the same.
pub open spec fn same_but_layers(a: Project, b: Project) -> bool {
    &&& a.name == b.name
    &&& a.width == b.width
    &&& a.height == b.height
    &&& a.background_color == b.background_color
    &&& a.history == b.history
    &&& a.next_layer_id == b.next_layer_id
    &&& a.current_color == b.current_color
}

/// Every field but the history is the same.
pub open spec fn same_but_history(a: Project, b: Project) -> bool {
    &&& a.name == b.name
    &&& a.width == b.width
    &&& a.height == b.height
    &&& a.background_color == b.background_color
    &&& a.layers == b.layers
    &&& a.next_layer_id == b.next_layer_id
    &&& a.current_color == b.current_color
}

/// `b` is `a` with the stroke `(id, ds)` recorded in its history.
pub open spec fn stroke_recorded(a: Project, b: Project, id: usize, ds: Seq<PixelDiff>) -> bool {
    &&& same_but_history(a, b)
    &&& b.history.max_count == a.history.max_count
    &&& b.history.undo_view() == crate::history::added(a.history.undo_view(), a.history.max_count, (id, ds))
    &&& b.history.redo_view() == Seq::<(usize, Seq<PixelDiff>)>::empty()
}

/// The cell `p` lies on the project's canvas.
pub open spec fn on_project(p: Project, pt: (i32, i32)) -> bool {
    0 <= pt.0 < p.width && 0 <= pt.1 < p.height
}

/// What painting `pts` in `color` onto the editable layer `id` does: the
/// first layer carrying `id` has the points stamped and the new diffs are
/// appended to the pending stroke; where no such layer can be edited,
/// nothing changes.
pub open spec fn painted_move(
    p0: Project,
    p1: Project,
    s0: Seq<PixelDiff>,
    s1: Seq<PixelDiff>,
    id: usize,
    pts: Seq<(i64, i64)>,
    color: Color,
) -> bool {
    if exists|i: int| first_with_id(p0.layers@, id, i) && p0.layers@[i].editable() {
        let i = choose|i: int| first_with_id(p0.layers@, id, i) && p0.layers@[i].editable();
        &&& same_but_layers(p0, p1)
        &&& stamped_layers(p0.layers@, p1.layers@, i, pts, color)
        &&& s1.len() >= s0.len()
        &&& s1.subrange(0, s0.len() as int) == s0
        &&& records(
            p0.layers@[i].canvas.content@,
            p0.layers@[i].canvas.width as int,
            p0.layers@[i].canvas.height as int,
            pts,
            color,
            s1.subrange(s0.len() as int, s1.len() as int),
        )
    } else {
        p1 == p0 && s1 == s0
    }
}

/// Paints `pts` in `color` onto the editable layer `id`, if there is one,
/// appending the diffs to `stroke`.
pub fn paint_on_layer(project: &mut Project, id: usize, pts: &Vec<(i64, i64)>, color: Color, stroke: &mut Vec<PixelDiff>)
    requires
        old(project).wf(),
    ensures
        final(project).wf(),
        painted_move(*old(project), *final(project), old(stroke)@, final(stroke)@, id, pts@, color),
{
    match project.editable_layer(id) {
        Some(i) => {
            project.paint_layer(i, pts, color, stroke);
            proof {
                let p0 = *old(project);
                assert forall|j: int| first_with_id(p0.layers@, id, j) implies j == i by {}
                let c = choose|j: int| first_with_id(p0.layers@, id, j) && p0.layers@[j].editable();
                assert(c == i);
            }
        },
        None => {},
    }
}

/// `after` is `before` with the points `pts` stamped in `color` onto the
/// canvas of layer `i`.
pub open spec fn stamped_layers(before: Seq<Layer>, after: Seq<Layer>, i: int, pts: Seq<(i64, i64)>, color: Color) -> bool {
    &&& after.len() == before.len()
    &&& forall|j: int| 0 <= j < before.len() && j != i ==> after[j] == before[j]
    &&& after[i].id == before[i].id
    &&& after[i].title == before[i].title
    &&& after[i].is_locked == before[i].is_locked
    &&& after[i].is_visible == before[i].is_visible
    &&& after[i].canvas.width == before[i].canvas.width
    &&& after[i].canvas.height == before[i].canvas.height
    &&& after[i].canvas.background_color == before[i].canvas.background_color
    &&& after[i].canvas.content@ == stamped(before[i].canvas.content@, before[i].canvas.width as int, pts, color)
}

/// `after` is `before` with the region around `(x, y)` of layer `i`
/// flood-filled with `fill`.
pub open spec fn filled_layers(before: Seq<Layer>, after: Seq<Layer>, i: int, x: u32, y: u32, fill: Color) -> bool {
    let c = before[i].canvas;
    let w = c.width as int;
    &&& after.len() == before.len()
    &&& forall|j: int| 0 <= j < before.len() && j != i ==> after[j] == before[j]
    &&& after[i].id == before[i].id
    &&& after[i].title == before[i].title
    &&& after[i].is_locked == before[i].is_locked
    &&& after[i].is_visible == before[i].is_visible
    &&& after[i].canvas.width == c.width
    &&& after[i].canvas.height == c.height
    &&& after[i].canvas.background_color == c.background_color
    &&& after[i].canvas.content@.len() == c.content@.len()
    &&& forall|k: int|
        0 <= k < c.content@.len() ==> #[trigger] after[i].canvas.content@[k] == if in_region(
            c.content@,
            w,
            c.height as int,
            (x as i64, y as i64),
            c.color_at(x as int, y as int),
            ((k % w) as i64, (k / w) as i64),
        ) {
            fill
        } else {
            c.content@[k]
        }
}

/// `after` is `before` with `ps` painted into the first layer carrying
/// `id`, or `before` itself where no layer carries it.
pub open spec fn painted_layers(before: Seq<Layer>, after: Seq<Layer>, id: usize, ps: Seq<crate::pixel::Pixel>) -> bool {
    &&& after.len() == before.len()
    &&& forall|i: int| 0 <= i < before.len() && !first_with_id(before, id, i) ==> after[i] == before[i]
    &&& forall|i: int|
        #![trigger first_with_id(before, id, i)]
        first_with_id(before, id, i) ==> {
            &&& after[i].id == before[i].id
            &&& after[i].title == before[i].title
            &&& after[i].is_locked == before[i].is_locked
            &&& after[i].is_visible == before[i].is_visible
            &&& after[i].canvas.width == before[i].canvas.width
            &&& after[i].canvas.height == before[i].canvas.height
            &&& after[i].canvas.background_color == before[i].canvas.background_color
            &&& after[i].canvas.content@ == paint(
                before[i].canvas.content@,
                before[i].canvas.width as int,
                before[i].canvas.height as int,
                ps,
            )
        }
}

fn paint_stroke(project: &mut Project, stroke: &StrokeDiff, forward: bool)
    requires
        old(project).wf(),
    ensures
        final(project).wf(),
        final(project).history == old(project).history,
        final(project).width == old(project).width,
        final(project).height == old(project).height,
        final(project).next_layer_id == old(project).next_layer_id,
        painted_layers(
            old(project).layers@,
            final(project).layers@,
            stroke.layer_id,
            if forward {
                afters(stroke.pixels@)
            } else {
                befores_newest_first(stroke.pixels@)
            },
        ),
{
    match project.find_layer(stroke.layer_id) {
        None => {
            assert forall|i: int| #![auto] !first_with_id(project.layers@, stroke.layer_id, i) by {
            }
        },
        Some(i) => {
            let mut layer = project.layers.remove(i);
            apply_diffs(&mut layer.canvas, &stroke.pixels, forward);
            project.layers.insert(i, layer);
            proof {
                let ls = old(project).layers@;
                assert forall|j: int| 0 <= j < ls.len() && j != i implies project.layers@[j] == ls[j] by {
                }
                assert forall|j: int| first_with_id(ls, stroke.layer_id, j) implies j == i by {
                }
            }
        },
    }
}


/// Undo followed by redo of a stroke leaves every layer's pixels as they
/// were before the undo, where the stroke's layer held what it wrote.
pub proof fn lemma_undo_redo_layers(
    l0: Seq<Layer>,
    l1: Seq<Layer>,
    l2: Seq<Layer>,
    id: usize,
    ds: Seq<PixelDiff>,
)
    requires
        forall|i: int| 0 <= i < l0.len() ==> (#[trigger] l0[i]).canvas.wf(),
        forall|k: int| 0 <= k < ds.len() ==> (#[trigger] ds[k]).wf(),
        forall|i: int|
            #![trigger first_with_id(l0, id, i)]
            first_with_id(l0, id, i) ==> paint(
                l0[i].canvas.content@,
                l0[i].canvas.width as int,
                l0[i].canvas.height as int,
                afters(ds),
            ) == l0[i].canvas.content@,
        painted_layers(l0, l1, id, befores_newest_first(ds)),
        painted_layers(l1, l2, id, afters(ds)),
    ensures
        l2.len() == l0.len(),
        forall|i: int| 0 <= i < l0.len() ==> (#[trigger] l2[i]).canvas.content@ == l0[i].canvas.content@,
{
    assert forall|i: int| 0 <= i < l0.len() implies (#[trigger] l2[i]).canvas.content@ == l0[i].canvas.content@ by {
        assert(first_with_id(l0, id, i) <==> first_with_id(l1, id, i)) by {
            if first_with_id(l0, id, i) {
                assert forall|j: int| 0 <= j < i implies l1[j].id != id by {
                    assert(!first_with_id(l0, id, j));
                }
            }
            if first_with_id(l1, id, i) {
                assert forall|j: int| 0 <= j < i implies l0[j].id != id by {
                    assert(l1[j].id == l0[j].id);
                }
            }
        }
        if first_with_id(l0, id, i) {
            lemma_undo_then_redo(
                l0[i].canvas.content@,
                l0[i].canvas.width as int,
                l0[i].canvas.height as int,
                ds,
            );
        }
    }
}

} // verus!
