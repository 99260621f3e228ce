use vstd::prelude::*;

verus! {

/// The recoverable failures of the engine.
#[derive(Clone, Copy, Debug, PartialEq, Eq, Structural)]
pub enum PaintError {
    /// A pixel or rectangle coordinate lies outside the canvas.
    OutOfBounds,
    /// Undo or redo was asked of an empty stack.
    EmptyHistory,
    /// An operation named a layer id that no layer carries.
    LayerNotFound,
}

} // verus!
