//! A layered raster painting engine: pixel canvases, alpha compositing,
//! drawing tools as explicit state machines, rectangular selections and a
//! bounded undo/redo history of per-stroke pixel diffs.

pub mod error;
pub mod color;
pub mod pixel;
pub mod canvas;
pub mod history;
pub mod layer;
pub mod project;
pub mod composite;
pub mod geometry;
pub mod view;
pub mod tools;
pub mod dtos;
pub mod render;
