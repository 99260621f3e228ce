//! Plain records exchanged with the desktop shell.
use vstd::prelude::*;

verus! {

/// An error to show to the user.
pub struct ErrorMessage {
    pub message: String,
}

impl ErrorMessage {
    pub fn new(message: String) -> (r: Self)
        ensures
            r.message@ == message@,
    {
        ErrorMessage { message }
    }
}

/// A flattened RGB image: `width * height` pixels, three bytes each.
pub struct ImageDto {
    pub width: u32,
    pub height: u32,
    pub raw_data: Vec<u8>,
}

impl ImageDto {
    pub fn new(width: u32, height: u32, raw_data: Vec<u8>) -> (r: Self)
        ensures
            r.width == width,
            r.height == height,
            r.raw_data@ == raw_data@,
    {
        ImageDto { width, height, raw_data }
    }
}

/// An image to be written to `path`.
pub struct ExportObjectDto {
    pub path: String,
    pub image: ImageDto,
}

impl ExportObjectDto {
    pub fn new(path: String, image: ImageDto) -> (r: Self)
        ensures
            r.path@ == path@,
            r.image.width == image.width,
            r.image.height == image.height,
            r.image.raw_data@ == image.raw_data@,
    {
        ExportObjectDto { path, image }
    }
}

/// A file path chosen in a dialog.
pub struct PathDto {
    pub path: String,
}

impl PathDto {
    pub fn new(path: String) -> (r: Self)
        ensures
            r.path@ == path@,
    {
        PathDto { path }
    }
}

/// The bytes of a saved project file.
pub struct ProjectDto {
    pub data: Vec<u8>,
}

impl ProjectDto {
    pub fn new(data: Vec<u8>) -> (r: Self)
        ensures
            r.data@ == data@,
    {
        ProjectDto { data }
    }
}

/// A serialized project to be written to `path`.
pub struct SaveObjectDto {
    pub path: String,
    pub project_serialized: String,
}

impl SaveObjectDto {
    pub fn new(path: String, project_serialized: String) -> (r: Self)
        ensures
            r.path@ == path@,
            r.project_serialized@ == project_serialized@,
    {
        SaveObjectDto { path, project_serialized }
    }
}

} // verus!
