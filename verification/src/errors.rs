use vstd::prelude::*;

verus! {

/// Everything that can go wrong while locating, decoding or displaying an
/// image. Decode-path failures are always surfaced as one of these values;
/// they never abort the process.
#[derive(Debug, PartialEq, Eq)]
pub enum ViewerError {
    /// The path was unreadable or the container format was not recognized.
    OpenFailure(String),
    /// The payload was corrupt or the codec reported an internal error.
    DecodeFailure(String),
    /// Scientific data was not in the expected (height, width, 3) layout.
    ShapeMismatch,
    /// A decode yielded zero frames or zero samples.
    EmptyResult,
    /// The file-name extension belongs to no recognized format table.
    UnsupportedFormat,
    /// The clipboard rejected the pixel data.
    ClipboardFailure(String),
    /// Deleting a file or listing a directory failed.
    FileSystemFailure(String),
}

} // verus!
