//! The type of content a response carries back.
use vstd::prelude::*;

verus! {

/// A file to serve: its extension and its content.
pub struct FileResponse {
    pub file_ext: Vec<u8>,
    pub file_content: Vec<u8>,
}

/// A directory listing to serve: the entry names.
pub struct DirResponse {
    pub entries: Vec<Vec<u8>>,
}

/// What the pipeline decided to send back.
///
/// `Self::File`: a file from the content root.
/// `Self::Dir`: the contents of a directory under the content root.
/// `Self::Fallback`: a status-code page, usually because of an error.
pub enum ResponseType {
    File(FileResponse),
    Dir(DirResponse),
    Fallback,
}

} // verus!
