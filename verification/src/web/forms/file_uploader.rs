//! FileUploader: picking files to upload.
use vstd::prelude::*;
use crate::web::Handler;

verus! {

/// Props for the FileUploader component.
pub struct FileUploaderProps {
    pub accept: Option<String>,
    pub multiple: bool,
    pub max_size: Option<u64>,
    pub max_files: Option<usize>,
    pub drag_drop: bool,
    pub show_preview: bool,
    /// Called with the names of the files chosen.
    pub on_upload: Option<Box<dyn Handler<Vec<String>>>>,
    pub class: Option<String>,
}

impl Default for FileUploaderProps {
    fn default() -> (r: Self)
        ensures
            r.accept is None,
            !r.multiple,
            r.max_size is None,
            r.max_files is None,
            r.drag_drop,
            r.show_preview,
            r.on_upload is None,
            r.class is None,
    {
        FileUploaderProps {
            accept: None,
            multiple: false,
            max_size: None,
            max_files: None,
            drag_drop: true,
            show_preview: true,
            on_upload: None,
            class: None,
        }
    }
}

/// The FileUploader component.
pub struct FileUploader;

} // verus!
