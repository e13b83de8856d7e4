//! Upload: file upload with an optional drop area.
use vstd::prelude::*;
use crate::web::{class_names, push_extra, spaced, strs, with_extra};

verus! {

/// Props for an upload control.
#[derive(Clone)]
pub struct UploadProps {
    /// Upload URL
    pub action: Option<String>,
    /// CSS class
    pub class: Option<String>,
    /// Multiple file selection
    pub multiple: bool,
    /// Accept file types
    pub accept: Option<String>,
    /// Show drag area
    pub drag: bool,
    /// Max file size in bytes
    pub max_size: Option<u32>,
    /// File list
    pub file_list: Option<String>,
}

impl Default for UploadProps {
    fn default() -> (r: Self)
        ensures
            r.action is None,
            r.class is None,
            !r.multiple,
            r.accept is None,
            !r.drag,
            r.max_size is None,
            r.file_list is None,
    {
        UploadProps { action: None, class: None, multiple: false, accept: None, drag: false, max_size: None, file_list: None }
    }
}

/// The base classes of an upload control.
pub open spec fn upload_class_list(drag: bool) -> Seq<Seq<char>> {
    if drag {
        seq!["upload"@, "upload-drag"@]
    } else {
        seq!["upload"@]
    }
}

/// Class names of an upload control.
pub fn upload_classes(drag: bool, class: &Option<String>) -> (r: String)
    ensures
        r@ == spaced(with_extra(upload_class_list(drag), *class)),
{
    let mut parts: Vec<String> = Vec::new();
    parts.push("upload".to_owned());
    if drag {
        parts.push("upload-drag".to_owned());
    }
    assert(strs(parts@) =~= upload_class_list(drag));
    push_extra(&mut parts, class);
    class_names(&parts)
}

} // verus!
