//! How a file is previewed.
use vstd::prelude::*;

use crate::paths::{extension, extension_of, file_name, file_name_of};

verus! {

#[derive(Clone, Debug)]
pub enum PreviewMode {
    Text,
    /// An image, with the extension that names its format.
    Image(String),
}

pub open spec fn is_image_extension(e: Seq<char>) -> bool {
    e == "png"@ || e == "jpg"@ || e == "webp"@
}

/// The extension of the file that `path` names, if any.
pub open spec fn path_extension(path: Seq<char>) -> Option<Seq<char>> {
    match file_name_of(path) {
        Some(n) => extension_of(n),
        None => None,
    }
}

/// A `png`, `jpg` or `webp` file is shown as an image, anything else as text.
pub fn preview_mode(path: &str) -> (r: PreviewMode)
    ensures
        match path_extension(path@) {
            Some(e) => if is_image_extension(e) {
                r matches PreviewMode::Image(x) && x@ == e
            } else {
                r is Text
            },
            None => r is Text,
        },
{
    let ext = match file_name(path) {
        Some(n) => extension(n.as_str()),
        None => None,
    };
    match ext {
        Some(e) => {
            let png = String::from_str("png");
            let jpg = String::from_str("jpg");
            let webp = String::from_str("webp");
            if e == png || e == jpg || e == webp {
                PreviewMode::Image(e)
            } else {
                PreviewMode::Text
            }
        },
        None => PreviewMode::Text,
    }
}

} // verus!
