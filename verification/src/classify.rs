//! The classifier: a closed table from a lowercased file extension to either
//! a binary disposition or a language tag, and the helper that tags a whole
//! path. Unknown extensions degrade to `plaintext`; there is no error case.

use vstd::prelude::*;
use vstd::string::StringExecFns;

use crate::paths::ext_of;
use crate::paths::extension_of;
use crate::paths::file_name_of;
use crate::paths::lower;
use crate::paths::str_eq;
use crate::paths::to_lower;

verus! {

/// How a file's bytes are to be handled: raw bytes to encode, or text to
/// decode, tagged with a language.
#[derive(Debug, Clone)]
pub enum Disposition {
    Binary,
    Text(String),
}

/// The closed allow-list of binary media and 3D-asset extensions.
pub open spec fn spec_is_binary(ext: Seq<char>) -> bool {
    ||| ext == "png"@
    ||| ext == "jpg"@
    ||| ext == "jpeg"@
    ||| ext == "gif"@
    ||| ext == "webp"@
    ||| ext == "bmp"@
    ||| ext == "glb"@
    ||| ext == "gltf"@
    ||| ext == "obj"@
    ||| ext == "fbx"@
    ||| ext == "stl"@
}

/// The closed table from a lowercased extension to its language tag; every
/// extension outside the table maps to `plaintext`.
pub open spec fn language_of(ext: Seq<char>) -> Seq<char> {
    if ext == "js"@ || ext == "jsx"@ {
        "javascript"@
    } else if ext == "ts"@ || ext == "tsx"@ {
        "typescript"@
    } else if ext == "rs"@ {
        "rust"@
    } else if ext == "py"@ {
        "python"@
    } else if ext == "json"@ {
        "json"@
    } else if ext == "md"@ {
        "markdown"@
    } else if ext == "css"@ {
        "css"@
    } else if ext == "html"@ {
        "html"@
    } else if ext == "xml"@ {
        "xml"@
    } else if ext == "yaml"@ || ext == "yml"@ {
        "yaml"@
    } else {
        "plaintext"@
    }
}

/// The lowercased extension of a path's file name: what the classifier's
/// table is keyed by.
pub open spec fn path_ext(p: Seq<char>) -> Seq<char> {
    lower(ext_of(file_name_of(p)))
}

/// Whether a lowercased extension is on the binary allow-list.
pub fn is_binary_extension(ext: &str) -> (r: bool)
    ensures
        r == spec_is_binary(ext@),
{
    str_eq(ext, "png") || str_eq(ext, "jpg") || str_eq(ext, "jpeg") || str_eq(ext, "gif")
        || str_eq(ext, "webp") || str_eq(ext, "bmp") || str_eq(ext, "glb") || str_eq(ext, "gltf")
        || str_eq(ext, "obj") || str_eq(ext, "fbx") || str_eq(ext, "stl")
}

/// The language tag of a lowercased extension, from the closed table.
pub fn language_for_extension(ext: &str) -> (r: String)
    ensures
        r@ == language_of(ext@),
{
    if str_eq(ext, "js") || str_eq(ext, "jsx") {
        String::from_str("javascript")
    } else if str_eq(ext, "ts") || str_eq(ext, "tsx") {
        String::from_str("typescript")
    } else if str_eq(ext, "rs") {
        String::from_str("rust")
    } else if str_eq(ext, "py") {
        String::from_str("python")
    } else if str_eq(ext, "json") {
        String::from_str("json")
    } else if str_eq(ext, "md") {
        String::from_str("markdown")
    } else if str_eq(ext, "css") {
        String::from_str("css")
    } else if str_eq(ext, "html") {
        String::from_str("html")
    } else if str_eq(ext, "xml") {
        String::from_str("xml")
    } else if str_eq(ext, "yaml") || str_eq(ext, "yml") {
        String::from_str("yaml")
    } else {
        String::from_str("plaintext")
    }
}

/// Classifies a lowercased extension: binary when it is on the allow-list,
/// otherwise text tagged with the table's language.
pub fn classify(extension: &str) -> (d: Disposition)
    ensures
        d is Binary <==> spec_is_binary(extension@),
        d matches Disposition::Text(tag) ==> tag@ == language_of(extension@),
{
    if is_binary_extension(extension) {
        Disposition::Binary
    } else {
        Disposition::Text(language_for_extension(extension))
    }
}

/// The language tag of a whole path, keyed by its lowercased extension.
pub fn get_file_language(path: &str) -> (r: String)
    ensures
        r@ == language_of(path_ext(path@)),
{
    let ext = extension_of(path);
    let low = to_lower(ext.as_str());
    language_for_extension(low.as_str())
}

} // verus!
