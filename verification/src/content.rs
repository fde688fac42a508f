//! The content reader's computing half: given a file's path and its raw
//! bytes, build the `FileContent` the caller sees. A binary extension has the
//! bytes base64-encoded; every other extension is decoded as UTF-8 text and
//! tagged with the classifier's language.

use vstd::prelude::*;
use vstd::string::StringExecFns;
use vstd::utf8::decode_utf8;
use vstd::utf8::encode_utf8;
use vstd::utf8::valid_utf8;

use crate::classify::is_binary_extension;
use crate::classify::language_for_extension;
use crate::classify::language_of;
use crate::classify::path_ext;
use crate::classify::spec_is_binary;
use crate::paths::extension_of;
use crate::paths::to_lower;

verus! {

/// What a read hands back: the payload, and either a language tag or the
/// sentinel `binary`. When the tag is `binary` the payload is the file's
/// bytes as base64; otherwise it is the file's text.
#[derive(Debug, Clone)]
pub struct FileContent {
    pub content: String,
    pub language: String,
}

/// The mathematical value of a `FileContent`.
pub struct ContentView {
    pub content: Seq<char>,
    pub language: Seq<char>,
}

impl View for FileContent {
    type V = ContentView;

    open spec fn view(&self) -> ContentView {
        ContentView { content: self.content@, language: self.language@ }
    }
}

/// The base64 text (standard alphabet, padded) of a byte sequence: a function
/// of the bytes alone, computed by the base64 crate.
pub uninterp spec fn base64_of(bytes: Seq<u8>) -> Seq<char>;

/// Relies on `base64::encode`: standard alphabet with padding, so the result
/// is a function of the bytes alone (named `base64_of`), four characters for
/// every started group of three bytes.
#[verifier::external_body]
fn encode_base64(bytes: &Vec<u8>) -> (r: String)
    ensures
        r@ == base64_of(bytes@),
        r@.len() == ((bytes@.len() + 2) / 3) * 4,
{
    base64::encode(bytes)
}

/// Relies on std's `String::from_utf8`: it succeeds exactly on valid UTF-8,
/// and then returns the text those bytes encode.
#[verifier::external_body]
fn utf8_to_string(bytes: Vec<u8>) -> (r: Option<String>)
    ensures
        r is Some <==> valid_utf8(bytes@),
        r matches Some(s) ==> s@ == decode_utf8(bytes@),
{
    match String::from_utf8(bytes) {
        Ok(s) => Some(s),
        Err(_) => None,
    }
}

/// What reading a file at path `p` whose bytes are `bytes` must return:
/// base64 under the sentinel tag for a binary extension; for any other
/// extension the decoded text under the table's language tag, or the
/// decoder's error message when the bytes are not valid UTF-8.
pub open spec fn read_outcome(p: Seq<char>, bytes: Seq<u8>) -> Result<ContentView, Seq<char>> {
    let ext = path_ext(p);
    if spec_is_binary(ext) {
        Ok(ContentView { content: base64_of(bytes), language: "binary"@ })
    } else if valid_utf8(bytes) {
        Ok(ContentView { content: decode_utf8(bytes), language: language_of(ext) })
    } else {
        Err("stream did not contain valid UTF-8"@)
    }
}

/// Builds the `FileContent` for the file at `path` from its raw bytes, as
/// `read_outcome` states.
pub fn content_from_bytes(path: &str, bytes: Vec<u8>) -> (r: Result<FileContent, String>)
    ensures
        read_outcome(path@, bytes@) matches Ok(v) ==> (r matches Ok(c) && c@ == v),
        read_outcome(path@, bytes@) matches Err(v) ==> (r matches Err(m) && m@ == v),
{
    let ext = extension_of(path);
    let low = to_lower(ext.as_str());
    if is_binary_extension(low.as_str()) {
        let payload = encode_base64(&bytes);
        Ok(FileContent { content: payload, language: String::from_str("binary") })
    } else {
        match utf8_to_string(bytes) {
            Some(text) => Ok(
                FileContent { content: text, language: language_for_extension(low.as_str()) },
            ),
            None => Err(String::from_str("stream did not contain valid UTF-8")),
        }
    }
}

/// Law: a write followed by a read returns the text unchanged. For a path
/// whose extension is not on the binary allow-list, reading back the UTF-8
/// encoding of any text yields exactly that text, tagged with the path's
/// language.
pub proof fn lemma_write_read_round_trip(p: Seq<char>, s: Seq<char>)
    requires
        !spec_is_binary(path_ext(p)),
    ensures
        read_outcome(p, encode_utf8(s)) == Ok::<ContentView, Seq<char>>(
            ContentView { content: s, language: language_of(path_ext(p)) },
        ),
{
    vstd::utf8::encode_utf8_valid_utf8(s);
    vstd::utf8::encode_utf8_decode_utf8(s);
}

} // verus!
