//! What a file holds: MIME types by extension, and extensions by content.

use vstd::prelude::*;
use vstd::string::*;

use crate::text::{begins_with, starts_with};

verus! {

/// The MIME type that `mime_guess` gives for a path, `application/octet-stream` where it knows
/// none.
pub uninterp spec fn mime_of(path: Seq<char>) -> Seq<char>;

/// The extension that `infer` gives for contents that begin with a signature it knows.
pub uninterp spec fn signature_of(data: Seq<u8>) -> Option<Seq<char>>;

/// `mime_guess::from_path`, `MimeGuess::first_or_octet_stream` and `Mime::to_string`: the text of
/// the first MIME type in the table of extensions is a function of the path.
#[verifier::external_body]
fn mime_of_path(path: &str) -> (r: String)
    ensures
        r@ == mime_of(path@),
{
    mime_guess::from_path(path).first_or_octet_stream().to_string()
}

/// `infer::get` and `Type::extension`: the extension of the first signature that the data matches
/// is a function of the data.
#[verifier::external_body]
fn extension_by_signature(data: &Vec<u8>) -> (r: Option<String>)
    ensures
        match r {
            Some(ext) => signature_of(data@) == Some(ext@),
            None => signature_of(data@) is None,
        },
{
    infer::get(data).map(|found| found.extension().to_owned())
}

/// A MIME type as it is sent: text is UTF-8.
pub open spec fn with_charset(mime: Seq<char>) -> Seq<char> {
    if begins_with(mime, "text/"@) {
        mime + "; charset=utf-8"@
    } else {
        mime
    }
}

/// Adds the character set to a MIME type that is text.
pub fn add_charset(mime: String) -> (r: String)
    ensures
        r@ == with_charset(mime@),
{
    if starts_with(mime.as_str(), "text/") {
        mime.concat("; charset=utf-8")
    } else {
        mime
    }
}

/// Guess the MIME type from a file extension.
pub fn guess_mime(ext: &str) -> (r: String)
    ensures
        r@ == with_charset(mime_of("file."@ + ext@)),
{
    let path = "file.".to_owned().concat(ext);
    add_charset(mime_of_path(path.as_str()))
}

/// Detects the extension of contents by their first bytes.
pub fn detect_extension(data: &Vec<u8>) -> (r: Option<String>)
    ensures
        match r {
            Some(ext) => signature_of(data@) == Some(ext@),
            None => signature_of(data@) is None,
        },
{
    extension_by_signature(data)
}

/// Text is sent as UTF-8, and says so; any other MIME type is sent as it is.
pub proof fn only_text_names_its_charset(kind: Seq<char>, mime: Seq<char>)
    ensures
        with_charset("text/"@ + kind) == "text/"@ + kind + "; charset=utf-8"@,
        !begins_with(mime, "text/"@) ==> with_charset(mime) == mime,
{
    crate::text::prefix_and_rest("text/"@, kind, mime);
}

} // verus!
