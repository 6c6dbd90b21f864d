//! Media types: the guess from a file's extension (mime_guess) and the parse of a
//! `Content-Type` value (mime), with the server's fallback for unknown extensions.
use vstd::prelude::*;
use crate::codec::is_utf8;

verus! {

/// The first media type that `mime_guess` guesses for `path`, as its text and its
/// top-level type, or `None` when it knows the extension of none.
pub uninterp spec fn guessed_type(path: Seq<u8>) -> Option<(Seq<char>, Seq<char>)>;

/// The media type that `mime::Mime::from_str` reads from `text`, as its text and its
/// top-level type, or `None` when `text` is not one.
pub uninterp spec fn parsed_type(text: Seq<u8>) -> Option<(Seq<char>, Seq<char>)>;

/// `mime_guess::from_path(path).first()`, as the media type's text (`to_string`) and its
/// top-level type (`type_().to_string()`), the path read as UTF-8 text. Trusted: the
/// result is `guessed_type(path)`, which depends on the extension table compiled into the
/// crate alone.
#[verifier::external_body]
fn guess_first(path: &[u8]) -> (r: Option<(String, String)>)
    ensures
        match r {
            Some((a, b)) => guessed_type(path@) == Some((a@, b@)),
            None => guessed_type(path@) is None,
        },
{
    match mime_guess::from_path(String::from_utf8_lossy(path).as_ref()).first() {
        Some(m) => Some((m.to_string(), m.type_().to_string())),
        None => None,
    }
}

/// `mime::Mime::from_str(text)`, as the media type's text and its top-level type, the
/// bytes read as UTF-8 text. Trusted: the result is `parsed_type(text)`, a function of
/// `text` alone.
#[verifier::external_body]
fn parse_media(text: &[u8]) -> (r: Option<(String, String)>)
    ensures
        match r {
            Some((a, b)) => parsed_type(text@) == Some((a@, b@)),
            None => parsed_type(text@) is None,
        },
{
    match String::from_utf8_lossy(text).parse::<mime_guess::Mime>() {
        Ok(m) => Some((m.to_string(), m.type_().to_string())),
        Err(_) => None,
    }
}

/// The media type of a static file: the guess from its name, or for an unknown
/// extension `text/plain` when its content is UTF-8 and `application/octet-stream`
/// otherwise.
pub open spec fn spec_content_type(path: Seq<u8>, content: Seq<u8>) -> (Seq<char>, Seq<char>) {
    match guessed_type(path) {
        Some(p) => p,
        None => if vstd::utf8::valid_utf8(content) {
            ("text/plain"@, "text"@)
        } else {
            ("application/octet-stream"@, "application"@)
        },
    }
}

/// The media type and its top-level type for a static file; see `spec_content_type`.
pub fn content_type_for(path: &[u8], content: &[u8]) -> (r: (String, String))
    ensures
        (r.0@, r.1@) == spec_content_type(path@, content@),
{
    match guess_first(path) {
        Some(p) => p,
        None => {
            if is_utf8(content) {
                ("text/plain".to_owned(), "text".to_owned())
            } else {
                ("application/octet-stream".to_owned(), "application".to_owned())
            }
        },
    }
}

/// The media type a dynamic page declared in its `Content-Type`, and its top-level type,
/// or `None` when the value is not a media type.
pub fn declared_type(content_type: &[u8]) -> (r: Option<(String, String)>)
    ensures
        match r {
            Some((a, b)) => parsed_type(content_type@) == Some((a@, b@)),
            None => parsed_type(content_type@) is None,
        },
{
    parse_media(content_type)
}

} // verus!
