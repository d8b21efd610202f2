//! How bytes are put into text for an agent: base64 (crate `base64`) under
//! a media type guessed from the file's name (crate `mime_guess`).
//!
//! Nothing in this file is proved.

use vstd::prelude::*;

verus! {

/// The base64 text of `bytes`, in the standard alphabet and with padding.
pub uninterp spec fn base64_standard(bytes: Seq<u8>) -> Seq<char>;

/// The media type that the name of `path` suggests, `text/plain` where it
/// suggests none.
pub uninterp spec fn media_type(path: Seq<char>) -> Seq<char>;

/// `base64::Engine::encode` on `general_purpose::STANDARD`. The crate
/// panics where the length of the result does not fit a `usize`; such
/// inputs are left out.
#[verifier::external_body]
pub(crate) fn encode_base64(bytes: &Vec<u8>) -> (text: String)
    requires
        bytes.len() / 3 < usize::MAX / 4,
    ensures
        text@ == base64_standard(bytes@),
{
    base64::Engine::encode(&base64::engine::general_purpose::STANDARD, bytes)
}

/// `mime_guess::from_path` and, of its result, `first_or_text_plain`,
/// written out as text: the first media type that the crate's table holds
/// for the extension of `path`, and `text/plain` where it holds none.
#[verifier::external_body]
pub(crate) fn guess_media_type(path: &str) -> (mime: String)
    ensures
        mime@ == media_type(path@),
{
    mime_guess::from_path(path).first_or_text_plain().to_string()
}

} // verus!
