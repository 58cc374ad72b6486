//! Reading bytes as text.
use vstd::prelude::*;
use vstd::string::*;
use vstd::utf8::*;

verus! {

/// The message of the error `std::str::from_utf8` gives for `bytes`.
pub uninterp spec fn utf8_error_message(bytes: Seq<u8>) -> Seq<char>;

/// `std::str::from_utf8` reads `bytes` as text exactly when they are valid
/// UTF-8, and the text encodes to the same bytes. Otherwise its error's message
/// is a function of the bytes.
#[verifier::external_body]
pub(crate) fn text_from_utf8(bytes: &[u8]) -> (text: std::result::Result<&str, String>)
    ensures
        match text {
            Ok(text) => valid_utf8(bytes@) && text.spec_bytes() == bytes@,
            Err(message) => !valid_utf8(bytes@) && message@ == utf8_error_message(bytes@),
        },
{
    match std::str::from_utf8(bytes) {
        Ok(text) => Ok(text),
        Err(error) => Err(error.to_string()),
    }
}

/// The text of a string as its `Debug` form prints it, quoted and escaped.
pub uninterp spec fn quoted(text: Seq<char>) -> Seq<char>;

/// `format!` with `{:?}` prints a string's `Debug` form.
#[verifier::external_body]
pub(crate) fn quoted_text(text: &str) -> (printed: String)
    ensures
        printed@ == quoted(text@),
{
    format!("{:?}", text)
}

} // verus!
