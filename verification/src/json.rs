//! Text as a JSON string, as the JSON library writes it.

use vstd::prelude::*;

verus! {

/// A text as a JSON string: between quotation marks, with the quotation
/// mark, the backslash and the control characters escaped as the JSON
/// library escapes them.
pub uninterp spec fn json_string(text: Seq<char>) -> Seq<char>;

/// Calls `serde_json::to_string` on the text. It writes into memory and so
/// has nothing to fail on; were it to hand back an error, the empty text
/// stands for it.
#[verifier::external_body]
pub(crate) fn write_json_string(text: &str) -> (quoted: String)
    ensures
        quoted@ == json_string(text@),
{
    match serde_json::to_string(text) {
        Ok(quoted) => quoted,
        Err(_) => String::new(),
    }
}

} // verus!
