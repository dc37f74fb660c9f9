//! The protocol domains: what each method answers and changes.
pub mod domstorage;
pub mod emulation;
pub mod memory;
pub mod storage;

use crate::json::{Json, JsonView};
use vstd::prelude::*;

verus! {

/// An answer: a result object or an error text.
pub type ReplyView = Result<JsonView, Seq<char>>;

pub open spec fn reply_view(r: Result<Json, String>) -> ReplyView {
    match r {
        Ok(j) => Ok(j@),
        Err(e) => Err(e@),
    }
}

/// A text with another behind it, as error texts are made.
pub(crate) fn joined(a: &str, b: &str) -> (r: String)
    ensures
        r@ == a@ + b@,
{
    let mut s: String = a.to_owned();
    s.append(b);
    s
}

} // verus!
