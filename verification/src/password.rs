//! The password of a request. A caller that has none is taken to give the
//! empty one: whether that opens the archive is for the codec to say.

use vstd::prelude::*;

verus! {

/// The password that a codec is given: the caller's, or the empty one where
/// the caller has none.
pub open spec fn password_text(password: Option<&str>) -> Seq<char> {
    match password {
        Some(p) => p@,
        None => Seq::empty(),
    }
}

/// The password that a codec is given: the caller's, or the empty one where
/// the caller has none.
pub fn password_or_empty(password: Option<&str>) -> (text: String)
    ensures
        text@ == password_text(password),
{
    match password {
        Some(p) => p.to_owned(),
        None => String::new(),
    }
}

} // verus!
