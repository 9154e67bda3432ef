//! The bot token kept in `token.json`: when the stored one is usable and what
//! an entered one becomes.

use vstd::prelude::*;

use crate::text::{chars_of, string_from_chars, trim, trim_chars};

verus! {

/// The stored token, when it is not blank; otherwise the operator is asked.
pub fn usable_stored_token(stored: Option<String>) -> (r: Option<String>)
    ensures
        match stored {
            Some(t) => if trim(t@).len() > 0 {
                r matches Some(x) && x@ == t@
            } else {
                r is None
            },
            None => r is None,
        },
{
    match stored {
        Some(t) => {
            if trim_chars(&chars_of(t.as_str())).len() > 0 {
                Some(t)
            } else {
                None
            }
        },
        None => None,
    }
}

/// The token the operator typed, trimmed; `None` when it is blank, which
/// the bot cannot start with.
pub fn entered_token(input: &str) -> (r: Option<String>)
    ensures
        match r {
            Some(x) => x@ == trim(input@) && x@.len() > 0,
            None => trim(input@).len() == 0,
        },
{
    let t = trim_chars(&chars_of(input));
    if t.len() == 0 {
        None
    } else {
        Some(string_from_chars(&t))
    }
}

} // verus!
