//! Random choices: tokens and secrets drawn from an alphanumeric charset, and
//! picking one answer of a list.

use vstd::prelude::*;

use crate::text::{chars_of, is_ascii_alphanumeric, string_from_chars};

verus! {

/// Wraps `rand::Rng::gen_range(0..bound)` on the thread-local generator.
/// Claims only that the drawn index lies below `bound`; `gen_range` panics on
/// an empty range, which `requires` rules out.
#[verifier::external_body]
pub(crate) fn random_below(bound: usize) -> (r: usize)
    requires
        bound > 0,
    ensures
        r < bound,
{
    rand::Rng::gen_range(&mut rand::thread_rng(), 0..bound)
}

/// The characters tokens and secrets are drawn from.
pub open spec fn token_charset() -> Seq<char> {
    "abcdefghijklmnopqrstuvwxyzABCDEFGHIJKLMNOPQRSTUVWXYZ0123456789"@
}

/// A random string of `len` characters, each an ASCII letter or digit.
pub fn random_token(len: usize) -> (r: String)
    ensures
        r@.len() == len,
        forall|i: int| 0 <= i < len ==> token_charset().contains(#[trigger] r@[i]),
        forall|i: int| 0 <= i < len ==> is_ascii_alphanumeric(#[trigger] r@[i]),
{
    let charset_str = "abcdefghijklmnopqrstuvwxyzABCDEFGHIJKLMNOPQRSTUVWXYZ0123456789";
    proof {
        reveal_strlit("abcdefghijklmnopqrstuvwxyzABCDEFGHIJKLMNOPQRSTUVWXYZ0123456789");
    }
    let charset = chars_of(charset_str);
    assert(charset@.len() == 62);
    assert(forall|k: int| 0 <= k < 62 ==> is_ascii_alphanumeric(#[trigger] charset@[k]));
    let mut out: Vec<char> = Vec::new();
    let mut i: usize = 0;
    while i < len
        invariant
            i <= len,
            charset@ == token_charset(),
            charset@.len() == 62,
            forall|k: int| 0 <= k < 62 ==> is_ascii_alphanumeric(#[trigger] charset@[k]),
            out@.len() == i,
            forall|k: int| 0 <= k < i ==> token_charset().contains(#[trigger] out@[k]),
            forall|k: int| 0 <= k < i ==> is_ascii_alphanumeric(#[trigger] out@[k]),
        decreases len - i,
    {
        let j = random_below(charset.len());
        out.push(charset[j]);
        proof {
            assert(token_charset()[j as int] == out@[i as int]);
        }
        i = i + 1;
    }
    string_from_chars(&out)
}

} // verus!
