//! Reading switches from configuration text.

use crate::text::{ascii_lower, lower_char, str_to_chars};
use vstd::prelude::*;

verus! {

/// `v` is one of `1`, `true`, `yes`, `on`, in any letter case.
///
/// Unicode lower-casing maps no character outside ASCII into these words, so
/// ASCII case folding accepts exactly the texts whose `to_lowercase()` is one
/// of them.
pub open spec fn is_truthy(v: Seq<char>) -> bool {
    let l = v.map_values(|c: char| ascii_lower(c));
    l == "1"@ || l == "true"@ || l == "yes"@ || l == "on"@
}

/// `a` equals the characters of `b`.
fn chars_equal(a: &[char], b: &str) -> (r: bool)
    ensures
        r == (a@ == b@),
{
    let bc = str_to_chars(b);
    if a.len() != bc.len() {
        return false;
    }
    let n = a.len();
    for i in 0..n
        invariant
            n == a@.len(),
            n == bc@.len(),
            bc@ == b@,
            forall|j: int| 0 <= j < i ==> a@[j] == bc@[j],
    {
        if a[i] != bc[i] {
            return false;
        }
    }
    assert(a@ =~= bc@);
    true
}

/// A boolean switch: an unset variable (`None`) gives `default`; a set one is
/// on when it reads `1`, `true`, `yes` or `on` in any letter case.
pub fn env_bool(value: Option<&str>, default: bool) -> (b: bool)
    ensures
        b == match value {
            Some(v) => is_truthy(v@),
            None => default,
        },
{
    match value {
        None => default,
        Some(v) => {
            let chars = str_to_chars(v);
            let mut lower: Vec<char> = Vec::new();
            let n = chars.len();
            for i in 0..n
                invariant
                    n == chars@.len(),
                    chars@ == v@,
                    lower@ == chars@.take(i as int).map_values(|c: char| ascii_lower(c)),
            {
                lower.push(lower_char(chars[i]));
                assert(chars@.take(i + 1).map_values(|c: char| ascii_lower(c)) =~= chars@.take(
                    i as int,
                ).map_values(|c: char| ascii_lower(c)).push(ascii_lower(chars@[i as int])));
            }
            assert(chars@.take(n as int) =~= chars@);
            chars_equal(lower.as_slice(), "1") || chars_equal(lower.as_slice(), "true")
                || chars_equal(lower.as_slice(), "yes") || chars_equal(lower.as_slice(), "on")
        },
    }
}

} // verus!
