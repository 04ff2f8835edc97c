//! The fixed words of the store's columns and of the router's decisions.
use vstd::prelude::*;
use crate::text::to_chars;

verus! {

pub open spec fn work() -> Seq<char> { seq!['w', 'o', 'r', 'k'] }
pub open spec fn life() -> Seq<char> { seq!['l', 'i', 'f', 'e'] }
pub open spec fn high() -> Seq<char> { seq!['h', 'i', 'g', 'h'] }
pub open spec fn medium() -> Seq<char> { seq!['m', 'e', 'd', 'i', 'u', 'm'] }
pub open spec fn low() -> Seq<char> { seq!['l', 'o', 'w'] }
pub open spec fn active() -> Seq<char> { seq!['a', 'c', 't', 'i', 'v', 'e'] }
pub open spec fn pending() -> Seq<char> { seq!['p', 'e', 'n', 'd', 'i', 'n', 'g'] }
pub open spec fn completed() -> Seq<char> { seq!['c', 'o', 'm', 'p', 'l', 'e', 't', 'e', 'd'] }
pub open spec fn archived() -> Seq<char> { seq!['a', 'r', 'c', 'h', 'i', 'v', 'e', 'd'] }
pub open spec fn all_word() -> Seq<char> { seq!['a', 'l', 'l'] }

/// Whether `s` spells exactly `lit`.
pub fn chars_are(s: &[char], lit: &[char]) -> (r: bool)
    ensures
        r == (s@ == lit@),
{
    if s.len() != lit.len() {
        return false;
    }
    let mut i: usize = 0;
    while i < s.len()
        invariant
            i <= s@.len(),
            s@.len() == lit@.len(),
            forall|k: int| 0 <= k < i ==> s@[k] == lit@[k],
        decreases s.len() - i,
    {
        if s[i] != lit[i] {
            return false;
        }
        i = i + 1;
    }
    assert(s@ =~= lit@);
    true
}

/// Whether the string `s` spells exactly `lit`.
pub fn str_is(s: &str, lit: &[char]) -> (r: bool)
    ensures
        r == (s@ == lit@),
{
    let v = to_chars(s);
    chars_are(v.as_slice(), lit)
}

/// Whether `a` and `b` hold the same text.
pub fn same_text(a: &str, b: &str) -> (r: bool)
    ensures
        r == (a@ == b@),
{
    let va = to_chars(a);
    let vb = to_chars(b);
    chars_are(va.as_slice(), vb.as_slice())
}

/// `"work"`
pub fn lit_work() -> (r: [char; 4]) ensures r@ == work() { ['w', 'o', 'r', 'k'] }
/// `"life"`
pub fn lit_life() -> (r: [char; 4]) ensures r@ == life() { ['l', 'i', 'f', 'e'] }
/// `"high"`
pub fn lit_high() -> (r: [char; 4]) ensures r@ == high() { ['h', 'i', 'g', 'h'] }
/// `"medium"`
pub fn lit_medium() -> (r: [char; 6]) ensures r@ == medium() { ['m', 'e', 'd', 'i', 'u', 'm'] }
/// `"low"`
pub fn lit_low() -> (r: [char; 3]) ensures r@ == low() { ['l', 'o', 'w'] }
/// `"active"`
pub fn lit_active() -> (r: [char; 6]) ensures r@ == active() { ['a', 'c', 't', 'i', 'v', 'e'] }
/// `"pending"`
pub fn lit_pending() -> (r: [char; 7]) ensures r@ == pending() { ['p', 'e', 'n', 'd', 'i', 'n', 'g'] }
/// `"completed"`
pub fn lit_completed() -> (r: [char; 9]) ensures r@ == completed() {
    ['c', 'o', 'm', 'p', 'l', 'e', 't', 'e', 'd']
}
/// `"archived"`
pub fn lit_archived() -> (r: [char; 8]) ensures r@ == archived() {
    ['a', 'r', 'c', 'h', 'i', 'v', 'e', 'd']
}
/// `"all"`
pub fn lit_all() -> (r: [char; 3]) ensures r@ == all_word() { ['a', 'l', 'l'] }

} // verus!
