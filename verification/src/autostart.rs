//! The decisions of turning start at login on and off: the value written
//! for the program, and which refusal of a removal still counts as done.
use vstd::prelude::*;
use crate::text::{to_chars, from_chars, append_slice, contains, contains_exec};

verus! {

/// Starts the program at login.
pub struct AutostartService;

/// Whether the registry tool's error text says the entry was not there:
/// `"unable to find"` or `"找不到"` occurs in it.
pub open spec fn entry_missing(err: Seq<char>) -> bool {
    contains(err, seq!['u', 'n', 'a', 'b', 'l', 'e', ' ', 't', 'o', ' ', 'f', 'i', 'n', 'd']) || contains(err, seq!['找', '不', '到'])
}

impl AutostartService {
    /// The value written for the program: its path in double quotes.
    pub fn registry_value(exe_path: &str) -> (r: String)
        ensures
            r@ == seq!['"'] + exe_path@ + seq!['"'],
    {
        let q: [char; 1] = ['"'];
        let mut v: Vec<char> = Vec::new();
        append_slice(&mut v, &q);
        let p = to_chars(exe_path);
        append_slice(&mut v, p.as_slice());
        append_slice(&mut v, &q);
        assert(v@ =~= seq!['"'] + exe_path@ + seq!['"']);
        from_chars(v.as_slice())
    }

    /// Whether a failed removal still counts as done, because the entry
    /// was not there (see `entry_missing`).
    pub fn removal_done_anyway(err: &str) -> (r: bool)
        ensures
            r == entry_missing(err@),
    {
        let e = to_chars(err);
        let x: [char; 14] = ['u', 'n', 'a', 'b', 'l', 'e', ' ', 't', 'o', ' ', 'f', 'i', 'n', 'd'];
        let y: [char; 3] = ['找', '不', '到'];
        contains_exec(e.as_slice(), &x) || contains_exec(e.as_slice(), &y)
    }
}

} // verus!
