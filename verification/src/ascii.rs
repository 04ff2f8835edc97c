//! ASCII case mapping over `Seq<char>`, and what it keeps: white space,
//! trimming, line breaks, digits, lengths.
use vstd::prelude::*;
use crate::text::{is_ws_spec, trim, trim_start, trim_end, has_char, utf8_len, char_utf8_len};

verus! {

/// Whether every character of `s` is ASCII.
pub open spec fn is_ascii_text(s: Seq<char>) -> bool {
    forall|i: int| 0 <= i < s.len() ==> (#[trigger] s[i] as u32) < 128
}

/// `c` with `A`–`Z` mapped to `a`–`z` (`char::to_ascii_lowercase`).
pub open spec fn ascii_lower_char(c: char) -> char {
    if 'A' <= c && c <= 'Z' {
        ((c as u32) + 32) as char
    } else {
        c
    }
}

/// `c` with `a`–`z` mapped to `A`–`Z` (`char::to_ascii_uppercase`).
pub open spec fn ascii_upper_char(c: char) -> char {
    if 'a' <= c && c <= 'z' {
        ((c as u32) - 32) as char
    } else {
        c
    }
}

/// `s` with every ASCII capital letter made small.
pub open spec fn ascii_lower(s: Seq<char>) -> Seq<char> {
    s.map_values(|c: char| ascii_lower_char(c))
}

/// `s` with every ASCII small letter made capital (`str::to_ascii_uppercase`).
pub open spec fn ascii_upper(s: Seq<char>) -> Seq<char> {
    s.map_values(|c: char| ascii_upper_char(c))
}

/// What the capital form of a character keeps: its small form, white space,
/// ASCII-ness, UTF-8 length, and every character that is no letter.
pub proof fn lemma_upper_char(c: char)
    ensures
        ascii_lower_char(ascii_upper_char(c)) == ascii_lower_char(c),
        is_ws_spec(ascii_upper_char(c)) == is_ws_spec(c),
        (c as u32) < 128 ==> (ascii_upper_char(c) as u32) < 128,
        char_utf8_len(ascii_upper_char(c)) == char_utf8_len(c),
        ascii_upper_char(c) != c ==> 'A' <= ascii_upper_char(c) && ascii_upper_char(c) <= 'Z' && 'a' <= c && c
            <= 'z',
{
    if 'a' <= c && c <= 'z' {
        let u = (c as u32) - 32;
        assert(65 <= u && u <= 90);
        assert((u as char) as u32 == u);
    }
    if 'A' <= c && c <= 'Z' {
        let u = (c as u32) + 32;
        assert(97 <= u && u <= 122);
        assert((u as char) as u32 == u);
    }
}

/// Trimming and the capital form commute.
pub proof fn lemma_upper_trim(s: Seq<char>)
    ensures
        trim(ascii_upper(s)) == ascii_upper(trim(s)),
{
    lemma_upper_trim_start(s);
    lemma_upper_trim_end(trim_start(s));
}

proof fn lemma_upper_trim_start(s: Seq<char>)
    ensures
        trim_start(ascii_upper(s)) == ascii_upper(trim_start(s)),
    decreases s.len(),
{
    let u = ascii_upper(s);
    if s.len() > 0 {
        lemma_upper_char(s[0]);
        assert(u[0] == ascii_upper_char(s[0]));
        if is_ws_spec(s[0]) {
            assert(u.drop_first() =~= ascii_upper(s.drop_first()));
            lemma_upper_trim_start(s.drop_first());
        }
    }
}

proof fn lemma_upper_trim_end(s: Seq<char>)
    ensures
        trim_end(ascii_upper(s)) == ascii_upper(trim_end(s)),
    decreases s.len(),
{
    let u = ascii_upper(s);
    if s.len() > 0 {
        lemma_upper_char(s.last());
        assert(u.last() == ascii_upper_char(s.last()));
        if is_ws_spec(s.last()) {
            assert(u.drop_last() =~= ascii_upper(s.drop_last()));
            lemma_upper_trim_end(s.drop_last());
        }
    }
}

/// The capital form of a text keeps its small form, its length, its UTF-8
/// length, ASCII-ness, and whether it holds a character that is no letter.
pub proof fn lemma_upper_keeps(s: Seq<char>)
    ensures
        ascii_lower(ascii_upper(s)) == ascii_lower(s),
        ascii_upper(s).len() == s.len(),
        utf8_len(ascii_upper(s)) == utf8_len(s),
        is_ascii_text(s) ==> is_ascii_text(ascii_upper(s)),
        forall|x: char|
            !('a' <= x && x <= 'z') && !('A' <= x && x <= 'Z') ==> #[trigger] has_char(ascii_upper(s), x)
                == has_char(s, x),
        forall|i: int| 0 <= i < s.len() ==> #[trigger] ascii_upper(s)[i] == ascii_upper_char(s[i]),
    decreases s.len(),
{
    let u = ascii_upper(s);
    assert forall|i: int| 0 <= i < s.len() implies ascii_lower(u)[i] == ascii_lower(s)[i] by {
        lemma_upper_char(s[i]);
    }
    assert(ascii_lower(u) =~= ascii_lower(s));
    if s.len() > 0 {
        lemma_upper_keeps(s.drop_last());
        assert(u.drop_last() =~= ascii_upper(s.drop_last()));
        lemma_upper_char(s.last());
    }
    assert forall|i: int| 0 <= i < s.len() && (s[i] as u32) < 128 implies (#[trigger] u[i] as u32) < 128 by {
        lemma_upper_char(s[i]);
    }
    assert forall|x: char| !('a' <= x && x <= 'z') && !('A' <= x && x <= 'Z') implies #[trigger] has_char(u, x)
        == has_char(s, x) by {
        if has_char(s, x) {
            let i = choose|i: int| 0 <= i < s.len() && s[i] == x;
            lemma_upper_char(s[i]);
            assert(u[i] == x);
        }
        if has_char(u, x) {
            let i = choose|i: int| 0 <= i < u.len() && u[i] == x;
            lemma_upper_char(s[i]);
            assert(s[i] == x);
        }
    }
}

} // verus!
