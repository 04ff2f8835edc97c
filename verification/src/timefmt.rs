//! Normalisation of todo due / reminder times: a deadline that covers a whole
//! day, or that falls at 23:59, is moved to 22:00:00 of that day.
use vstd::prelude::*;
use crate::text::{
    append_slice, opt_seq, ends_with, ends_with_exec, from_chars, replace_all, replace_all_vec, to_chars, trim,
    trim_vec, utf8_len, utf8_len_is, trim_start, trim_end, is_ws_spec, lemma_trimmed_ends, lemma_trim_fixed,
};

verus! {

/// `"23:59:59"`
pub open spec fn late_full() -> Seq<char> {
    seq!['2', '3', ':', '5', '9', ':', '5', '9']
}

/// `"23:59:00"`
pub open spec fn late_zero() -> Seq<char> {
    seq!['2', '3', ':', '5', '9', ':', '0', '0']
}

/// `"23:59"`
pub open spec fn late_short() -> Seq<char> {
    seq!['2', '3', ':', '5', '9']
}

/// `"22:00:00"`
pub open spec fn evening() -> Seq<char> {
    seq!['2', '2', ':', '0', '0', ':', '0', '0']
}

/// Whether the trimmed text is a bare date: ten UTF-8 bytes with `-` as its
/// fifth and eighth characters (`YYYY-MM-DD`).
pub open spec fn is_bare_date(t: Seq<char>) -> bool {
    utf8_len(t) == 10 && t.len() > 7 && t[4] == '-' && t[7] == '-'
}

/// The normalised form of a due or reminder time.
pub open spec fn normalize_time_spec(time: Option<Seq<char>>) -> Option<Seq<char>> {
    match time {
        None => None,
        Some(s) => {
            let t = trim(s);
            if t.len() == 0 {
                None
            } else if ends_with(t, late_full()) {
                Some(replace_all(t, late_full(), evening()))
            } else if ends_with(t, late_zero()) {
                Some(replace_all(t, late_zero(), evening()))
            } else if ends_with(t, late_short()) {
                Some(replace_all(t, late_short(), evening()))
            } else if is_bare_date(t) {
                Some(t + seq![' '] + evening())
            } else {
                Some(t)
            }
        },
    }
}

/// Normalises one time text (see `normalize_time_spec`).
pub fn normalize_time(time: Option<String>) -> (r: Option<String>)
    ensures
        opt_seq(r) == normalize_time_spec(opt_seq(time)),
{
    match time {
        None => None,
        Some(s) => {
            let v = to_chars(s.as_str());
            let t = trim_vec(v.as_slice());
            if t.len() == 0 {
                return None;
            }
            let full: [char; 8] = ['2', '3', ':', '5', '9', ':', '5', '9'];
            let zero: [char; 8] = ['2', '3', ':', '5', '9', ':', '0', '0'];
            let short: [char; 5] = ['2', '3', ':', '5', '9'];
            let eve: [char; 8] = ['2', '2', ':', '0', '0', ':', '0', '0'];
            assert(full@ == late_full());
            assert(zero@ == late_zero());
            assert(short@ == late_short());
            assert(eve@ == evening());
            let out: Vec<char> = if ends_with_exec(t.as_slice(), &full) {
                replace_all_vec(t.as_slice(), &full, &eve)
            } else if ends_with_exec(t.as_slice(), &zero) {
                replace_all_vec(t.as_slice(), &zero, &eve)
            } else if ends_with_exec(t.as_slice(), &short) {
                replace_all_vec(t.as_slice(), &short, &eve)
            } else if utf8_len_is(t.as_slice(), 10) && t.len() > 7 && t[4] == '-' && t[7] == '-' {
                let mut o = t.clone();
                o.push(' ');
                append_slice(&mut o, &eve);
                o
            } else {
                t
            };
            Some(from_chars(out.as_slice()))
        },
    }
}


/// Whether `s` ends with one of the late-night times `"23:59:59"`,
/// `"23:59:00"`, `"23:59"`.
pub open spec fn ends_late(s: Seq<char>) -> bool {
    ends_with(s, late_full()) || ends_with(s, late_zero()) || ends_with(s, late_short())
}

/// Whether no proper prefix of `f` is also a suffix of it: two occurrences
/// of `f` cannot overlap.
pub open spec fn border_free(f: Seq<char>) -> bool {
    forall|k: int| 0 < k < f.len() ==> #[trigger] f.subrange(0, k) != f.subrange(f.len() - k, f.len() as int)
}

/// A text that ends with `e` still does with anything put before it.
proof fn lemma_ends_concat(a: Seq<char>, b: Seq<char>, e: Seq<char>)
    requires
        ends_with(b, e),
    ensures
        ends_with(a + b, e),
{
    let ab = a + b;
    assert(ab.subrange(ab.len() - e.len(), ab.len() as int) =~= b.subrange(b.len() - e.len(), b.len() as int));
}

/// A text that begins and ends with a pattern that cannot overlap itself,
/// and is longer than it, holds two whole copies of it.
proof fn lemma_no_overlap(s: Seq<char>, f: Seq<char>)
    requires
        f.len() > 0,
        border_free(f),
        s.len() > f.len(),
        s.subrange(0, f.len() as int) == f,
        ends_with(s, f),
    ensures
        s.len() >= 2 * f.len(),
{
    if s.len() < 2 * f.len() {
        let m = f.len() as int;
        let n = s.len() as int;
        let k = n - m;
        let j = m - k;
        assert forall|x: int| 0 <= x < j implies #[trigger] f[x] == f[k + x] by {
            assert(s.subrange(n - m, n)[x] == f[x]);
            assert(s.subrange(0, m)[k + x] == f[k + x]);
        }
        assert(f.subrange(0, j) =~= f.subrange(m - j, m));
    }
}

/// Replacing every occurrence of a pattern that cannot overlap itself, in a
/// text that ends with it, gives a text that ends with the replacement.
proof fn lemma_replace_ends(s: Seq<char>, f: Seq<char>, e: Seq<char>)
    requires
        f.len() > 0,
        border_free(f),
        ends_with(s, f),
    ensures
        ends_with(replace_all(s, f, e), e),
    decreases s.len(),
{
    if s.subrange(0, f.len() as int) == f {
        let rest = s.skip(f.len() as int);
        if s.len() == f.len() {
            assert(rest =~= Seq::<char>::empty());
            assert(replace_all(rest, f, e) =~= Seq::<char>::empty());
            assert(replace_all(s, f, e) =~= e);
            assert(e.subrange(0, e.len() as int) =~= e);
        } else {
            lemma_no_overlap(s, f);
            assert(rest.subrange(rest.len() - f.len(), rest.len() as int) =~= s.subrange(s.len() - f.len(), s.len() as int));
            lemma_replace_ends(rest, f, e);
            lemma_ends_concat(e, replace_all(rest, f, e), e);
        }
    } else {
        let rest = s.drop_first();
        if s.len() == f.len() {
            assert(s.subrange(0, f.len() as int) =~= s.subrange(s.len() - f.len(), s.len() as int));
        }
        assert(rest.subrange(rest.len() - f.len(), rest.len() as int) =~= s.subrange(s.len() - f.len(), s.len() as int));
        lemma_replace_ends(rest, f, e);
        lemma_ends_concat(seq![s[0]], replace_all(rest, f, e), e);
    }
}

/// A text that ends with `"22:00:00"` ends with no late-night time.
proof fn lemma_evening_not_late(s: Seq<char>)
    requires
        ends_with(s, evening()),
    ensures
        !ends_late(s),
{
    let n = s.len();
    assert(s[n - 1] == '0') by {
        assert(s.subrange(n - 8, n as int)[7] == evening()[7]);
    }
    assert(s[n - 7] == '2') by {
        assert(s.subrange(n - 8, n as int)[1] == evening()[1]);
    }
    if ends_with(s, late_zero()) {
        assert(s.subrange(n - 8, n as int)[1] == late_zero()[1]);
    }
    if ends_with(s, late_full()) {
        assert(s.subrange(n - 8, n as int)[7] == late_full()[7]);
    }
    if ends_with(s, late_short()) {
        assert(s.subrange(n - 5, n as int)[4] == late_short()[4]);
    }
}

/// The three late-night times cannot overlap themselves.
proof fn lemma_late_border_free()
    ensures
        border_free(late_full()),
        border_free(late_zero()),
        border_free(late_short()),
{
    assert forall|k: int| 0 < k < late_full().len() implies #[trigger] late_full().subrange(0, k) != late_full().subrange(
        late_full().len() - k,
        late_full().len() as int,
    ) by {
        assert(late_full().subrange(0, k)[0] == '2');
        assert(late_full().subrange(late_full().len() - k, late_full().len() as int)[0] == late_full()[8 - k]);
    }
    assert forall|k: int| 0 < k < late_zero().len() implies #[trigger] late_zero().subrange(0, k) != late_zero().subrange(
        late_zero().len() - k,
        late_zero().len() as int,
    ) by {
        assert(late_zero().subrange(0, k)[0] == '2');
        assert(late_zero().subrange(late_zero().len() - k, late_zero().len() as int)[0] == late_zero()[8 - k]);
    }
    assert forall|k: int| 0 < k < late_short().len() implies #[trigger] late_short().subrange(0, k) != late_short().subrange(
        late_short().len() - k,
        late_short().len() as int,
    ) by {
        assert(late_short().subrange(0, k)[0] == '2');
        assert(late_short().subrange(late_short().len() - k, late_short().len() as int)[0] == late_short()[5 - k]);
    }
}

/// A normalised time never falls at 23:59: the late-night times
/// `23:59:59`, `23:59:00` and `23:59` all become `22:00:00`.
pub proof fn lemma_normalized_not_late(time: Option<Seq<char>>)
    ensures
        normalize_time_spec(time) matches Some(n) ==> !ends_late(n),
{
    match time {
        None => {},
        Some(s) => {
            let t = trim(s);
            lemma_late_border_free();
            if t.len() == 0 {
            } else if ends_with(t, late_full()) {
                lemma_replace_ends(t, late_full(), evening());
                lemma_evening_not_late(replace_all(t, late_full(), evening()));
            } else if ends_with(t, late_zero()) {
                lemma_replace_ends(t, late_zero(), evening());
                lemma_evening_not_late(replace_all(t, late_zero(), evening()));
            } else if ends_with(t, late_short()) {
                lemma_replace_ends(t, late_short(), evening());
                lemma_evening_not_late(replace_all(t, late_short(), evening()));
            } else if is_bare_date(t) {
                let r = t + seq![' '] + evening();
                assert(r.subrange(r.len() - 8, r.len() as int) =~= evening());
                lemma_evening_not_late(r);
            } else {
            }
        },
    }
}


/// A text takes at least one UTF-8 byte per character.
proof fn lemma_utf8_at_least(s: Seq<char>)
    ensures
        utf8_len(s) >= s.len(),
    decreases s.len(),
{
    if s.len() > 0 {
        lemma_utf8_at_least(s.drop_last());
    }
}

/// The first character after replacing is the text's own or the
/// replacement's.
proof fn lemma_replace_first(s: Seq<char>, f: Seq<char>, e: Seq<char>)
    requires
        s.len() > 0,
        e.len() > 0,
    ensures
        replace_all(s, f, e).len() > 0,
        replace_all(s, f, e)[0] == s[0] || replace_all(s, f, e)[0] == e[0],
{
    if f.len() > 0 && f.len() <= s.len() && s.subrange(0, f.len() as int) == f {
        let r = e + replace_all(s.skip(f.len() as int), f, e);
        assert(r[0] == e[0]);
    } else if f.len() > 0 {
        let r = seq![s[0]] + replace_all(s.drop_first(), f, e);
        assert(r[0] == s[0]);
    }
}

/// A trimmed text that ends with `"22:00:00"` and starts with no white
/// space is in normal form: normalising it again gives it back.
proof fn lemma_evening_fixed(r: Seq<char>)
    requires
        ends_with(r, evening()),
        !is_ws_spec(r[0]),
    ensures
        normalize_time_spec(Some(r)) == Some(r),
{
    let n = r.len();
    assert(r[n - 1] == '0') by {
        assert(r.subrange(n - 8, n as int)[7] == evening()[7]);
    }
    lemma_trim_fixed(r);
    lemma_evening_not_late(r);
    lemma_utf8_at_least(r);
    if is_bare_date(r) {
        assert(r.subrange(n - 8, n as int)[4 - (n - 8)] == evening()[4 - (n - 8)]);
    }
}

/// Normalising a time twice gives what normalising it once gives.
pub proof fn lemma_normalize_idempotent(time: Option<Seq<char>>)
    ensures
        normalize_time_spec(normalize_time_spec(time)) == normalize_time_spec(time),
{
    match time {
        None => {},
        Some(s) => {
            let t = trim(s);
            lemma_trimmed_ends(s);
            lemma_late_border_free();
            if t.len() == 0 {
            } else if ends_with(t, late_full()) {
                lemma_replace_ends(t, late_full(), evening());
                lemma_replace_first(t, late_full(), evening());
                lemma_evening_fixed(replace_all(t, late_full(), evening()));
            } else if ends_with(t, late_zero()) {
                lemma_replace_ends(t, late_zero(), evening());
                lemma_replace_first(t, late_zero(), evening());
                lemma_evening_fixed(replace_all(t, late_zero(), evening()));
            } else if ends_with(t, late_short()) {
                lemma_replace_ends(t, late_short(), evening());
                lemma_replace_first(t, late_short(), evening());
                lemma_evening_fixed(replace_all(t, late_short(), evening()));
            } else if is_bare_date(t) {
                let r = t + seq![' '] + evening();
                assert(r.subrange(r.len() - 8, r.len() as int) =~= evening());
                assert(r[0] == t[0]);
                lemma_evening_fixed(r);
            } else {
                lemma_trim_fixed(t);
            }
        },
    }
}

} // verus!
