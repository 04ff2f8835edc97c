//! The settings as key / value text rows: how each setting is named, how a
//! confidence is written as a decimal and read back, and what a row lookup
//! and an upsert do.
use vstd::prelude::*;
use crate::summary::{decimal, digit_char, decimal_vec};

verus! {

/// Whether every character of `s` is an ASCII digit.
pub open spec fn all_digits(s: Seq<char>) -> bool {
    forall|i: int| 0 <= i < s.len() ==> '0' <= #[trigger] s[i] && s[i] <= '9'
}

/// The value of a digit character.
pub open spec fn digit_val(c: char) -> nat {
    (c as u32 - '0' as u32) as nat
}

/// The value of a digit string (0 when empty).
pub open spec fn digits_val(s: Seq<char>) -> nat
    decreases s.len(),
{
    if s.len() == 0 {
        0
    } else {
        digits_val(s.drop_last()) * 10 + digit_val(s.last())
    }
}

/// The position of the first `.` of `s`, if any.
pub open spec fn dot_pos(s: Seq<char>) -> Option<int>
    decreases s.len(),
{
    if s.len() == 0 {
        None
    } else {
        match dot_pos(s.drop_last()) {
            Some(i) => Some(i),
            None => if s.last() == '.' {
                Some(s.len() - 1)
            } else {
                None
            },
        }
    }
}

/// The hundredths of a fraction's digits, rounded up: the first two digits,
/// plus one when a later digit is not zero.
pub open spec fn frac_hundredths(f: Seq<char>) -> nat {
    (if f.len() > 0 { digit_val(f[0]) * 10 } else { 0 }) + (if f.len() > 1 { digit_val(f[1]) } else { 0 }) + (
    if exists|i: int| 2 <= i < f.len() && f[i] != '0' {
        1nat
    } else {
        0nat
    })
}

/// `t` without a leading `+`.
pub open spec fn unsigned(t: Seq<char>) -> Seq<char> {
    if t.len() > 0 && t[0] == '+' {
        t.drop_first()
    } else {
        t
    }
}

/// The part of `b` before its first `.` (all of it when there is none).
pub open spec fn int_part(b: Seq<char>) -> Seq<char> {
    match dot_pos(b) {
        Some(i) => b.take(i),
        None => b,
    }
}

/// The part of `b` after its first `.` (nothing when there is none).
pub open spec fn frac_part(b: Seq<char>) -> Seq<char> {
    match dot_pos(b) {
        Some(i) => b.skip(i + 1),
        None => Seq::empty(),
    }
}

/// A confidence read from its text, in hundredths rounded up: an optional
/// `+`, digits, and an optional `.` with more digits, some digit given;
/// `None` for any other text or a value past `u32`.
pub open spec fn parse_hundredths(t: Seq<char>) -> Option<u32> {
    let ip = int_part(unsigned(t));
    let fp = frac_part(unsigned(t));
    let v = digits_val(ip) * 100 + frac_hundredths(fp);
    if all_digits(ip) && all_digits(fp) && (ip.len() > 0 || fp.len() > 0) && v <= u32::MAX {
        Some(v as u32)
    } else {
        None
    }
}

/// A confidence in hundredths as the shortest decimal: `80` is `"0.8"`,
/// `85` is `"0.85"`, `100` is `"1"`.
pub open spec fn hundredths_text(c: nat) -> Seq<char> {
    decimal(c / 100) + if c % 100 == 0 {
        Seq::empty()
    } else if c % 10 == 0 {
        seq!['.', digit_char((c / 10) % 10)]
    } else {
        seq!['.', digit_char((c / 10) % 10), digit_char(c % 10)]
    }
}


proof fn lemma_digits_val_mono(s: Seq<char>, k: int)
    requires
        0 <= k <= s.len(),
    ensures
        digits_val(s.take(k)) <= digits_val(s),
    decreases s.len() - k,
{
    if k < s.len() {
        lemma_digits_val_mono(s, k + 1);
        assert(s.take(k + 1).drop_last() =~= s.take(k));
    } else {
        assert(s.take(k) =~= s);
    }
}

/// Computes `digits_val(s@)` when it fits in `u64` below `u32::MAX + 1`,
/// and whether `s` is all digits; `None` when it has a non-digit or the
/// value passes `u32::MAX`.
fn digits_val_exec(s: &[char]) -> (r: Option<u64>)
    ensures
        r matches Some(v) ==> all_digits(s@) && v == digits_val(s@) && v <= u32::MAX,
        r is None ==> !all_digits(s@) || digits_val(s@) > u32::MAX,
{
    let mut acc: u64 = 0;
    let mut i: usize = 0;
    while i < s.len()
        invariant
            i <= s@.len(),
            all_digits(s@.take(i as int)),
            acc == digits_val(s@.take(i as int)),
            acc <= u32::MAX,
        decreases s.len() - i,
    {
        let c = s[i];
        assert(s@.take(i + 1).drop_last() =~= s@.take(i as int));
        if !('0' <= c && c <= '9') {
            assert(!all_digits(s@)) by {
                assert(!('0' <= s@[i as int] && s@[i as int] <= '9'));
            }
            return None;
        }
        let d = (c as u32 - '0' as u32) as u64;
        acc = acc * 10 + d;
        assert(s@.take(i + 1).last() == c);
        if acc > 0xffff_ffff {
            proof {
                lemma_digits_val_mono(s@, i + 1);
            }
            return None;
        }
        assert(all_digits(s@.take(i + 1))) by {
            assert forall|k: int| 0 <= k < i + 1 implies '0' <= #[trigger] s@.take(i + 1)[k] && s@.take(i + 1)[k] <= '9' by {
                if k < i {
                    assert(s@.take(i + 1)[k] == s@.take(i as int)[k]);
                }
            }
        }
        i = i + 1;
    }
    assert(s@.take(s@.len() as int) =~= s@);
    Some(acc)
}

/// The position of the first `.` of `s`.
fn dot_pos_exec(s: &[char]) -> (r: Option<usize>)
    ensures
        r matches Some(i) ==> dot_pos(s@) == Some(i as int) && i < s@.len(),
        r is None ==> dot_pos(s@) is None,
{
    let mut i: usize = 0;
    while i < s.len()
        invariant
            i <= s@.len(),
            dot_pos(s@.take(i as int)) is None,
        decreases s.len() - i,
    {
        assert(s@.take(i + 1).drop_last() =~= s@.take(i as int));
        if s[i] == '.' {
            proof {
                lemma_dot_pos_prefix(s@, i as int);
            }
            return Some(i);
        }
        i = i + 1;
    }
    assert(s@.take(s@.len() as int) =~= s@);
    None
}

proof fn lemma_dot_pos_prefix(s: Seq<char>, i: int)
    requires
        0 <= i < s.len(),
        dot_pos(s.take(i + 1)) == Some(i),
    ensures
        dot_pos(s) == Some(i),
    decreases s.len(),
{
    if s.len() > i + 1 {
        assert(s.drop_last().take(i + 1) =~= s.take(i + 1));
        lemma_dot_pos_prefix(s.drop_last(), i);
    } else {
        assert(s.take(i + 1) =~= s);
    }
}

/// Reads a confidence from its text (see `parse_hundredths`).
pub fn parse_hundredths_exec(t: &[char]) -> (r: Option<u32>)
    ensures
        r == parse_hundredths(t@),
{
    let b: Vec<char> = if t.len() > 0 && t[0] == '+' {
        let v = crate::text::sub_vec(t, 1, t.len());
        assert(v@ =~= t@.drop_first());
        v
    } else {
        let v = crate::text::sub_vec(t, 0, t.len());
        assert(v@ =~= t@);
        v
    };
    let (ip, fp) = match dot_pos_exec(b.as_slice()) {
        Some(i) => {
            let ip = crate::text::sub_vec(b.as_slice(), 0, i);
            let fp = crate::text::sub_vec(b.as_slice(), i + 1, b.len());
            assert(ip@ =~= b@.take(i as int));
            assert(fp@ =~= b@.skip(i + 1));
            (ip, fp)
        },
        None => (b, Vec::new()),
    };
    assert(b@ == unsigned(t@));
    assert(ip@ == int_part(unsigned(t@)));
    assert(fp@ == frac_part(unsigned(t@)));
    if ip.len() == 0 && fp.len() == 0 {
        return None;
    }
    let iv = match digits_val_exec(ip.as_slice()) {
        Some(v) => v,
        None => {
            assert(!all_digits(ip@) || digits_val(ip@) * 100 + frac_hundredths(fp@) > u32::MAX);
            return None;
        },
    };
    let mut k: usize = 0;
    while k < fp.len()
        invariant
            k <= fp@.len(),
            fp@ == frac_part(unsigned(t@)),
            forall|j: int| 0 <= j < k ==> '0' <= #[trigger] fp@[j] && fp@[j] <= '9',
        decreases fp.len() - k,
    {
        if !('0' <= fp[k] && fp[k] <= '9') {
            assert(!all_digits(fp@)) by {
                assert(!('0' <= fp@[k as int] && fp@[k as int] <= '9'));
            }
            return None;
        }
        k = k + 1;
    }
    let mut fv: u64 = 0;
    if fp.len() > 0 {
        fv = (fp[0] as u32 - '0' as u32) as u64 * 10;
    }
    if fp.len() > 1 {
        fv = fv + (fp[1] as u32 - '0' as u32) as u64;
    }
    let mut j: usize = 2;
    let mut tail = false;
    while j < fp.len()
        invariant
            2 <= j,
            j <= fp@.len() || fp@.len() < 2,
            tail == exists|m: int| 2 <= m < j && m < fp@.len() && fp@[m] != '0',
        decreases fp.len() - j,
    {
        if fp[j] != '0' {
            tail = true;
        }
        j = j + 1;
    }
    if tail {
        fv = fv + 1;
    }
    assert(tail == exists|m: int| 2 <= m < fp@.len() && fp@[m] != '0');
    assert(fv == frac_hundredths(fp@));
    let v = iv * 100 + fv;
    if v > 0xffff_ffff {
        return None;
    }
    Some(v as u32)
}


/// Writes a confidence in hundredths (see `hundredths_text`).
pub fn hundredths_text_exec(c: u32) -> (r: Vec<char>)
    ensures
        r@ == hundredths_text(c as nat),
{
    let mut r = decimal_vec((c / 100) as usize);
    let tenths = (c / 10) % 10;
    let hundredths = c % 10;
    if c % 100 != 0 {
        r.push('.');
        r.push(digit_of(tenths));
        if hundredths != 0 {
            r.push(digit_of(hundredths));
        }
    }
    assert(r@ =~= hundredths_text(c as nat));
    r
}

/// The digit character of `d`.
fn digit_of(d: u32) -> (r: char)
    requires
        d < 10,
    ensures
        r == digit_char(d as nat),
{
    if d == 0 {
        '0'
    } else if d == 1 {
        '1'
    } else if d == 2 {
        '2'
    } else if d == 3 {
        '3'
    } else if d == 4 {
        '4'
    } else if d == 5 {
        '5'
    } else if d == 6 {
        '6'
    } else if d == 7 {
        '7'
    } else if d == 8 {
        '8'
    } else {
        '9'
    }
}

proof fn lemma_digit(d: nat)
    requires
        d < 10,
    ensures
        digit_val(digit_char(d)) == d,
        '0' <= digit_char(d) && digit_char(d) <= '9',
{
}

/// The decimal digits of `n` are digits, with no `.`, and read back as `n`.
proof fn lemma_decimal(n: nat)
    ensures
        all_digits(decimal(n)),
        decimal(n).len() > 0,
        digits_val(decimal(n)) == n,
        dot_pos(decimal(n)) is None,
        decimal(n)[0] != '+',
    decreases n,
{
    if n < 10 {
        lemma_digit(n);
        let s = decimal(n);
        assert(s == seq![digit_char(n)]);
        assert(s.drop_last() =~= Seq::<char>::empty());
        assert(s.last() == digit_char(n));
        assert(digit_char(n) != '.');
        assert(digits_val(s.drop_last()) == 0);
        assert(dot_pos(s.drop_last()) is None);
    } else {
        lemma_decimal(n / 10);
        lemma_digit(n % 10);
        let d = decimal(n / 10);
        let s = decimal(n);
        assert(s == d.push(digit_char(n % 10)));
        assert(s.drop_last() =~= d);
        assert(s.last() == digit_char(n % 10));
        assert(digit_char(n % 10) != '.');
        assert(s[0] == d[0]);
        assert((n / 10) * 10 + n % 10 == n) by (nonlinear_arith);
        assert forall|i: int| 0 <= i < s.len() implies '0' <= #[trigger] s[i] && s[i] <= '9' by {
            if i < d.len() {
                assert(s[i] == d[i]);
            }
        }
    }
}

proof fn lemma_dot_pos_append(a: Seq<char>, b: Seq<char>)
    requires
        dot_pos(a) is None,
        b.len() > 0,
        b[0] == '.',
    ensures
        dot_pos(a + b) == Some(a.len() as int),
    decreases b.len(),
{
    if b.len() == 1 {
        assert((a + b).drop_last() =~= a);
    } else {
        lemma_dot_pos_append(a, b.drop_last());
        assert((a + b).drop_last() =~= a + b.drop_last());
    }
}

/// A confidence written as text reads back as itself.
pub proof fn lemma_confidence_text_roundtrip(c: u32)
    ensures
        parse_hundredths(hundredths_text(c as nat)) == Some(c),
{
    let q = (c / 100) as nat;
    let t = hundredths_text(c as nat);
    lemma_decimal(q);
    let d = decimal(q);
    assert(unsigned(t) == t);
    if c % 100 == 0 {
        assert(t =~= d);
        assert(int_part(t) == d);
        assert(frac_part(t) =~= Seq::<char>::empty());
    } else {
        let tail = t.skip(d.len() as int);
        assert(t =~= d + tail);
        lemma_dot_pos_append(d, tail);
        assert(int_part(t) =~= d);
        lemma_digit(((c / 10) % 10) as nat);
        lemma_digit((c % 10) as nat);
        if c % 10 == 0 {
            assert(frac_part(t) =~= seq![digit_char(((c / 10) % 10) as nat)]);
        } else {
            assert(frac_part(t) =~= seq![digit_char(((c / 10) % 10) as nat), digit_char((c % 10) as nat)]);
        }
    }
}


/// `"api_base_url"`
pub open spec fn key_api_base_url() -> Seq<char> {
    seq!['a', 'p', 'i', '_', 'b', 'a', 's', 'e', '_', 'u', 'r', 'l']
}

/// The characters of `key_api_base_url()`.
pub fn key_api_base_url_chars() -> (r: Vec<char>)
    ensures
        r@ == key_api_base_url(),
{
    let r: Vec<char> = vec!['a', 'p', 'i', '_', 'b', 'a', 's', 'e', '_', 'u', 'r', 'l'];
    assert(r@ =~= key_api_base_url());
    r
}

/// `"api_key"`
pub open spec fn key_api_key() -> Seq<char> {
    seq!['a', 'p', 'i', '_', 'k', 'e', 'y']
}

/// The characters of `key_api_key()`.
pub fn key_api_key_chars() -> (r: Vec<char>)
    ensures
        r@ == key_api_key(),
{
    let r: Vec<char> = vec!['a', 'p', 'i', '_', 'k', 'e', 'y'];
    assert(r@ =~= key_api_key());
    r
}

/// `"model_name"`
pub open spec fn key_model_name() -> Seq<char> {
    seq!['m', 'o', 'd', 'e', 'l', '_', 'n', 'a', 'm', 'e']
}

/// The characters of `key_model_name()`.
pub fn key_model_name_chars() -> (r: Vec<char>)
    ensures
        r@ == key_model_name(),
{
    let r: Vec<char> = vec!['m', 'o', 'd', 'e', 'l', '_', 'n', 'a', 'm', 'e'];
    assert(r@ =~= key_model_name());
    r
}

/// `"capture_shortcut"`
pub open spec fn key_capture_shortcut() -> Seq<char> {
    seq!['c', 'a', 'p', 't', 'u', 'r', 'e', '_', 's', 'h', 'o', 'r', 't', 'c', 'u', 't']
}

/// The characters of `key_capture_shortcut()`.
pub fn key_capture_shortcut_chars() -> (r: Vec<char>)
    ensures
        r@ == key_capture_shortcut(),
{
    let r: Vec<char> = vec!['c', 'a', 'p', 't', 'u', 'r', 'e', '_', 's', 'h', 'o', 'r', 't', 'c', 'u', 't'];
    assert(r@ =~= key_capture_shortcut());
    r
}

/// `"main_window_shortcut"`
pub open spec fn key_main_window_shortcut() -> Seq<char> {
    seq!['m', 'a', 'i', 'n', '_', 'w', 'i', 'n', 'd', 'o', 'w', '_', 's', 'h', 'o', 'r', 't', 'c', 'u', 't']
}

/// The characters of `key_main_window_shortcut()`.
pub fn key_main_window_shortcut_chars() -> (r: Vec<char>)
    ensures
        r@ == key_main_window_shortcut(),
{
    let r: Vec<char> = vec!['m', 'a', 'i', 'n', '_', 'w', 'i', 'n', 'd', 'o', 'w', '_', 's', 'h', 'o', 'r', 't', 'c', 'u', 't'];
    assert(r@ =~= key_main_window_shortcut());
    r
}

/// `"auto_archive_confidence"`
pub open spec fn key_confidence() -> Seq<char> {
    seq!['a', 'u', 't', 'o', '_', 'a', 'r', 'c', 'h', 'i', 'v', 'e', '_', 'c', 'o', 'n', 'f', 'i', 'd', 'e', 'n', 'c', 'e']
}

/// The characters of `key_confidence()`.
pub fn key_confidence_chars() -> (r: Vec<char>)
    ensures
        r@ == key_confidence(),
{
    let r: Vec<char> = vec!['a', 'u', 't', 'o', '_', 'a', 'r', 'c', 'h', 'i', 'v', 'e', '_', 'c', 'o', 'n', 'f', 'i', 'd', 'e', 'n', 'c', 'e'];
    assert(r@ =~= key_confidence());
    r
}

/// `"user_profile"`
pub open spec fn key_user_profile() -> Seq<char> {
    seq!['u', 's', 'e', 'r', '_', 'p', 'r', 'o', 'f', 'i', 'l', 'e']
}

/// The characters of `key_user_profile()`.
pub fn key_user_profile_chars() -> (r: Vec<char>)
    ensures
        r@ == key_user_profile(),
{
    let r: Vec<char> = vec!['u', 's', 'e', 'r', '_', 'p', 'r', 'o', 'f', 'i', 'l', 'e'];
    assert(r@ =~= key_user_profile());
    r
}

/// `"theme"`
pub open spec fn key_theme() -> Seq<char> {
    seq!['t', 'h', 'e', 'm', 'e']
}

/// The characters of `key_theme()`.
pub fn key_theme_chars() -> (r: Vec<char>)
    ensures
        r@ == key_theme(),
{
    let r: Vec<char> = vec!['t', 'h', 'e', 'm', 'e'];
    assert(r@ =~= key_theme());
    r
}


/// What the settings say.
pub struct ConfigView {
    pub api_base_url: Seq<char>,
    pub api_key: Seq<char>,
    pub model_name: Seq<char>,
    pub capture_shortcut: Seq<char>,
    pub main_window_shortcut: Seq<char>,
    pub auto_archive_confidence: u32,
    pub user_profile: Seq<char>,
    pub theme: Seq<char>,
}

impl View for crate::models::AppConfig {
    type V = ConfigView;

    open spec fn view(&self) -> ConfigView {
        ConfigView {
            api_base_url: self.api_base_url@,
            api_key: self.api_key@,
            model_name: self.model_name@,
            capture_shortcut: self.capture_shortcut@,
            main_window_shortcut: self.main_window_shortcut@,
            auto_archive_confidence: self.auto_archive_confidence,
            user_profile: self.user_profile@,
            theme: self.theme@,
        }
    }
}

/// The settings a fresh installation starts with.
pub open spec fn default_view() -> ConfigView {
    ConfigView {
        api_base_url: crate::models::default_api_base(),
        api_key: Seq::empty(),
        model_name: crate::models::default_model(),
        capture_shortcut: crate::models::default_capture_shortcut(),
        main_window_shortcut: crate::models::default_main_shortcut(),
        auto_archive_confidence: 80,
        user_profile: Seq::empty(),
        theme: Seq::empty(),
    }
}

/// The texts of the settings rows.
pub open spec fn row_views(ss: Seq<(String, String)>) -> Seq<(Seq<char>, Seq<char>)> {
    ss.map_values(|p: (String, String)| (p.0@, p.1@))
}

/// Whether the rows have distinct keys.
pub open spec fn keys_unique(rows: Seq<(Seq<char>, Seq<char>)>) -> bool {
    forall|i: int, j: int| 0 <= i < j < rows.len() ==> rows[i].0 != rows[j].0
}

/// The value of the row with key `k`, if any.
pub open spec fn lookup(rows: Seq<(Seq<char>, Seq<char>)>, k: Seq<char>) -> Option<Seq<char>> {
    if exists|i: int| 0 <= i < rows.len() && rows[i].0 == k {
        Some(rows[choose|i: int| 0 <= i < rows.len() && rows[i].0 == k].1)
    } else {
        None
    }
}

/// The rows with key `k` set to `v`: its row changed when there is one,
/// else a row added at the end.
pub open spec fn upsert(rows: Seq<(Seq<char>, Seq<char>)>, k: Seq<char>, v: Seq<char>) -> Seq<(Seq<char>, Seq<char>)> {
    if exists|i: int| 0 <= i < rows.len() && rows[i].0 == k {
        rows.update(choose|i: int| 0 <= i < rows.len() && rows[i].0 == k, (k, v))
    } else {
        rows.push((k, v))
    }
}

/// The key / value pairs that saving `c` writes, in order.
pub open spec fn config_pairs(c: ConfigView) -> Seq<(Seq<char>, Seq<char>)> {
    seq![
        (key_api_base_url(), c.api_base_url),
        (key_api_key(), c.api_key),
        (key_model_name(), c.model_name),
        (key_capture_shortcut(), c.capture_shortcut),
        (key_main_window_shortcut(), c.main_window_shortcut),
        (key_confidence(), hundredths_text(c.auto_archive_confidence as nat)),
        (key_user_profile(), c.user_profile),
        (key_theme(), c.theme),
    ]
}

/// The rows after upserting the pairs, in order.
pub open spec fn upsert_all(rows: Seq<(Seq<char>, Seq<char>)>, pairs: Seq<(Seq<char>, Seq<char>)>) -> Seq<
    (Seq<char>, Seq<char>),
>
    decreases pairs.len(),
{
    if pairs.len() == 0 {
        rows
    } else {
        upsert(upsert_all(rows, pairs.drop_last()), pairs.last().0, pairs.last().1)
    }
}

/// `o`'s text, or `d`.
pub open spec fn or_default(o: Option<Seq<char>>, d: Seq<char>) -> Seq<char> {
    match o {
        Some(v) => v,
        None => d,
    }
}

/// The settings the rows give: each from the row with its key, the
/// confidence when its text reads as one, the defaults otherwise.
pub open spec fn config_from_rows(rows: Seq<(Seq<char>, Seq<char>)>) -> ConfigView {
    let d = default_view();
    ConfigView {
        api_base_url: or_default(lookup(rows, key_api_base_url()), d.api_base_url),
        api_key: or_default(lookup(rows, key_api_key()), d.api_key),
        model_name: or_default(lookup(rows, key_model_name()), d.model_name),
        capture_shortcut: or_default(lookup(rows, key_capture_shortcut()), d.capture_shortcut),
        main_window_shortcut: or_default(lookup(rows, key_main_window_shortcut()), d.main_window_shortcut),
        auto_archive_confidence: match lookup(rows, key_confidence()) {
            Some(t) => match parse_hundredths(t) {
                Some(v) => v,
                None => 80,
            },
            None => 80,
        },
        user_profile: or_default(lookup(rows, key_user_profile()), d.user_profile),
        theme: or_default(lookup(rows, key_theme()), d.theme),
    }
}

proof fn lemma_lookup_at(rows: Seq<(Seq<char>, Seq<char>)>, i: int)
    requires
        keys_unique(rows),
        0 <= i < rows.len(),
    ensures
        lookup(rows, rows[i].0) == Some(rows[i].1),
{
    let c = choose|c: int| 0 <= c < rows.len() && rows[c].0 == rows[i].0;
    if c < i {
        assert(rows[c].0 != rows[i].0);
    } else if c > i {
        assert(rows[i].0 != rows[c].0);
    }
}

/// Upserting keeps keys distinct, sets the key, and leaves the others.
pub proof fn lemma_upsert(rows: Seq<(Seq<char>, Seq<char>)>, k: Seq<char>, v: Seq<char>, k2: Seq<char>)
    requires
        keys_unique(rows),
    ensures
        keys_unique(upsert(rows, k, v)),
        lookup(upsert(rows, k, v), k) == Some(v),
        k2 != k ==> lookup(upsert(rows, k, v), k2) == lookup(rows, k2),
{
    let u = upsert(rows, k, v);
    if exists|i: int| 0 <= i < rows.len() && rows[i].0 == k {
        let i = choose|i: int| 0 <= i < rows.len() && rows[i].0 == k;
        assert forall|a: int, b: int| 0 <= a < b < u.len() implies u[a].0 != u[b].0 by {
            assert(u[a].0 == rows[a].0 && u[b].0 == rows[b].0);
        }
        lemma_lookup_at(u, i);
        if k2 != k {
            if exists|j: int| 0 <= j < rows.len() && rows[j].0 == k2 {
                let j = choose|j: int| 0 <= j < rows.len() && rows[j].0 == k2;
                lemma_lookup_at(rows, j);
                lemma_lookup_at(u, j);
            } else {
                assert(!exists|j: int| 0 <= j < u.len() && u[j].0 == k2) by {
                    if exists|j: int| 0 <= j < u.len() && u[j].0 == k2 {
                        let j = choose|j: int| 0 <= j < u.len() && u[j].0 == k2;
                        assert(rows[j].0 == k2);
                    }
                }
            }
        }
    } else {
        assert forall|a: int, b: int| 0 <= a < b < u.len() implies u[a].0 != u[b].0 by {
            if b == u.len() - 1 {
                assert(u[a] == rows[a]);
            }
        }
        lemma_lookup_at(u, rows.len() as int);
        if k2 != k {
            if exists|j: int| 0 <= j < rows.len() && rows[j].0 == k2 {
                let j = choose|j: int| 0 <= j < rows.len() && rows[j].0 == k2;
                lemma_lookup_at(rows, j);
                lemma_lookup_at(u, j);
            } else {
                assert(!exists|j: int| 0 <= j < u.len() && u[j].0 == k2) by {
                    if exists|j: int| 0 <= j < u.len() && u[j].0 == k2 {
                        let j = choose|j: int| 0 <= j < u.len() && u[j].0 == k2;
                        if j < rows.len() {
                            assert(rows[j].0 == k2);
                        }
                    }
                }
            }
        }
    }
}

/// After upserting pairs with distinct keys, each key holds its pair's value.
proof fn lemma_upsert_all(rows: Seq<(Seq<char>, Seq<char>)>, pairs: Seq<(Seq<char>, Seq<char>)>, j: int)
    requires
        keys_unique(rows),
        keys_unique(pairs),
        0 <= j < pairs.len(),
    ensures
        keys_unique(upsert_all(rows, pairs)),
        lookup(upsert_all(rows, pairs), pairs[j].0) == Some(pairs[j].1),
    decreases pairs.len(),
{
    let d = pairs.drop_last();
    let last = pairs.last();
    assert(keys_unique(d)) by {
        assert forall|a: int, b: int| 0 <= a < b < d.len() implies d[a].0 != d[b].0 by {
            assert(d[a] == pairs[a] && d[b] == pairs[b]);
        }
    }
    if j == pairs.len() - 1 {
        if d.len() > 0 {
            lemma_upsert_all(rows, d, 0);
        }
        lemma_upsert(upsert_all(rows, d), last.0, last.1, last.0);
    } else {
        lemma_upsert_all(rows, d, j);
        assert(d[j] == pairs[j]);
        assert(pairs[j].0 != last.0);
        lemma_upsert(upsert_all(rows, d), last.0, last.1, pairs[j].0);
    }
}

/// The keys of the settings are distinct.
proof fn lemma_config_keys_unique(c: ConfigView)
    ensures
        keys_unique(config_pairs(c)),
{
    let p = config_pairs(c);
    assert forall|a: int, b: int| 0 <= a < b < p.len() implies p[a].0 != p[b].0 by {
        assert(p[a].0.len() != p[b].0.len() || p[a].0[0] != p[b].0[0] || p[a].0[4] != p[b].0[4]);
    }
}

/// Saving the settings and reading them back gives them unchanged, whatever
/// other settings rows there were.
pub proof fn lemma_config_roundtrip(rows: Seq<(Seq<char>, Seq<char>)>, c: ConfigView)
    requires
        keys_unique(rows),
    ensures
        config_from_rows(upsert_all(rows, config_pairs(c))) == c,
{
    lemma_config_keys_unique(c);
    let p = config_pairs(c);
    let u = upsert_all(rows, p);
    lemma_upsert_all(rows, p, 0);
    lemma_upsert_all(rows, p, 1);
    lemma_upsert_all(rows, p, 2);
    lemma_upsert_all(rows, p, 3);
    lemma_upsert_all(rows, p, 4);
    lemma_upsert_all(rows, p, 5);
    lemma_upsert_all(rows, p, 6);
    lemma_upsert_all(rows, p, 7);
    lemma_confidence_text_roundtrip(c.auto_archive_confidence);
}

} // verus!
