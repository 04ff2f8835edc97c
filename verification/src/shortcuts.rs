//! Checking the two global shortcuts a user configures: they may not be
//! the same (ignoring ASCII case), and each that is set must parse as a
//! shortcut.
use vstd::prelude::*;
use crate::models::AppConfig;
use crate::text::{opt_seq, trim, trim_vec, to_chars, from_chars, append_slice};

verus! {

/// A name for what parsing a shortcut with `global_hotkey`'s
/// `HotKey::from_str` reports: `None` when the text is a valid shortcut,
/// otherwise the `Debug` text of the parse error.
pub uninterp spec fn shortcut_error(s: Seq<char>) -> Option<Seq<char>>;

/// `global_hotkey::hotkey::HotKey::from_str`: `None` when `s` parses, else
/// the error's `Debug` text. Which texts parse is named, not stated.
#[verifier::external_body]
fn parse_shortcut(s: &str) -> (r: Option<String>)
    ensures
        opt_seq(r) == shortcut_error(s@),
{
    match s.parse::<global_hotkey::hotkey::HotKey>() {
        Ok(_) => None,
        Err(e) => Some(format!("{:?}", e)),
    }
}

/// The code of `c`, with an ASCII capital made small.
pub open spec fn ascii_lower(c: char) -> int {
    if 'A' <= c && c <= 'Z' {
        (c as u32) + 32
    } else {
        c as u32 as int
    }
}

/// Whether `a` and `b` are equal but for ASCII case (`eq_ignore_ascii_case`;
/// non-ASCII characters must match exactly).
pub open spec fn eq_ignore_ascii_case(a: Seq<char>, b: Seq<char>) -> bool {
    a.len() == b.len() && forall|i: int| 0 <= i < a.len() ==> ascii_lower(#[trigger] a[i]) == ascii_lower(b[i])
}

/// The code of `c`, with an ASCII capital made small.
fn ascii_lower_exec(c: char) -> (r: u32)
    ensures
        r as int == ascii_lower(c),
{
    if 'A' <= c && c <= 'Z' {
        (c as u32) + 32
    } else {
        c as u32
    }
}

/// Tests `eq_ignore_ascii_case(a@, b@)`.
pub fn same_ignoring_ascii_case(a: &[char], b: &[char]) -> (r: bool)
    ensures
        r == eq_ignore_ascii_case(a@, b@),
{
    if a.len() != b.len() {
        return false;
    }
    let mut i: usize = 0;
    while i < a.len()
        invariant
            i <= a@.len(),
            a@.len() == b@.len(),
            forall|k: int| 0 <= k < i ==> ascii_lower(#[trigger] a@[k]) == ascii_lower(b@[k]),
        decreases a.len() - i,
    {
        if ascii_lower_exec(a[i]) != ascii_lower_exec(b[i]) {
            return false;
        }
        i = i + 1;
    }
    true
}

/// `"划选捕获快捷键与呼出主看板快捷键不能相同"`
pub open spec fn duplicate_message() -> Seq<char> {
    seq!['划', '选', '捕', '获', '快', '捷', '键', '与', '呼', '出', '主', '看', '板', '快', '捷', '键', '不', '能', '相', '同']
}

/// The message for a capture shortcut that does not parse.
pub open spec fn capture_invalid(cap: Seq<char>, err: Seq<char>) -> Seq<char> {
    seq!['划', '选', '快', '捷', '键', '格', '式', '无', '效', ' ', '['] + cap + seq![']', ' ', ':', ' '] + err
}

/// The message for a main-window shortcut that does not parse.
pub open spec fn main_invalid(main: Seq<char>, err: Seq<char>) -> Seq<char> {
    seq!['主', '看', '板', '快', '捷', '键', '格', '式', '无', '效', ' ', '['] + main + seq![']', ' ', ':', ' '] + err
}

/// The verdict on the trimmed shortcuts `cap` and `main`: refused when both
/// are set and equal but for ASCII case, or when one that is set does not
/// parse (the capture shortcut checked first).
pub open spec fn shortcuts_verdict(cap: Seq<char>, main: Seq<char>) -> Result<(), Seq<char>> {
    if cap.len() > 0 && main.len() > 0 && eq_ignore_ascii_case(cap, main) {
        Err(duplicate_message())
    } else if cap.len() > 0 && shortcut_error(cap) is Some {
        Err(capture_invalid(cap, shortcut_error(cap)->0))
    } else if main.len() > 0 && shortcut_error(main) is Some {
        Err(main_invalid(main, shortcut_error(main)->0))
    } else {
        Ok(())
    }
}

/// The view of a verdict.
pub open spec fn verdict_view(r: Result<(), String>) -> Result<(), Seq<char>> {
    match r {
        Ok(()) => Ok(()),
        Err(s) => Err(s@),
    }
}

/// The verdict on the trimmed shortcuts, given what parsing each reported
/// (`None` when it parses or was not parsed).
pub fn shortcuts_verdict_given(
    cap: &[char],
    main: &[char],
    cap_error: &Option<String>,
    main_error: &Option<String>,
) -> (r: Result<(), String>)
    ensures
        verdict_view(r) == if cap@.len() > 0 && main@.len() > 0 && eq_ignore_ascii_case(cap@, main@) {
            Err(duplicate_message())
        } else if cap@.len() > 0 && cap_error is Some {
            Err(capture_invalid(cap@, cap_error->0@))
        } else if main@.len() > 0 && main_error is Some {
            Err(main_invalid(main@, main_error->0@))
        } else {
            Ok(())
        },
{
    if cap.len() > 0 && main.len() > 0 && same_ignoring_ascii_case(cap, main) {
        let d: [char; 20] = ['划', '选', '捕', '获', '快', '捷', '键', '与', '呼', '出', '主', '看', '板', '快', '捷', '键', '不', '能', '相', '同'];
        assert(d@ == duplicate_message());
        return Err(from_chars(&d));
    }
    let tail: [char; 4] = [']', ' ', ':', ' '];
    if cap.len() > 0 {
        if let Some(e) = cap_error {
            let mut m: Vec<char> = Vec::new();
            let head: [char; 11] = ['划', '选', '快', '捷', '键', '格', '式', '无', '效', ' ', '['];
            append_slice(&mut m, &head);
            append_slice(&mut m, cap);
            append_slice(&mut m, &tail);
            let ev = to_chars(e.as_str());
            append_slice(&mut m, ev.as_slice());
            assert(m@ =~= capture_invalid(cap@, e@));
            return Err(from_chars(m.as_slice()));
        }
    }
    if main.len() > 0 {
        if let Some(e) = main_error {
            let mut m: Vec<char> = Vec::new();
            let head: [char; 12] = ['主', '看', '板', '快', '捷', '键', '格', '式', '无', '效', ' ', '['];
            append_slice(&mut m, &head);
            append_slice(&mut m, main);
            append_slice(&mut m, &tail);
            let ev = to_chars(e.as_str());
            append_slice(&mut m, ev.as_slice());
            assert(m@ =~= main_invalid(main@, e@));
            return Err(from_chars(m.as_slice()));
        }
    }
    Ok(())
}

/// Checks the shortcuts of `new_config` (see `shortcuts_verdict`).
pub fn validate_shortcuts(new_config: &AppConfig) -> (r: Result<(), String>)
    ensures
        verdict_view(r) == shortcuts_verdict(
            trim(new_config.capture_shortcut@),
            trim(new_config.main_window_shortcut@),
        ),
{
    let cv = to_chars(new_config.capture_shortcut.as_str());
    let cap = trim_vec(cv.as_slice());
    let mv = to_chars(new_config.main_window_shortcut.as_str());
    let main = trim_vec(mv.as_slice());
    let cap_s = from_chars(cap.as_slice());
    let main_s = from_chars(main.as_slice());
    let cap_error = if cap.len() > 0 {
        parse_shortcut(cap_s.as_str())
    } else {
        None
    };
    let main_error = if main.len() > 0 {
        parse_shortcut(main_s.as_str())
    } else {
        None
    };
    shortcuts_verdict_given(cap.as_slice(), main.as_slice(), &cap_error, &main_error)
}

} // verus!
