//! Recognising the chat a messenger window shows: which texts are the
//! messenger's own controls and words, how a text read off the title bar is
//! cleaned, and how likely it is to be a chat or group name.
use vstd::prelude::*;
use vstd::string::StringExecFns;
use crate::text::{
    contains, contains_exec, has_char, has_char_exec, starts_with, starts_with_exec, trim, trim_vec,
    to_chars, from_chars, views, utf8_len, utf8_len_is, sub_vec, lemma_trim_within, lemma_trim_idempotent,
};
use crate::ascii::{is_ascii_text, ascii_lower, ascii_upper, ascii_upper_char, lemma_upper_char, lemma_upper_trim, lemma_upper_keeps};
use crate::words::{any_in, contains_any, is_one_of};
use crate::routing::{hits, count_hits};
use crate::llm::{strip_trailing, strip_suffix_all, strip_suffix_all_vec};

verus! {

/// The messenger's own words: its name, its tabs, buttons and menu entries, prompts, and day names.
pub open spec fn system_words() -> Seq<Seq<char>> {
    seq![
        seq!['微', '信'],
        seq!['w', 'e', 'c', 'h', 'a', 't'],
        seq!['w', 'e', 'i', 'x', 'i', 'n'],
        seq!['聊', '天'],
        seq!['通', '讯', '录'],
        seq!['收', '藏'],
        seq!['朋', '友', '圈'],
        seq!['看', '一', '看'],
        seq!['搜', '一', '搜'],
        seq!['视', '频', '号'],
        seq!['小', '程', '序'],
        seq!['文', '件', '传', '输', '助', '手'],
        seq!['聊', '天', '信', '息'],
        seq!['发', '起', '群', '聊'],
        seq!['搜', '索'],
        seq!['最', '小', '化'],
        seq!['最', '大', '化'],
        seq!['还', '原'],
        seq!['关', '闭'],
        seq!['置', '顶'],
        seq!['取', '消', '置', '顶'],
        seq!['发', '送'],
        seq!['发', '送', '(', 's', ')'],
        seq!['表', '情'],
        seq!['发', '送', '文', '件'],
        seq!['截', '图'],
        seq!['聊', '天', '记', '录'],
        seq!['语', '音', '通', '话'],
        seq!['视', '频', '通', '话'],
        seq!['音', '视', '频', '通', '话'],
        seq!['更', '多'],
        seq!['设', '置'],
        seq!['切', '换', '账', '号'],
        seq!['退', '出'],
        seq!['按', '住', '鼠', '标', ' ', '语', '音', '输', '入', '文', '字'],
        seq!['按', '住', '鼠', '标', '语', '音', '输', '入', '文', '字'],
        seq!['输', '入', '文', '字'],
        seq!['星', '期', '一'],
        seq!['星', '期', '二'],
        seq!['星', '期', '三'],
        seq!['星', '期', '四'],
        seq!['星', '期', '五'],
        seq!['星', '期', '六'],
        seq!['星', '期', '日'],
        seq!['昨', '天'],
        seq!['今', '天'],
        seq!['前', '天'],
    ]
}

/// The list `system_words()`.
fn system_words_list() -> (r: Vec<Vec<char>>)
    ensures
        views(r@) == system_words(),
{
    let r: Vec<Vec<char>> = vec![
        vec!['微', '信'],
        vec!['w', 'e', 'c', 'h', 'a', 't'],
        vec!['w', 'e', 'i', 'x', 'i', 'n'],
        vec!['聊', '天'],
        vec!['通', '讯', '录'],
        vec!['收', '藏'],
        vec!['朋', '友', '圈'],
        vec!['看', '一', '看'],
        vec!['搜', '一', '搜'],
        vec!['视', '频', '号'],
        vec!['小', '程', '序'],
        vec!['文', '件', '传', '输', '助', '手'],
        vec!['聊', '天', '信', '息'],
        vec!['发', '起', '群', '聊'],
        vec!['搜', '索'],
        vec!['最', '小', '化'],
        vec!['最', '大', '化'],
        vec!['还', '原'],
        vec!['关', '闭'],
        vec!['置', '顶'],
        vec!['取', '消', '置', '顶'],
        vec!['发', '送'],
        vec!['发', '送', '(', 's', ')'],
        vec!['表', '情'],
        vec!['发', '送', '文', '件'],
        vec!['截', '图'],
        vec!['聊', '天', '记', '录'],
        vec!['语', '音', '通', '话'],
        vec!['视', '频', '通', '话'],
        vec!['音', '视', '频', '通', '话'],
        vec!['更', '多'],
        vec!['设', '置'],
        vec!['切', '换', '账', '号'],
        vec!['退', '出'],
        vec!['按', '住', '鼠', '标', ' ', '语', '音', '输', '入', '文', '字'],
        vec!['按', '住', '鼠', '标', '语', '音', '输', '入', '文', '字'],
        vec!['输', '入', '文', '字'],
        vec!['星', '期', '一'],
        vec!['星', '期', '二'],
        vec!['星', '期', '三'],
        vec!['星', '期', '四'],
        vec!['星', '期', '五'],
        vec!['星', '期', '六'],
        vec!['星', '期', '日'],
        vec!['昨', '天'],
        vec!['今', '天'],
        vec!['前', '天'],
    ];
    assert(views(r@) =~= system_words());
    r
}

/// Fragments of the messenger's internal window class names.
pub open spec fn class_markers() -> Seq<Seq<char>> {
    seq![
        seq!['m', 'm', 'u', 'i', 'r', 'e', 'n', 'd', 'e', 'r'],
        seq!['s', 'u', 'b', 'w', 'i', 'n', 'd', 'o', 'w'],
        seq!['w', 'e', 'c', 'h', 'a', 't', 'm', 'a', 'i', 'n', 'w', 'n', 'd'],
        seq!['c', 'h', 'a', 't', 'w', 'n', 'd'],
        seq!['s', 'e', 's', 's', 'i', 'o', 'n', 'l', 'i', 's', 't', 'w', 'n', 'd'],
        seq!['c', 'o', 'n', 't', 'a', 'c', 't', 'm', 'a', 'n', 'a', 'g', 'e', 'r'],
        seq!['f', 't', 's', 'm', 'a', 'i', 'n', 'w', 'n', 'd'],
        seq!['i', 'm', 'a', 'g', 'e', 'p', 'r', 'e', 'v', 'i', 'e', 'w', 'w', 'n', 'd'],
        seq!['c', 'h', 'r', 'o', 'm', 'e', '_', 'w', 'i', 'd', 'g', 'e', 't'],
        seq!['q', 'w', 'i', 'n', 'd', 'o', 'w'],
        seq!['q', 't', '5'],
    ]
}

/// The list `class_markers()`.
fn class_markers_list() -> (r: Vec<Vec<char>>)
    ensures
        views(r@) == class_markers(),
{
    let r: Vec<Vec<char>> = vec![
        vec!['m', 'm', 'u', 'i', 'r', 'e', 'n', 'd', 'e', 'r'],
        vec!['s', 'u', 'b', 'w', 'i', 'n', 'd', 'o', 'w'],
        vec!['w', 'e', 'c', 'h', 'a', 't', 'm', 'a', 'i', 'n', 'w', 'n', 'd'],
        vec!['c', 'h', 'a', 't', 'w', 'n', 'd'],
        vec!['s', 'e', 's', 's', 'i', 'o', 'n', 'l', 'i', 's', 't', 'w', 'n', 'd'],
        vec!['c', 'o', 'n', 't', 'a', 'c', 't', 'm', 'a', 'n', 'a', 'g', 'e', 'r'],
        vec!['f', 't', 's', 'm', 'a', 'i', 'n', 'w', 'n', 'd'],
        vec!['i', 'm', 'a', 'g', 'e', 'p', 'r', 'e', 'v', 'i', 'e', 'w', 'w', 'n', 'd'],
        vec!['c', 'h', 'r', 'o', 'm', 'e', '_', 'w', 'i', 'd', 'g', 'e', 't'],
        vec!['q', 'w', 'i', 'n', 'd', 'o', 'w'],
        vec!['q', 't', '5'],
    ];
    assert(views(r@) =~= class_markers());
    r
}

/// Words that chat and group names often hold.
pub open spec fn group_words() -> Seq<Seq<char>> {
    seq![
        seq!['群'],
        seq!['组'],
        seq!['项', '目'],
        seq!['对', '接'],
        seq!['协', '同'],
        seq!['沟', '通'],
        seq!['研', '发'],
        seq!['技', '术'],
        seq!['交', '付'],
        seq!['通', '知'],
        seq!['团', '队'],
        seq!['兼', '职'],
        seq!['校', '对'],
        seq!['文', '本'],
        seq!['标', '注'],
        seq!['标', '贝'],
        seq!['曦', '瀚'],
        seq!['质', '检'],
        seq!['翻', '译'],
        seq!['业', '务'],
        seq!['交', '流'],
        seq!['部'],
        seq!['公', '司'],
        seq!['@'],
        seq!['中', '心'],
        seq!['工', '作', '室'],
    ]
}

/// The list `group_words()`.
fn group_words_list() -> (r: Vec<Vec<char>>)
    ensures
        views(r@) == group_words(),
{
    let r: Vec<Vec<char>> = vec![
        vec!['群'],
        vec!['组'],
        vec!['项', '目'],
        vec!['对', '接'],
        vec!['协', '同'],
        vec!['沟', '通'],
        vec!['研', '发'],
        vec!['技', '术'],
        vec!['交', '付'],
        vec!['通', '知'],
        vec!['团', '队'],
        vec!['兼', '职'],
        vec!['校', '对'],
        vec!['文', '本'],
        vec!['标', '注'],
        vec!['标', '贝'],
        vec!['曦', '瀚'],
        vec!['质', '检'],
        vec!['翻', '译'],
        vec!['业', '务'],
        vec!['交', '流'],
        vec!['部'],
        vec!['公', '司'],
        vec!['@'],
        vec!['中', '心'],
        vec!['工', '作', '室'],
    ];
    assert(r@[0]@ =~= seq!['群']);
    assert(r@[1]@ =~= seq!['组']);
    assert(r@[21]@ =~= seq!['部']);
    assert(r@[23]@ =~= seq!['@']);
    assert(views(r@) =~= group_words());
    r
}

/// A name for what `str::to_lowercase` gives: the Unicode lowercase form
/// of a text.
pub uninterp spec fn lowercase(s: Seq<char>) -> Seq<char>;

/// `str::to_lowercase`. Its result is named `lowercase`; of an ASCII text
/// it is stated that only the capitals `A`–`Z` change, to `a`–`z`, as the
/// Unicode lowercase mapping that std documents gives them.
#[verifier::external_body]
pub(crate) fn to_lower(s: &str) -> (r: String)
    ensures
        r@ == lowercase(s@),
        is_ascii_text(s@) ==> r@ == ascii_lower(s@),
{
    s.to_lowercase()
}

/// Whether `c` is a Han character of the basic block or extension A.
pub open spec fn is_cjk_spec(c: char) -> bool {
    (0x4E00 <= c as u32 && c as u32 <= 0x9FFF) || (0x3400 <= c as u32 && c as u32 <= 0x4DBF)
}

/// Whether `c` is a Han character (see `is_cjk_spec`).
pub fn is_cjk(c: char) -> (r: bool)
    ensures
        r == is_cjk_spec(c),
{
    let u = c as u32;
    (0x4E00 <= u && u <= 0x9FFF) || (0x3400 <= u && u <= 0x4DBF)
}

/// Whether every character of `t` is an ASCII digit, `:` or a space.
pub open spec fn time_chars(t: Seq<char>) -> bool {
    forall|i: int| 0 <= i < t.len() ==> (('0' <= #[trigger] t[i] && t[i] <= '9') || t[i] == ':' || t[i]
        == ' ')
}

/// `"mmui"`
pub open spec fn mmui() -> Seq<char> {
    seq!['m', 'm', 'u', 'i']
}

/// Whether the trimmed text `t`, whose lowercase form is `lower`, is one of
/// the messenger's own texts rather than a chat name: empty, several lines,
/// over 50 characters, an internal class name, a bare time, or one of the
/// messenger's words.
pub open spec fn system_keyword(t: Seq<char>, lower: Seq<char>) -> bool {
    ||| t.len() == 0
    ||| has_char(t, '\n')
    ||| has_char(t, '\r')
    ||| t.len() > 50
    ||| any_in(lower, class_markers())
    ||| starts_with(lower, mmui())
    ||| (utf8_len(t) <= 8 && has_char(t, ':') && time_chars(t))
    ||| system_words().contains(lower)
}

/// Tests `time_chars(t@)`.
fn time_chars_exec(t: &[char]) -> (r: bool)
    ensures
        r == time_chars(t@),
{
    let mut i: usize = 0;
    while i < t.len()
        invariant
            i <= t@.len(),
            forall|k: int| 0 <= k < i ==> (('0' <= #[trigger] t@[k] && t@[k] <= '9') || t@[k] == ':'
                || t@[k] == ' '),
        decreases t.len() - i,
    {
        let c = t[i];
        if !(('0' <= c && c <= '9') || c == ':' || c == ' ') {
            return false;
        }
        i = i + 1;
    }
    true
}

/// Tests `system_keyword(trimmed@, lower@)`, where `lower` is the lowercase
/// form of `trimmed`.
pub fn system_keyword_given(trimmed: &str, lower: &str) -> (r: bool)
    ensures
        r == system_keyword(trimmed@, lower@),
{
    let t = to_chars(trimmed);
    let l = to_chars(lower);
    if t.len() == 0 || has_char_exec(t.as_slice(), '\n') || has_char_exec(t.as_slice(), '\r') || t.len() > 50 {
        return true;
    }
    let markers = class_markers_list();
    let m: [char; 4] = ['m', 'm', 'u', 'i'];
    assert(m@ == mmui());
    if contains_any(l.as_slice(), &markers) || starts_with_exec(l.as_slice(), &m) {
        return true;
    }
    let short = utf8_len_is(t.as_slice(), 0) || utf8_len_is(t.as_slice(), 1) || utf8_len_is(t.as_slice(), 2)
        || utf8_len_is(t.as_slice(), 3) || utf8_len_is(t.as_slice(), 4) || utf8_len_is(t.as_slice(), 5)
        || utf8_len_is(t.as_slice(), 6) || utf8_len_is(t.as_slice(), 7) || utf8_len_is(t.as_slice(), 8);
    if short && has_char_exec(t.as_slice(), ':') && time_chars_exec(t.as_slice()) {
        return true;
    }
    let words = system_words_list();
    is_one_of(l.as_slice(), &words)
}

/// Whether `name` is one of the messenger's own texts: `system_keyword` of
/// its trimmed form and that form's lowercase, which for an ASCII name is
/// its ASCII lowercase.
pub fn is_system_keyword(name: &str) -> (r: bool)
    ensures
        r == system_keyword(trim(name@), lowercase(trim(name@))),
        is_ascii_text(name@) ==> r == system_keyword(trim(name@), ascii_lower(trim(name@))),
{
    let v = to_chars(name);
    let t = trim_vec(v.as_slice());
    let ts = from_chars(t.as_slice());
    if t.len() == 0 || has_char_exec(t.as_slice(), '\n') || has_char_exec(t.as_slice(), '\r') || t.len() > 50 {
        return true;
    }
    proof {
        if is_ascii_text(name@) {
            let k = lemma_trim_within(name@);
            assert forall|i: int| 0 <= i < ts@.len() implies (#[trigger] ts@[i] as u32) < 128 by {
                assert(ts@[i] == name@[k + i]);
            }
        }
    }
    let lower = to_lower(ts.as_str());
    system_keyword_given(ts.as_str(), lower.as_str())
}


/// The likelihood that the cleaned text `c` is a chat or group name, where
/// `sys` says whether it is one of the messenger's own texts: counts, brackets,
/// enumeration commas, group words, joiners and a name-like length raise it;
/// the search box lowers it.
pub open spec fn ocr_score(c: Seq<char>, sys: bool) -> int {
    let n = c.len();
    if n == 0 || sys {
        -100
    } else if n < 2 || n > 45 {
        -50
    } else {
        30 + (if (has_char(c, '(') && has_char(c, ')')) || (has_char(c, '（') && has_char(c, '）')) || (
        has_char(c, '[') && has_char(c, ']')) {
            100int
        } else {
            0int
        }) + (if (has_char(c, '【') && has_char(c, '】')) || (has_char(c, '[') && has_char(c, ']')) || (
        has_char(c, '《') && has_char(c, '》')) {
            60int
        } else {
            0int
        }) + (if has_char(c, '、') {
            50int
        } else {
            0int
        }) + 35 * hits(group_words(), c) + (if has_char(c, '&') || has_char(c, '_') || has_char(c, '-')
            || has_char(c, '~') {
            30int
        } else {
            0int
        }) + (if 8 <= n && n <= 35 {
            35int
        } else if 2 <= n && n <= 7 {
            15int
        } else {
            0int
        }) - (if contains(c, seq!['搜', '索']) {
            80int
        } else {
            0int
        })
    }
}

/// Computes `ocr_score(clean@, sys)`.
pub fn ocr_score_given(clean: &str, sys: bool) -> (r: i32)
    ensures
        r == ocr_score(clean@, sys),
{
    let c = to_chars(clean);
    let n = c.len();
    if n == 0 || sys {
        return -100;
    }
    if n < 2 || n > 45 {
        return -50;
    }
    let cs = c.as_slice();
    let mut score: i32 = 30;
    if (has_char_exec(cs, '(') && has_char_exec(cs, ')')) || (has_char_exec(cs, '（') && has_char_exec(cs, '）'))
        || (has_char_exec(cs, '[') && has_char_exec(cs, ']')) {
        score = score + 100;
    }
    if (has_char_exec(cs, '【') && has_char_exec(cs, '】')) || (has_char_exec(cs, '[') && has_char_exec(cs, ']'))
        || (has_char_exec(cs, '《') && has_char_exec(cs, '》')) {
        score = score + 60;
    }
    if has_char_exec(cs, '、') {
        score = score + 50;
    }
    let words = group_words_list();
    let h = count_hits(&words, cs);
    assert(h <= 26);
    score = score + 35 * (h as i32);
    if has_char_exec(cs, '&') || has_char_exec(cs, '_') || has_char_exec(cs, '-') || has_char_exec(cs, '~') {
        score = score + 30;
    }
    if 8 <= n && n <= 35 {
        score = score + 35;
    } else if 2 <= n && n <= 7 {
        score = score + 15;
    }
    let search: [char; 2] = ['搜', '索'];
    assert(search@ == seq!['搜', '索']);
    if contains_exec(cs, &search) {
        score = score - 80;
    }
    score
}

/// Recognises the chat a messenger window shows.
pub struct WechatDetector;

impl WechatDetector {
    /// The score of an OCR text: `ocr_score` of the trimmed text, with
    /// whether that is one of the messenger's own texts.
    pub fn score_ocr_candidate(text: &str) -> (r: i32)
        ensures
            r == line_score(text@),
    {
        let v = to_chars(text);
        let t = trim_vec(v.as_slice());
        let clean = from_chars(t.as_slice());
        if t.len() == 0 {
            return -100;
        }
        let sys = is_system_keyword(clean.as_str());
        ocr_score_given(clean.as_str(), sys)
    }
}


/// `s` without the copies of `c` at its start.
pub open spec fn strip_leading(s: Seq<char>, c: char) -> Seq<char>
    decreases s.len(),
{
    if s.len() > 0 && s[0] == c {
        strip_leading(s.drop_first(), c)
    } else {
        s
    }
}

/// The icons a title bar shows before a chat name.
pub open spec fn is_icon(c: char) -> bool {
    c == '⊕' || c == '+' || c == '·' || c == '•' || c == '●' || c == '○' || c == '>' || c == '<' || c == '*'
}

/// `s` without its leading icons.
pub open spec fn strip_icons(s: Seq<char>) -> Seq<char>
    decreases s.len(),
{
    if s.len() > 0 && is_icon(s[0]) {
        strip_icons(s.drop_first())
    } else {
        s
    }
}

/// The characters that OCR reads off a status icon.
pub open spec fn is_marker(c: char) -> bool {
    ('a' <= c && c <= 'z') || ('A' <= c && c <= 'Z') || c == '·' || c == '-' || c == '•' || c == '●'
        || c == '○' || c == '>' || c == '<' || c == '+' || c == '⊕'
}

/// The position of the first space of `s`, if any.
pub open spec fn first_space(s: Seq<char>) -> Option<int>
    decreases s.len(),
{
    if s.len() == 0 {
        None
    } else if s[0] == ' ' {
        Some(0)
    } else {
        match first_space(s.drop_first()) {
            Some(i) => Some(i + 1),
            None => None,
        }
    }
}

/// `s` without a leading one-character icon reading and its space.
pub open spec fn drop_marker(s: Seq<char>) -> Seq<char> {
    match first_space(s) {
        Some(k) => if k == 1 && is_marker(s[0]) {
            trim(s.skip(2))
        } else {
            s
        },
        None => s,
    }
}

/// `s` without the detail buttons and arrows OCR reads at its end.
pub open spec fn strip_tail_marks(s: Seq<char>) -> Seq<char> {
    trim(
        strip_trailing(
            strip_trailing(
                strip_trailing(
                    strip_trailing(
                        strip_trailing(
                            strip_trailing(
                                strip_suffix_all(strip_suffix_all(s, seq!['·', '·', '·']), seq!['.', '.', '.']),
                                '…',
                            ),
                            '·',
                        ),
                        'v',
                    ),
                    'V',
                ),
                '^',
            ),
            '>',
        ),
    )
}

/// The punctuation that joins parts of a group name.
pub open spec fn is_joiner(c: char) -> bool {
    c == '【' || c == '】' || c == '《' || c == '》' || c == '、' || c == '-' || c == '—' || c == '_'
}

/// Whether `c` is an ASCII digit.
pub open spec fn is_digit(c: char) -> bool {
    '0' <= c && c <= '9'
}

/// Whether the character at `i` of `cs` is a space that OCR put between the
/// parts of one name: between two Han characters, between a Han character
/// and a joiner, between digits and Han characters, or inside the brackets
/// around a count.
pub open spec fn spurious_space(cs: Seq<char>, i: int) -> bool {
    let has_prev = i > 0;
    let has_next = i + 1 < cs.len();
    let p = cs[i - 1];
    let n = cs[i + 1];
    &&& cs[i] == ' '
    &&& {
        ||| (has_prev && is_cjk_spec(p) && has_next && is_cjk_spec(n))
        ||| (has_prev && is_cjk_spec(p) && has_next && is_joiner(n))
        ||| (has_prev && is_joiner(p) && has_next && is_cjk_spec(n))
        ||| (has_prev && is_digit(p) && has_next && is_cjk_spec(n))
        ||| (has_prev && is_cjk_spec(p) && has_next && is_digit(n))
        ||| (has_prev && (p == '(' || p == '（') && has_next && is_digit(n))
        ||| (has_prev && is_digit(p) && has_next && (n == ')' || n == '）'))
    }
}

/// The first `k` characters of `cs` without their spurious spaces.
pub open spec fn merge_upto(cs: Seq<char>, k: int) -> Seq<char>
    decreases k,
{
    if k <= 0 {
        Seq::empty()
    } else if spurious_space(cs, k - 1) {
        merge_upto(cs, k - 1)
    } else {
        merge_upto(cs, k - 1).push(cs[k - 1])
    }
}

/// A text read off a title bar, cleaned: trimmed, leading colons and icons
/// and a one-character icon reading removed, trailing buttons and arrows
/// removed, spurious spaces removed, trimmed.
pub open spec fn clean_ocr(text: Seq<char>) -> Seq<char> {
    let a = trim(strip_leading(strip_leading(trim(text), ':'), '：'));
    let b = trim(strip_icons(a));
    let c = strip_tail_marks(drop_marker(b));
    trim(merge_upto(c, c.len() as int))
}

/// Removes the copies of `c` at the start of `s`.
fn strip_leading_vec(s: &[char], c: char) -> (r: Vec<char>)
    ensures
        r@ == strip_leading(s@, c),
{
    let mut a: usize = 0;
    assert(s@.skip(0) =~= s@);
    while a < s.len() && s[a] == c
        invariant
            a <= s@.len(),
            strip_leading(s@.skip(a as int), c) == strip_leading(s@, c),
        decreases s.len() - a,
    {
        assert(s@.skip(a as int).drop_first() =~= s@.skip(a + 1));
        a = a + 1;
    }
    let r = sub_vec(s, a, s.len());
    assert(r@ =~= s@.skip(a as int));
    r
}

/// Removes the leading icons of `s`.
fn strip_icons_vec(s: &[char]) -> (r: Vec<char>)
    ensures
        r@ == strip_icons(s@),
{
    let mut a: usize = 0;
    assert(s@.skip(0) =~= s@);
    while a < s.len() && (s[a] == '⊕' || s[a] == '+' || s[a] == '·' || s[a] == '•' || s[a] == '●' || s[a]
        == '○' || s[a] == '>' || s[a] == '<' || s[a] == '*')
        invariant
            a <= s@.len(),
            strip_icons(s@.skip(a as int)) == strip_icons(s@),
        decreases s.len() - a,
    {
        assert(s@.skip(a as int).drop_first() =~= s@.skip(a + 1));
        a = a + 1;
    }
    let r = sub_vec(s, a, s.len());
    assert(r@ =~= s@.skip(a as int));
    r
}

/// Removes the copies of `c` at the end of `s`.
fn strip_trailing_vec(s: &[char], c: char) -> (r: Vec<char>)
    ensures
        r@ == strip_trailing(s@, c),
{
    let mut b: usize = s.len();
    assert(s@.take(b as int) =~= s@);
    while b > 0 && s[b - 1] == c
        invariant
            b <= s@.len(),
            strip_trailing(s@.take(b as int), c) == strip_trailing(s@, c),
        decreases b,
    {
        assert(s@.take(b as int).drop_last() =~= s@.take(b - 1));
        b = b - 1;
    }
    sub_vec(s, 0, b)
}

proof fn lemma_first_space_at(s: Seq<char>, i: int)
    requires
        0 <= i < s.len(),
        s[i] == ' ',
        forall|k: int| 0 <= k < i ==> s[k] != ' ',
    ensures
        first_space(s) == Some(i),
    decreases i,
{
    if i > 0 {
        let d = s.drop_first();
        assert forall|k: int| 0 <= k < i - 1 implies d[k] != ' ' by {
            assert(d[k] == s[k + 1]);
        }
        lemma_first_space_at(d, i - 1);
    }
}

proof fn lemma_first_space_none(s: Seq<char>)
    requires
        forall|k: int| 0 <= k < s.len() ==> s[k] != ' ',
    ensures
        first_space(s) is None,
    decreases s.len(),
{
    if s.len() > 0 {
        let d = s.drop_first();
        assert forall|k: int| 0 <= k < d.len() implies d[k] != ' ' by {
            assert(d[k] == s[k + 1]);
        }
        lemma_first_space_none(d);
    }
}

/// Computes `drop_marker(s@)`.
fn drop_marker_vec(s: &[char]) -> (r: Vec<char>)
    ensures
        r@ == drop_marker(s@),
{
    let mut k: usize = 0;
    while k < s.len() && s[k] != ' '
        invariant
            k <= s@.len(),
            forall|m: int| 0 <= m < k ==> s@[m] != ' ',
        decreases s.len() - k,
    {
        k = k + 1;
    }
    let whole = sub_vec(s, 0, s.len());
    assert(whole@ =~= s@);
    if k == s.len() {
        proof {
            lemma_first_space_none(s@);
        }
        return whole;
    }
    proof {
        lemma_first_space_at(s@, k as int);
    }
    if k == 1 {
        let c = s[0];
        if ('a' <= c && c <= 'z') || ('A' <= c && c <= 'Z') || c == '·' || c == '-' || c == '•' || c == '●'
            || c == '○' || c == '>' || c == '<' || c == '+' || c == '⊕' {
            let rest = sub_vec(s, 2, s.len());
            assert(rest@ =~= s@.skip(2));
            return trim_vec(rest.as_slice());
        }
    }
    whole
}

/// Computes `strip_tail_marks(s@)`.
fn strip_tail_marks_vec(s: &[char]) -> (r: Vec<char>)
    ensures
        r@ == strip_tail_marks(s@),
{
    let dots3: [char; 3] = ['·', '·', '·'];
    let period3: [char; 3] = ['.', '.', '.'];
    assert(dots3@ == seq!['·', '·', '·']);
    assert(period3@ == seq!['.', '.', '.']);
    let a = strip_suffix_all_vec(s, &dots3);
    let b = strip_suffix_all_vec(a.as_slice(), &period3);
    let c = strip_trailing_vec(b.as_slice(), '…');
    let d = strip_trailing_vec(c.as_slice(), '·');
    let e = strip_trailing_vec(d.as_slice(), 'v');
    let f = strip_trailing_vec(e.as_slice(), 'V');
    let g = strip_trailing_vec(f.as_slice(), '^');
    let h = strip_trailing_vec(g.as_slice(), '>');
    trim_vec(h.as_slice())
}

/// Whether the joiner test holds of `c`.
fn is_joiner_exec(c: char) -> (r: bool)
    ensures
        r == is_joiner(c),
{
    c == '【' || c == '】' || c == '《' || c == '》' || c == '、' || c == '-' || c == '—' || c == '_'
}

/// Tests `spurious_space(cs@, i)`.
fn spurious_space_exec(cs: &[char], i: usize) -> (r: bool)
    requires
        i < cs@.len(),
    ensures
        r == spurious_space(cs@, i as int),
{
    if cs[i] != ' ' || i == 0 || i + 1 >= cs.len() {
        return false;
    }
    let p = cs[i - 1];
    let n = cs[i + 1];
    let p_cjk = is_cjk(p);
    let n_cjk = is_cjk(n);
    let p_digit = '0' <= p && p <= '9';
    let n_digit = '0' <= n && n <= '9';
    (p_cjk && n_cjk) || (p_cjk && is_joiner_exec(n)) || (is_joiner_exec(p) && n_cjk) || (p_digit && n_cjk) || (
    p_cjk && n_digit) || ((p == '(' || p == '（') && n_digit) || (p_digit && (n == ')' || n == '）'))
}

impl WechatDetector {
    /// Cleans a text read off a title bar (see `clean_ocr`).
    pub fn clean_ocr_candidate(text: &str) -> (r: String)
        ensures
            r@ == clean_ocr(text@),
    {
        let v = to_chars(text);
        let t0 = trim_vec(v.as_slice());
        let t1 = strip_leading_vec(t0.as_slice(), ':');
        let t2 = strip_leading_vec(t1.as_slice(), '：');
        let a = trim_vec(t2.as_slice());
        let t3 = strip_icons_vec(a.as_slice());
        let b = trim_vec(t3.as_slice());
        let t4 = drop_marker_vec(b.as_slice());
        let c = strip_tail_marks_vec(t4.as_slice());
        let mut merged: Vec<char> = Vec::new();
        let mut i: usize = 0;
        while i < c.len()
            invariant
                i <= c@.len(),
                merged@ == merge_upto(c@, i as int),
            decreases c.len() - i,
        {
            if !spurious_space_exec(c.as_slice(), i) {
                merged.push(c[i]);
            }
            i = i + 1;
        }
        let out = trim_vec(merged.as_slice());
        from_chars(out.as_slice())
    }
}


/// Whether a cleaned OCR line is the messenger's own text.
pub open spec fn own_text(c: Seq<char>) -> bool {
    system_keyword(trim(c), lowercase(trim(c)))
}

/// The score of a cleaned OCR line, as `score_ocr_candidate` gives it.
pub open spec fn line_score(c: Seq<char>) -> int {
    ocr_score(trim(c), own_text(trim(c)))
}

/// The best line of an OCR reading, given the best so far: each line is
/// cleaned; empty lines and the messenger's own texts are skipped; a line
/// replaces the best when its score is positive and strictly higher.
pub open spec fn best_line(best: Option<(Seq<char>, int)>, lines: Seq<Seq<char>>) -> Option<(Seq<char>, int)>
    decreases lines.len(),
{
    if lines.len() == 0 {
        best
    } else {
        let prev = best_line(best, lines.drop_last());
        let c = clean_ocr(lines.last());
        if c.len() == 0 || own_text(c) {
            prev
        } else {
            let sc = line_score(c);
            let beats = match prev {
                Some((_, b)) => sc > b,
                None => true,
            };
            if sc > 0 && beats {
                Some((c, sc))
            } else {
                prev
            }
        }
    }
}

/// Whether line `l` of a reading can be picked: cleaned, it is not empty,
/// not one of the messenger's own texts, and scores above zero.
pub open spec fn pickable(l: Seq<char>) -> bool {
    let c = clean_ocr(l);
    c.len() > 0 && !own_text(c) && line_score(c) > 0
}

/// The best line is the highest-scoring one: the result is the best so far
/// or a pickable line of the reading with its score, it scores at least as
/// high as the best so far, and no pickable line scores strictly higher
/// than it; when anything was pickable, there is a result.
pub proof fn lemma_best_line_is_highest(best: Option<(Seq<char>, int)>, lines: Seq<Seq<char>>)
    ensures
        best_line(best, lines) == best || exists|k: int|
            0 <= k < lines.len() && pickable(lines[k]) && best_line(best, lines) == Some(
                (clean_ocr(lines[k]), line_score(clean_ocr(lines[k]))),
            ),
        best matches Some((_, b)) ==> best_line(best, lines) matches Some((_, r)) && r >= b,
        forall|k: int|
            0 <= k < lines.len() && pickable(#[trigger] lines[k]) ==> (best_line(best, lines) matches Some((_, r))
                && r >= line_score(clean_ocr(lines[k]))),
    decreases lines.len(),
{
    if lines.len() > 0 {
        let d = lines.drop_last();
        lemma_best_line_is_highest(best, d);
        assert forall|k: int| 0 <= k < d.len() implies d[k] == lines[k] by {}
        let prev = best_line(best, d);
        if prev != best {
            let k = choose|k: int|
                0 <= k < d.len() && pickable(d[k]) && prev == Some((clean_ocr(d[k]), line_score(clean_ocr(d[k]))));
            assert(lines[k] == d[k]);
        }
        assert forall|k: int|
            0 <= k < lines.len() && pickable(#[trigger] lines[k]) implies (best_line(best, lines) matches Some((_, r))
                && r >= line_score(clean_ocr(lines[k]))) by {
            if k < lines.len() - 1 {
                assert(lines[k] == d[k]);
                assert(pickable(d[k]));
            }
        }
    }
}

/// The view of a best line.
pub open spec fn best_view(b: Option<(String, i32)>) -> Option<(Seq<char>, int)> {
    match b {
        Some((t, s)) => Some((t@, s as int)),
        None => None,
    }
}

impl WechatDetector {
    /// The best line of one OCR reading, given the best so far (see
    /// `best_line`; the reading is trimmed and split into lines).
    pub fn pick_ocr_line(reading: &str, best: Option<(String, i32)>) -> (r: Option<(String, i32)>)
        ensures
            best_view(r) == best_line(best_view(best), crate::text::split_by(trim(reading@), seq!['\n'])),
            forall|k: int|
                0 <= k < crate::text::split_by(trim(reading@), seq!['\n']).len() && pickable(
                    #[trigger] crate::text::split_by(trim(reading@), seq!['\n'])[k],
                ) ==> (r matches Some((_, s)) && s >= line_score(
                    clean_ocr(crate::text::split_by(trim(reading@), seq!['\n'])[k]),
                )),
            best matches Some((_, b)) ==> r matches Some((_, s)) && s >= b,
    {
        let v = to_chars(reading);
        let t = trim_vec(v.as_slice());
        let nl: [char; 1] = ['\n'];
        assert(nl@ == seq!['\n']);
        let lines = crate::text::split_chars(t.as_slice(), &nl);
        let ghost lv = views(lines@);
        let ghost b0 = best_view(best);
        let mut cur = best;
        let mut i: usize = 0;
        assert(lv.take(0) =~= Seq::<Seq<char>>::empty());
        while i < lines.len()
            invariant
                i <= lines@.len(),
                lv == views(lines@),
                best_view(cur) == best_line(b0, lv.take(i as int)),
            decreases lines.len() - i,
        {
            assert(lv.take(i + 1).drop_last() =~= lv.take(i as int));
            assert(lv.take(i + 1).last() == lines@[i as int]@);
            let line = from_chars(lines[i].as_slice());
            let c = Self::clean_ocr_candidate(line.as_str());
            let cv = to_chars(c.as_str());
            let ct = trim_vec(cv.as_slice());
            assert(ct@ == trim(c@));
            if cv.len() > 0 && !is_system_keyword(c.as_str()) {
                let sc = Self::score_ocr_candidate(c.as_str());
                let better = match &cur {
                    None => true,
                    Some((_, b)) => sc > *b,
                };
                if sc > 0 && better {
                    cur = Some((c, sc));
                }
            }
            i = i + 1;
        }
        assert(lv.take(lines@.len() as int) =~= lv);
        proof {
            lemma_best_line_is_highest(b0, lv);
        }
        cur
    }

    /// Whether the first OCR reading settles the chat: its best line
    /// scores 70 or more.
    pub fn first_pass_settles(best: &Option<(String, i32)>) -> (r: bool)
        ensures
            r == (best matches Some((_, s)) && s >= 70),
    {
        match best {
            Some((_, s)) => *s >= 70,
            None => false,
        }
    }

    /// The chat name after both readings: the best line when it scores 30
    /// or more.
    pub fn final_ocr_title(best: Option<(String, i32)>) -> (r: Option<String>)
        ensures
            r matches Some(t) ==> best matches Some((bt, s)) && t == bt && s >= 30,
            r is None ==> !(best matches Some((_, s)) && s >= 30),
    {
        match best {
            Some((t, s)) => if s >= 30 {
                Some(t)
            } else {
                None
            },
            None => None,
        }
    }
}

/// `"subwindow"`, `"mmuirender"`, `"wechatmainwnd"`.
pub open spec fn frame_markers() -> Seq<Seq<char>> {
    seq![seq!['s', 'u', 'b', 'w', 'i', 'n', 'd', 'o', 'w'], seq!['m', 'm', 'u', 'i', 'r', 'e', 'n', 'd', 'e', 'r'], seq!['w', 'e', 'c', 'h', 'a', 't', 'm', 'a', 'i', 'n', 'w', 'n', 'd']]
}

/// `"图片查看"`
pub open spec fn image_viewer() -> Seq<char> {
    seq!['图', '片', '查', '看']
}

/// `"微信（"`
pub open spec fn wechat_paren() -> Seq<char> {
    seq!['微', '信', '（']
}

/// `" - 微信"`
pub open spec fn wechat_suffix() -> Seq<char> {
    seq![' ', '-', ' ', '微', '信']
}

/// `" - WeChat"`
pub open spec fn wechat_suffix_en() -> Seq<char> {
    seq![' ', '-', ' ', 'W', 'e', 'C', 'h', 'a', 't']
}

/// The chat name of a separate chat window, from the lowercase class names
/// of the window (`raw`) and of its top window (`root`) and its title: none
/// for the main window or its inner parts, for the messenger's own texts and
/// for image viewers; otherwise the title without the messenger's suffix.
pub open spec fn independent_title(raw: Seq<char>, root: Seq<char>, title: Seq<char>) -> Option<Seq<char>> {
    let clean = trim(strip_suffix_all(strip_suffix_all(title, wechat_suffix()), wechat_suffix_en()));
    if contains(raw, frame_markers()[0]) || contains(raw, frame_markers()[1]) || contains(
        raw,
        frame_markers()[2],
    ) || contains(root, frame_markers()[2]) {
        None
    } else if title.len() == 0 || own_text(title) || crate::text::starts_with(title, image_viewer())
        || crate::text::starts_with(title, wechat_paren()) {
        None
    } else if clean.len() > 0 && !own_text(clean) {
        Some(clean)
    } else {
        None
    }
}

impl WechatDetector {
    /// The chat name of a separate chat window (see `independent_title`),
    /// from the window's and its top window's class names, the trimmed title
    /// it was captured with and, when that is empty, the top window's title.
    pub fn independent_window_title(
        raw_class: &str,
        root_class: &str,
        trimmed_title: &str,
        window_title: &str,
    ) -> (r: Option<String>)
        ensures
            crate::text::opt_seq(r) == independent_title(
                lowercase(raw_class@),
                lowercase(root_class@),
                if trimmed_title@.len() > 0 {
                    trimmed_title@
                } else {
                    window_title@
                },
            ),
    {
        let raw_l = to_lower(raw_class);
        let root_l = to_lower(root_class);
        let tt = to_chars(trimmed_title);
        let title = if tt.len() > 0 {
            String::from_str(trimmed_title)
        } else {
            String::from_str(window_title)
        };
        proof {
            if trimmed_title@.len() == 0 {
                assert(trimmed_title@ =~= Seq::<char>::empty());
            }
        }
        Self::independent_title_given(raw_l.as_str(), root_l.as_str(), title.as_str())
    }

    /// Computes `independent_title(raw@, root@, title@)` from the lowercase
    /// class names.
    pub fn independent_title_given(raw: &str, root: &str, title: &str) -> (r: Option<String>)
        ensures
            crate::text::opt_seq(r) == independent_title(raw@, root@, title@),
    {
        let rv = to_chars(raw);
        let ov = to_chars(root);
        let tv = to_chars(title);
        let sub: [char; 9] = ['s', 'u', 'b', 'w', 'i', 'n', 'd', 'o', 'w'];
        let mmr: [char; 10] = ['m', 'm', 'u', 'i', 'r', 'e', 'n', 'd', 'e', 'r'];
        let wmw: [char; 13] = ['w', 'e', 'c', 'h', 'a', 't', 'm', 'a', 'i', 'n', 'w', 'n', 'd'];
        assert(sub@ == frame_markers()[0]);
        assert(mmr@ == frame_markers()[1]);
        assert(wmw@ == frame_markers()[2]);
        if contains_exec(rv.as_slice(), &sub) || contains_exec(rv.as_slice(), &mmr) || contains_exec(
            rv.as_slice(),
            &wmw,
        ) || contains_exec(ov.as_slice(), &wmw) {
            return None;
        }
        let img: [char; 4] = ['图', '片', '查', '看'];
        let wxp: [char; 3] = ['微', '信', '（'];
        assert(img@ == image_viewer());
        assert(wxp@ == wechat_paren());
        if tv.len() == 0 || is_system_keyword(title) || starts_with_exec(tv.as_slice(), &img)
            || starts_with_exec(tv.as_slice(), &wxp) {
            return None;
        }
        let wxs: [char; 5] = [' ', '-', ' ', '微', '信'];
        let wxe: [char; 9] = [' ', '-', ' ', 'W', 'e', 'C', 'h', 'a', 't'];
        assert(wxs@ == wechat_suffix());
        assert(wxe@ == wechat_suffix_en());
        let a = strip_suffix_all_vec(tv.as_slice(), &wxs);
        let b = strip_suffix_all_vec(a.as_slice(), &wxe);
        let c = trim_vec(b.as_slice());
        let cs = from_chars(c.as_slice());
        if c.len() > 0 && !is_system_keyword(cs.as_str()) {
            Some(cs)
        } else {
            None
        }
    }
}


/// A name for the JPEG file that `image`'s `JpegEncoder`, at quality 90,
/// makes of an RGB picture of `width` by `height` pixels (`None` when it
/// refuses the picture).
pub uninterp spec fn jpeg_rgb_q90(rgb: Seq<u8>, width: u32, height: u32) -> Option<Seq<u8>>;

/// The character of a six-bit value in the standard base64 alphabet:
/// `A`–`Z`, `a`–`z`, `0`–`9`, `+`, `/`.
pub open spec fn base64_char(v: int) -> char {
    if v < 26 {
        (65 + v) as char
    } else if v < 52 {
        (97 + v - 26) as char
    } else if v < 62 {
        (48 + v - 52) as char
    } else if v == 62 {
        '+'
    } else {
        '/'
    }
}

/// The standard base64 text of `b`, with padding (RFC 4648): each group of
/// three bytes gives four characters, its 24 bits cut into six-bit values,
/// high bits first; a last group of one or two bytes is filled up with zero
/// bits, and its text with `=` to four characters.
pub open spec fn base64_standard(b: Seq<u8>) -> Seq<char>
    decreases b.len(),
{
    if b.len() == 0 {
        Seq::empty()
    } else {
        let x = b[0] as int;
        let y = if b.len() > 1 { b[1] as int } else { 0 };
        let z = if b.len() > 2 { b[2] as int } else { 0 };
        if b.len() == 1 {
            seq![base64_char(x / 4), base64_char((x % 4) * 16), '=', '=']
        } else if b.len() == 2 {
            seq![base64_char(x / 4), base64_char((x % 4) * 16 + y / 16), base64_char((y % 16) * 4), '=']
        } else {
            seq![
                base64_char(x / 4),
                base64_char((x % 4) * 16 + y / 16),
                base64_char((y % 16) * 4 + z / 64),
                base64_char(z % 64),
            ] + base64_standard(b.skip(3))
        }
    }
}

/// The bytes of an optional byte vector.
pub open spec fn opt_bytes(o: Option<Vec<u8>>) -> Option<Seq<u8>> {
    match o {
        Some(v) => Some(v@),
        None => None,
    }
}

/// `image::codecs::jpeg::JpegEncoder::new_with_quality(.., 90)` and
/// `encode` with `ExtendedColorType::Rgb8`, into a byte buffer. The file is
/// named `jpeg_rgb_q90`; the encoder's source refuses a side of zero or
/// over 65535 pixels. It panics unless the buffer holds exactly
/// `width * height` pixels of three bytes, which `requires` rules out.
#[verifier::external_body]
fn jpeg_encode(rgb: &[u8], width: u32, height: u32) -> (r: Option<Vec<u8>>)
    requires
        rgb@.len() == width * height * 3,
    ensures
        opt_bytes(r) == jpeg_rgb_q90(rgb@, width, height),
        width == 0 || height == 0 || width > 0xffff || height > 0xffff ==> r is None,
{
    let mut buf: Vec<u8> = Vec::new();
    let mut cursor = std::io::Cursor::new(&mut buf);
    let mut encoder = image::codecs::jpeg::JpegEncoder::new_with_quality(&mut cursor, 90);
    let done = encoder.encode(rgb, width, height, image::ExtendedColorType::Rgb8);
    match done {
        Ok(()) => Some(buf),
        Err(_) => None,
    }
}

/// `base64::Engine::encode` with `base64::engine::general_purpose::STANDARD`:
/// the standard alphabet with `=` padding, whose text `base64_standard`
/// states. The engine panics when the text's length overflows, which the
/// bound on the input rules out.
#[verifier::external_body]
fn base64_encode(bytes: &[u8]) -> (r: String)
    requires
        bytes@.len() <= usize::MAX / 2,
    ensures
        r@ == base64_standard(bytes@),
{
    base64::Engine::encode(&base64::engine::general_purpose::STANDARD, bytes)
}

/// The RGB bytes of BGRA pixels: each whole group of four bytes gives its
/// third, second and first byte; a trailing part group is dropped.
pub open spec fn rgb_of_bgra(bgra: Seq<u8>) -> Seq<u8>
    decreases bgra.len(),
{
    if bgra.len() < 4 {
        Seq::empty()
    } else {
        seq![bgra[2], bgra[1], bgra[0]] + rgb_of_bgra(bgra.subrange(4, bgra.len() as int))
    }
}

/// `rgb_of_bgra` of the first `4 * k` bytes grows by three bytes per pixel.
proof fn lemma_rgb_step(bgra: Seq<u8>, k: int)
    requires
        0 <= k,
        4 * k + 4 <= bgra.len(),
    ensures
        rgb_of_bgra(bgra.take(4 * k + 4)) == rgb_of_bgra(bgra.take(4 * k)) + seq![
            bgra[4 * k + 2],
            bgra[4 * k + 1],
            bgra[4 * k],
        ],
        rgb_of_bgra(bgra.take(4 * k)).len() == 3 * k,
    decreases k,
{
    let a = bgra.take(4 * k + 4);
    if k == 0 {
        assert(a.subrange(4, a.len() as int) =~= Seq::<u8>::empty());
        assert(rgb_of_bgra(Seq::<u8>::empty()) == Seq::<u8>::empty());
        assert(bgra.take(0) =~= Seq::<u8>::empty());
    } else {
        let rest = bgra.subrange(4, bgra.len() as int);
        lemma_rgb_step(rest, k - 1);
        assert(a.subrange(4, a.len() as int) =~= rest.take(4 * k));
        let b = bgra.take(4 * k);
        assert(b.subrange(4, b.len() as int) =~= rest.take(4 * (k - 1)));
        assert(rest[4 * (k - 1) + 2] == bgra[4 * k + 2]);
        assert(rest[4 * (k - 1) + 1] == bgra[4 * k + 1]);
        assert(rest[4 * (k - 1)] == bgra[4 * k]);
    }
}

/// A sequence's `rgb_of_bgra` is that of its whole groups.
proof fn lemma_rgb_whole(bgra: Seq<u8>)
    ensures
        rgb_of_bgra(bgra) == rgb_of_bgra(bgra.take(4 * (bgra.len() as int / 4))),
    decreases bgra.len(),
{
    if bgra.len() >= 4 {
        let rest = bgra.subrange(4, bgra.len() as int);
        lemma_rgb_whole(rest);
        let t = bgra.take(4 * (bgra.len() as int / 4));
        assert(t.subrange(4, t.len() as int) =~= rest.take(4 * (rest.len() as int / 4)));
    } else {
        assert(bgra.take(0) =~= Seq::<u8>::empty());
    }
}

impl WechatDetector {
    /// Drops the alpha byte of BGRA pixels and puts the colours in RGB order
    /// (see `rgb_of_bgra`).
    pub fn bgra_to_rgb(bgra: &[u8]) -> (r: Vec<u8>)
        ensures
            r@ == rgb_of_bgra(bgra@),
    {
        let len = bgra.len();
        let n = len / 4;
        let mut out: Vec<u8> = Vec::new();
        let mut k: usize = 0;
        proof {
            assert(bgra@.take(0) =~= Seq::<u8>::empty());
        }
        while k < n
            invariant
                len == bgra@.len(),
                n == len / 4,
                4 * n <= len,
                k <= n,
                out@ == rgb_of_bgra(bgra@.take(4 * k as int)),
            decreases n - k,
        {
            proof {
                lemma_rgb_step(bgra@, k as int);
            }
            assert(4 * k + 4 <= 4 * n);
            assert(4 * k + 4 <= bgra@.len());
            let i: usize = 4 * k;
            out.push(bgra[i + 2]);
            out.push(bgra[i + 1]);
            out.push(bgra[i]);
            k = k + 1;
        }
        proof {
            lemma_rgb_whole(bgra@);
        }
        out
    }

    /// The chat's title bar as base64 JPEG text (quality 90), from its BGRA
    /// pixels, `width` by `height`; `None` when the encoder refuses it.
    pub fn encode_chat_header(bgra: &[u8], width: u32, height: u32) -> (r: Option<String>)
        requires
            bgra@.len() == width * height * 4,
        ensures
            r matches Some(t) ==> jpeg_rgb_q90(rgb_of_bgra(bgra@), width, height) matches Some(j) && t@ == base64_standard(j),
            r is None ==> jpeg_rgb_q90(rgb_of_bgra(bgra@), width, height) matches None || jpeg_rgb_q90(rgb_of_bgra(bgra@), width, height)->0.len() > usize::MAX / 2,
    {
        let rgb = Self::bgra_to_rgb(bgra);
        proof {
            assert(bgra@.len() / 4 == width * height) by (nonlinear_arith)
                requires bgra@.len() == width * height * 4;
            assert(bgra@.take(4 * (bgra@.len() as int / 4)) =~= bgra@);
            lemma_rgb_len(bgra@, width * height);
        }
        let jpeg = jpeg_encode(rgb.as_slice(), width, height);
        match jpeg {
            Some(j) => {
                if j.len() > usize::MAX / 2 {
                    None
                } else {
                    Some(base64_encode(j.as_slice()))
                }
            },
            None => None,
        }
    }
}

/// `rgb_of_bgra` of `4 * n` bytes has `3 * n` bytes.
proof fn lemma_rgb_len(bgra: Seq<u8>, n: int)
    requires
        0 <= n,
        bgra.len() == 4 * n,
    ensures
        rgb_of_bgra(bgra).len() == 3 * n,
    decreases n,
{
    if n > 0 {
        lemma_rgb_len(bgra.subrange(4, bgra.len() as int), n - 1);
    }
}


/// Trimming again changes nothing: a name is one of the messenger's own
/// texts exactly when its trimmed form is. A name that is empty once
/// trimmed, holds a line break, or is over 50 characters long is one.
pub proof fn lemma_own_text_trimmed(name: Seq<char>)
    ensures
        own_text(trim(name)) == own_text(name),
        trim(name).len() == 0 || has_char(trim(name), '\n') || has_char(trim(name), '\r') || trim(name).len()
            > 50 ==> own_text(name),
{
    lemma_trim_idempotent(name);
}

/// For an ASCII name, capital and small letters do not matter: its capital
/// form is ASCII too, and is one of the messenger's own texts exactly when
/// the name is (each judged with its ASCII lowercase).
pub proof fn lemma_own_text_ascii_case(name: Seq<char>)
    requires
        is_ascii_text(name),
    ensures
        is_ascii_text(ascii_upper(name)),
        system_keyword(trim(ascii_upper(name)), ascii_lower(trim(ascii_upper(name)))) == system_keyword(
            trim(name),
            ascii_lower(trim(name)),
        ),
{
    let t = trim(name);
    let u = ascii_upper(t);
    lemma_upper_keeps(name);
    lemma_upper_trim(name);
    lemma_upper_keeps(t);
    assert(has_char(u, '\n') == has_char(t, '\n'));
    assert(has_char(u, '\r') == has_char(t, '\r'));
    assert(has_char(u, ':') == has_char(t, ':'));
    assert(time_chars(u) == time_chars(t)) by {
        assert forall|i: int| 0 <= i < t.len() implies ((('0' <= #[trigger] u[i] && u[i] <= '9') || u[i] == ':'
            || u[i] == ' ') <==> (('0' <= t[i] && t[i] <= '9') || t[i] == ':' || t[i] == ' ')) by {
            lemma_upper_char(t[i]);
        }
        if time_chars(t) {
            assert forall|i: int| 0 <= i < u.len() implies (('0' <= #[trigger] u[i] && u[i] <= '9') || u[i]
                == ':' || u[i] == ' ') by {
                lemma_upper_char(t[i]);
            }
        }
        if time_chars(u) {
            assert forall|i: int| 0 <= i < t.len() implies (('0' <= #[trigger] t[i] && t[i] <= '9') || t[i]
                == ':' || t[i] == ' ') by {
                lemma_upper_char(t[i]);
                assert(u[i] == ascii_upper_char(t[i]));
            }
        }
    }
}

/// Scores: trimming again changes nothing; a text that is empty once
/// trimmed, or one of the messenger's own texts, scores -100; any other
/// text shorter than 2 or longer than 45 characters once trimmed scores -50.
pub proof fn lemma_line_score_laws(text: Seq<char>)
    ensures
        line_score(trim(text)) == line_score(text),
        trim(text).len() == 0 || own_text(text) ==> line_score(text) == -100,
        !own_text(text) && (trim(text).len() < 2 || trim(text).len() > 45) ==> line_score(text) == -50,
{
    lemma_trim_idempotent(text);
    lemma_own_text_trimmed(text);
    lemma_own_text_trimmed(trim(text));
}

} // verus!
