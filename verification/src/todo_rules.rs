//! The local rules that pull todos out of a captured snippet: split it into
//! lines and sentences, drop chat noise (time stamps, file tags, bare names),
//! and keep each sentence that calls for an action or names a day, with the
//! deadline that day gives.
use vstd::prelude::*;
use crate::text::{
    contains, contains_exec, starts_with, starts_with_exec, trim, trim_vec, split_by, split_chars,
    views, utf8_len, utf8_len_is, is_ws, is_ws_spec, sub_vec, append_slice, from_chars, matches_at,
};
use crate::words::{action_words, action_words_list, any_in, contains_any};
use crate::seqs::keep;
use crate::models::{ExtractedTodo, DraftView, draft_views};

verus! {

/// The dates the deadline rules use, each as `YYYY-MM-DD`: today and the
/// next three days.
pub struct RuleDates {
    pub today: String,
    pub tomorrow: String,
    pub in_two_days: String,
    pub in_three_days: String,
}

/// The texts of the rule dates.
pub struct DatesView {
    pub today: Seq<char>,
    pub tomorrow: Seq<char>,
    pub in_two_days: Seq<char>,
    pub in_three_days: Seq<char>,
}

impl View for RuleDates {
    type V = DatesView;

    open spec fn view(&self) -> DatesView {
        DatesView {
            today: self.today@,
            tomorrow: self.tomorrow@,
            in_two_days: self.in_two_days@,
            in_three_days: self.in_three_days@,
        }
    }
}

/// Whether a line is chat noise: a time stamp line, a short time, a file,
/// image or voice tag, or a bare name of at most three characters.
pub open spec fn noise_line(l: Seq<char>) -> bool {
    ||| (contains(l, seq!['年']) && contains(l, seq!['月']) && (contains(l, seq!['日']) || contains(
        l,
        seq!['号'],
    )) && contains(l, seq![':']))
    ||| (utf8_len(l) <= 5 && contains(l, seq![':']))
    ||| starts_with(l, seq!['[', '文', '件', ']'])
    ||| starts_with(l, seq!['[', '图', '片', ']'])
    ||| starts_with(l, seq!['[', '语', '音', ']'])
    ||| (l.len() <= 3 && !contains(l, seq!['做']) && !contains(l, seq!['去']) && !contains(
        l,
        seq!['改'],
    ) && !contains(l, seq!['发']))
}

/// Whether a trimmed line is kept: not empty and not noise.
pub open spec fn line_kept() -> spec_fn(Seq<char>) -> bool {
    |l: Seq<char>| l.len() > 0 && !noise_line(l)
}

/// The kept lines of a text, trimmed.
pub open spec fn rule_lines(text: Seq<char>) -> Seq<Seq<char>> {
    keep(split_by(text, seq!['\n']).map_values(|l: Seq<char>| trim(l)), line_kept())
}

/// The characters that end a sentence.
pub open spec fn sentence_seps() -> Seq<char> {
    seq!['。', '；', ';', '！', '!']
}

/// Whether a trimmed sentence is long enough: four characters or more.
pub open spec fn long_enough() -> spec_fn(Seq<char>) -> bool {
    |s: Seq<char>| s.len() >= 4
}

/// The sentences of a kept line, trimmed, of four characters or more.
pub open spec fn line_sentences(l: Seq<char>) -> Seq<Seq<char>> {
    keep(split_by(l, sentence_seps()).map_values(|s: Seq<char>| trim(s)), long_enough())
}

/// The sentences of the lines, in order.
pub open spec fn all_sentences(lines: Seq<Seq<char>>) -> Seq<Seq<char>>
    decreases lines.len(),
{
    if lines.len() == 0 {
        Seq::empty()
    } else {
        all_sentences(lines.drop_last()) + line_sentences(lines.last())
    }
}

/// Whether a character ends a leading mention.
pub open spec fn mention_break(c: char) -> bool {
    is_ws_spec(c) || c == '\u{2005}' || c == '，'
}

/// The position of the first mention break of `s`, if any.
pub open spec fn first_break(s: Seq<char>) -> Option<int>
    decreases s.len(),
{
    if s.len() == 0 {
        None
    } else if mention_break(s[0]) {
        Some(0)
    } else {
        match first_break(s.drop_first()) {
            Some(i) => Some(i + 1),
            None => None,
        }
    }
}

/// A sentence without its leading `@name`: from the first break on, trimmed.
pub open spec fn strip_mention(s: Seq<char>) -> Seq<char> {
    if starts_with(s, seq!['@']) || starts_with(s, seq!['\u{2005}']) {
        match first_break(s) {
            Some(i) => trim(s.skip(i)),
            None => s,
        }
    } else {
        s
    }
}

/// `" HH:00:00"`
pub open spec fn at_hour(h1: char, h2: char) -> Seq<char> {
    seq![' ', h1, h2, ':', '0', '0', ':', '0', '0']
}

/// The hour a sentence asks for on a day: 18:00 in the afternoon, 10:00 in
/// the morning, `default` otherwise.
pub open spec fn hour_of(s: Seq<char>, default: Seq<char>) -> Seq<char> {
    if contains(s, seq!['下', '午']) || contains(s, seq!['1', '8']) {
        at_hour('1', '8')
    } else if contains(s, seq!['上', '午']) || contains(s, seq!['1', '0']) {
        at_hour('1', '0')
    } else {
        default
    }
}

/// The deadline a sentence names, if any.
pub open spec fn due_for(s: Seq<char>, d: DatesView) -> Option<Seq<char>> {
    if contains(s, seq!['明', '天']) {
        Some(d.tomorrow + hour_of(s, at_hour('1', '8')))
    } else if contains(s, seq!['这', '两', '天']) || contains(s, seq!['2', '天', '内']) || contains(
        s,
        seq!['两', '天', '内'],
    ) {
        Some(d.in_two_days + at_hour('1', '8'))
    } else if contains(s, seq!['后', '天']) {
        Some(d.in_two_days + at_hour('1', '8'))
    } else if contains(s, seq!['下', '周']) || contains(s, seq!['周', '三']) || contains(
        s,
        seq!['星', '期', '三'],
    ) {
        Some(d.in_three_days + at_hour('1', '8'))
    } else if contains(s, seq!['今', '天']) {
        Some(d.today + hour_of(s, at_hour('2', '2')))
    } else {
        None
    }
}

/// A todo's text: the sentence, cut to 38 characters and `"..."` when longer
/// than 40.
pub open spec fn todo_title(s: Seq<char>) -> Seq<char> {
    if s.len() > 40 {
        s.take(38) + seq!['.', '.', '.']
    } else {
        s
    }
}

/// Whether some todo of `ts` has the text `c`.
pub open spec fn has_content(ts: Seq<DraftView>, c: Seq<char>) -> bool {
    exists|k: int| 0 <= k < ts.len() && #[trigger] ts[k].content == c
}

/// The todos of the sentences, in order, without repeated texts.
pub open spec fn todos_from(sents: Seq<Seq<char>>, d: DatesView) -> Seq<DraftView>
    decreases sents.len(),
{
    if sents.len() == 0 {
        Seq::empty()
    } else {
        let prev = todos_from(sents.drop_last(), d);
        let c = strip_mention(sents.last());
        let due = due_for(c, d);
        if (any_in(c, action_words()) || due is Some) && !has_content(prev, todo_title(c)) {
            prev.push(DraftView { content: todo_title(c), due_time: due })
        } else {
            prev
        }
    }
}

/// The todos the rules find in a text, given the rule dates.
pub open spec fn rule_todos(text: Seq<char>, d: DatesView) -> Seq<DraftView> {
    todos_from(all_sentences(rule_lines(text)), d)
}

/// A sentence that says `"明天"` is due on the day after today: its
/// deadline is that day's date followed by a time of day (`" HH:00:00"`),
/// never another day's date.
pub proof fn lemma_tomorrow_due(s: Seq<char>, d: DatesView)
    requires
        contains(s, seq!['明', '天']),
    ensures
        due_for(s, d) matches Some(t) && t.len() == d.tomorrow.len() + 9 && t.take(d.tomorrow.len() as int)
            == d.tomorrow,
{
    let t = d.tomorrow + hour_of(s, at_hour('1', '8'));
    assert(t.take(d.tomorrow.len() as int) =~= d.tomorrow);
}

/// A todo's text names `"明天"` only where its sentence does.
proof fn lemma_title_tomorrow(c: Seq<char>)
    requires
        contains(todo_title(c), seq!['明', '天']),
    ensures
        contains(c, seq!['明', '天']),
{
    let p = seq!['明', '天'];
    let t = todo_title(c);
    let i = choose|i: int| #[trigger] matches_at(t, p, i);
    if c.len() > 40 {
        assert(t.subrange(i, i + 2) == p);
        assert(t[i] == p[0] && t[i + 1] == p[1]);
        if i + 1 >= 38 {
            assert(t[i + 1] == '.');
        }
        assert(c.subrange(i, i + 2) =~= t.subrange(i, i + 2));
        assert(matches_at(c, p, i));
    }
}

/// Every todo the rules find whose text says `"明天"` is due on the day
/// after today (its deadline starts with that day's date).
pub proof fn lemma_tomorrow_todos(sents: Seq<Seq<char>>, d: DatesView)
    ensures
        forall|k: int|
            0 <= k < todos_from(sents, d).len() && contains(#[trigger] todos_from(sents, d)[k].content, seq!['明', '天'])
                ==> (todos_from(sents, d)[k].due_time matches Some(t) && t.take(d.tomorrow.len() as int) == d.tomorrow),
    decreases sents.len(),
{
    if sents.len() > 0 {
        let prev = todos_from(sents.drop_last(), d);
        lemma_tomorrow_todos(sents.drop_last(), d);
        let c = strip_mention(sents.last());
        let all = todos_from(sents, d);
        assert forall|k: int|
            0 <= k < all.len() && contains(#[trigger] all[k].content, seq!['明', '天']) implies (all[k].due_time matches Some(
                t,
            ) && t.take(d.tomorrow.len() as int) == d.tomorrow) by {
            if k < prev.len() {
                assert(all[k] == prev[k]);
            } else {
                assert(all[k].content == todo_title(c));
                lemma_title_tomorrow(c);
                lemma_tomorrow_due(c, d);
            }
        }
    }
}

/// The rules' todos whose text says `"明天"` are due on the day after today.
pub proof fn lemma_rule_todos_tomorrow(text: Seq<char>, d: DatesView)
    ensures
        forall|k: int|
            0 <= k < rule_todos(text, d).len() && contains(#[trigger] rule_todos(text, d)[k].content, seq!['明', '天'])
                ==> (rule_todos(text, d)[k].due_time matches Some(t) && t.take(d.tomorrow.len() as int) == d.tomorrow),
{
    lemma_tomorrow_todos(all_sentences(rule_lines(text)), d);
}

/// Tests `noise_line(l@)`.
pub fn is_noise_line(l: &[char]) -> (r: bool)
    ensures
        r == noise_line(l@),
{
    let nian: [char; 1] = ['年'];
    let yue: [char; 1] = ['月'];
    let ri: [char; 1] = ['日'];
    let hao: [char; 1] = ['号'];
    let colon: [char; 1] = [':'];
    let file_tag: [char; 4] = ['[', '文', '件', ']'];
    let image_tag: [char; 4] = ['[', '图', '片', ']'];
    let voice_tag: [char; 4] = ['[', '语', '音', ']'];
    let zuo: [char; 1] = ['做'];
    let qu: [char; 1] = ['去'];
    let gai: [char; 1] = ['改'];
    let fa: [char; 1] = ['发'];
    assert(nian@ == seq!['年']);
    assert(yue@ == seq!['月']);
    assert(ri@ == seq!['日']);
    assert(hao@ == seq!['号']);
    assert(colon@ == seq![':']);
    assert(file_tag@ == seq!['[', '文', '件', ']']);
    assert(image_tag@ == seq!['[', '图', '片', ']']);
    assert(voice_tag@ == seq!['[', '语', '音', ']']);
    assert(zuo@ == seq!['做']);
    assert(qu@ == seq!['去']);
    assert(gai@ == seq!['改']);
    assert(fa@ == seq!['发']);
    let has_colon = contains_exec(l, &colon);
    let stamp = contains_exec(l, &nian) && contains_exec(l, &yue) && (contains_exec(l, &ri)
        || contains_exec(l, &hao)) && has_colon;
    let short_time = has_colon && (utf8_len_is(l, 0) || utf8_len_is(l, 1) || utf8_len_is(l, 2)
        || utf8_len_is(l, 3) || utf8_len_is(l, 4) || utf8_len_is(l, 5));
    let tag = starts_with_exec(l, &file_tag) || starts_with_exec(l, &image_tag) || starts_with_exec(
        l,
        &voice_tag,
    );
    let bare = l.len() <= 3 && !contains_exec(l, &zuo) && !contains_exec(l, &qu) && !contains_exec(
        l,
        &gai,
    ) && !contains_exec(l, &fa);
    stamp || short_time || tag || bare
}

proof fn lemma_all_sentences_push(lines: Seq<Seq<char>>, l: Seq<char>)
    ensures
        all_sentences(lines.push(l)) == all_sentences(lines) + line_sentences(l),
{
    assert(lines.push(l).drop_last() =~= lines);
}

/// The sentences of the kept lines of `text`.
pub fn rule_sentences(text: &[char]) -> (r: Vec<Vec<char>>)
    ensures
        views(r@) == all_sentences(rule_lines(text@)),
{
    let nl: [char; 1] = ['\n'];
    assert(nl@ == seq!['\n']);
    let seps: [char; 5] = ['。', '；', ';', '！', '!'];
    assert(seps@ == sentence_seps());
    let lines = split_chars(text, &nl);
    let ghost tl = split_by(text@, seq!['\n']).map_values(|l: Seq<char>| trim(l));
    let mut out: Vec<Vec<char>> = Vec::new();
    let mut i: usize = 0;
    assert(tl.take(0) =~= Seq::<Seq<char>>::empty());
    while i < lines.len()
        invariant
            i <= lines@.len(),
            views(lines@) == split_by(text@, seq!['\n']),
            tl == split_by(text@, seq!['\n']).map_values(|l: Seq<char>| trim(l)),
            seps@ == sentence_seps(),
            views(out@) == all_sentences(keep(tl.take(i as int), line_kept())),
        decreases lines.len() - i,
    {
        let l = trim_vec(lines[i].as_slice());
        assert(views(lines@)[i as int] == lines@[i as int]@);
        assert(tl.take(i + 1).drop_last() =~= tl.take(i as int));
        assert(tl.take(i + 1).last() == l@);
        let ghost kept = keep(tl.take(i as int), line_kept());
        if l.len() > 0 && !is_noise_line(l.as_slice()) {
            proof {
                lemma_all_sentences_push(kept, l@);
            }
            let pieces = split_chars(l.as_slice(), &seps);
            let ghost tp = split_by(l@, sentence_seps()).map_values(|s: Seq<char>| trim(s));
            let ghost base = views(out@);
            let mut j: usize = 0;
            assert(tp.take(0) =~= Seq::<Seq<char>>::empty());
            assert(base + keep(tp.take(0), long_enough()) =~= base);
            while j < pieces.len()
                invariant
                    j <= pieces@.len(),
                    views(pieces@) == split_by(l@, sentence_seps()),
                    tp == split_by(l@, sentence_seps()).map_values(|s: Seq<char>| trim(s)),
                    views(out@) == base + keep(tp.take(j as int), long_enough()),
                decreases pieces.len() - j,
            {
                let t = trim_vec(pieces[j].as_slice());
                assert(views(pieces@)[j as int] == pieces@[j as int]@);
                assert(tp.take(j + 1).drop_last() =~= tp.take(j as int));
                assert(tp.take(j + 1).last() == t@);
                if t.len() >= 4 {
                    assert(keep(tp.take(j + 1), long_enough()) == keep(tp.take(j as int), long_enough()).push(t@));
                    let ghost before = views(out@);
                    let ghost tv = t@;
                    out.push(t);
                    assert(views(out@) =~= before.push(tv));
                    assert(views(out@) =~= base + keep(tp.take(j + 1), long_enough()));
                }
                j = j + 1;
            }
            assert(tp.take(pieces@.len() as int) =~= tp);
        }
        i = i + 1;
    }
    assert(tl.take(lines@.len() as int) =~= tl);
    out
}


/// The position of the first mention break of `s`.
fn first_break_exec(s: &[char]) -> (r: Option<usize>)
    ensures
        r matches Some(i) ==> first_break(s@) == Some(i as int) && i < s@.len(),
        r is None ==> first_break(s@) is None,
{
    let mut i: usize = 0;
    while i < s.len()
        invariant
            i <= s@.len(),
            forall|k: int| 0 <= k < i ==> !mention_break(s@[k]),
        decreases s.len() - i,
    {
        if is_ws(s[i]) || s[i] == '\u{2005}' || s[i] == '，' {
            proof {
                lemma_first_break_at(s@, i as int);
            }
            return Some(i);
        }
        i = i + 1;
    }
    proof {
        lemma_first_break_none(s@);
    }
    None
}

proof fn lemma_first_break_at(s: Seq<char>, i: int)
    requires
        0 <= i < s.len(),
        mention_break(s[i]),
        forall|k: int| 0 <= k < i ==> !mention_break(s[k]),
    ensures
        first_break(s) == Some(i),
    decreases i,
{
    if i > 0 {
        let d = s.drop_first();
        assert forall|k: int| 0 <= k < i - 1 implies !mention_break(d[k]) by {
            assert(d[k] == s[k + 1]);
        }
        lemma_first_break_at(d, i - 1);
    }
}

proof fn lemma_first_break_none(s: Seq<char>)
    requires
        forall|k: int| 0 <= k < s.len() ==> !mention_break(s[k]),
    ensures
        first_break(s) is None,
    decreases s.len(),
{
    if s.len() > 0 {
        let d = s.drop_first();
        assert forall|k: int| 0 <= k < d.len() implies !mention_break(d[k]) by {
            assert(d[k] == s[k + 1]);
        }
        lemma_first_break_none(d);
    }
}

/// Computes `strip_mention(s@)`.
pub fn strip_mention_vec(s: &[char]) -> (r: Vec<char>)
    ensures
        r@ == strip_mention(s@),
{
    let at: [char; 1] = ['@'];
    let sp: [char; 1] = ['\u{2005}'];
    assert(at@ == seq!['@']);
    assert(sp@ == seq!['\u{2005}']);
    let whole = sub_vec(s, 0, s.len());
    assert(whole@ =~= s@);
    if starts_with_exec(s, &at) || starts_with_exec(s, &sp) {
        match first_break_exec(s) {
            Some(i) => {
                let rest = sub_vec(s, i, s.len());
                assert(rest@ =~= s@.skip(i as int));
                trim_vec(rest.as_slice())
            },
            None => whole,
        }
    } else {
        whole
    }
}

/// `date` followed by `" HH:00:00"`.
fn date_at(date: &String, h1: char, h2: char) -> (r: String)
    ensures
        r@ == date@ + at_hour(h1, h2),
{
    let mut v = crate::text::to_chars(date.as_str());
    let tail: [char; 9] = [' ', h1, h2, ':', '0', '0', ':', '0', '0'];
    assert(tail@ == at_hour(h1, h2));
    append_slice(&mut v, &tail);
    from_chars(v.as_slice())
}

/// The hour digits `hour_of(s@, default)` stands for, where `(d1, d2)` are
/// those of the default.
fn hour_digits(s: &[char], d1: char, d2: char) -> (r: (char, char))
    ensures
        at_hour(r.0, r.1) == hour_of(s@, at_hour(d1, d2)),
{
    let pm: [char; 2] = ['下', '午'];
    let h18: [char; 2] = ['1', '8'];
    let am: [char; 2] = ['上', '午'];
    let h10: [char; 2] = ['1', '0'];
    assert(pm@ == seq!['下', '午']);
    assert(h18@ == seq!['1', '8']);
    assert(am@ == seq!['上', '午']);
    assert(h10@ == seq!['1', '0']);
    if contains_exec(s, &pm) || contains_exec(s, &h18) {
        ('1', '8')
    } else if contains_exec(s, &am) || contains_exec(s, &h10) {
        ('1', '0')
    } else {
        (d1, d2)
    }
}

/// Computes `due_for(s@, d@)`.
pub fn due_for_exec(s: &[char], d: &RuleDates) -> (r: Option<String>)
    ensures
        crate::text::opt_seq(r) == due_for(s@, d@),
{
    let tomorrow: [char; 2] = ['明', '天'];
    let two_days: [char; 3] = ['这', '两', '天'];
    let in2: [char; 3] = ['2', '天', '内'];
    let within2: [char; 3] = ['两', '天', '内'];
    let after: [char; 2] = ['后', '天'];
    let next_week: [char; 2] = ['下', '周'];
    let wed: [char; 2] = ['周', '三'];
    let wed2: [char; 3] = ['星', '期', '三'];
    let today: [char; 2] = ['今', '天'];
    assert(tomorrow@ == seq!['明', '天']);
    assert(two_days@ == seq!['这', '两', '天']);
    assert(in2@ == seq!['2', '天', '内']);
    assert(within2@ == seq!['两', '天', '内']);
    assert(after@ == seq!['后', '天']);
    assert(next_week@ == seq!['下', '周']);
    assert(wed@ == seq!['周', '三']);
    assert(wed2@ == seq!['星', '期', '三']);
    assert(today@ == seq!['今', '天']);
    if contains_exec(s, &tomorrow) {
        let (a, b) = hour_digits(s, '1', '8');
        Some(date_at(&d.tomorrow, a, b))
    } else if contains_exec(s, &two_days) || contains_exec(s, &in2) || contains_exec(s, &within2) {
        Some(date_at(&d.in_two_days, '1', '8'))
    } else if contains_exec(s, &after) {
        Some(date_at(&d.in_two_days, '1', '8'))
    } else if contains_exec(s, &next_week) || contains_exec(s, &wed) || contains_exec(s, &wed2) {
        Some(date_at(&d.in_three_days, '1', '8'))
    } else if contains_exec(s, &today) {
        let (a, b) = hour_digits(s, '2', '2');
        Some(date_at(&d.today, a, b))
    } else {
        None
    }
}

/// Computes `todo_title(s@)`.
fn todo_title_vec(s: &[char]) -> (r: Vec<char>)
    ensures
        r@ == todo_title(s@),
{
    if s.len() > 40 {
        let mut r = sub_vec(s, 0, 38);
        r.push('.');
        r.push('.');
        r.push('.');
        assert(r@ =~= s@.take(38) + seq!['.', '.', '.']);
        r
    } else {
        let r = sub_vec(s, 0, s.len());
        assert(r@ =~= s@);
        r
    }
}

/// Whether some todo of `ts` has the text `c`.
fn has_content_exec(ts: &Vec<ExtractedTodo>, c: &[char]) -> (r: bool)
    ensures
        r == has_content(draft_views(ts@), c@),
{
    let mut k: usize = 0;
    while k < ts.len()
        invariant
            k <= ts@.len(),
            forall|m: int| 0 <= m < k ==> #[trigger] draft_views(ts@)[m].content != c@,
        decreases ts.len() - k,
    {
        let t = crate::text::to_chars(ts[k].content.as_str());
        if crate::lits::chars_are(t.as_slice(), c) {
            assert(draft_views(ts@)[k as int].content == c@);
            return true;
        }
        k = k + 1;
    }
    false
}

/// The todos the rules find in `text` (see `rule_todos`).
pub fn rule_todos_vec(text: &[char], d: &RuleDates) -> (r: Vec<ExtractedTodo>)
    ensures
        draft_views(r@) == rule_todos(text@, d@),
{
    let sents = rule_sentences(text);
    let actions = action_words_list();
    let ghost sv = views(sents@);
    let mut out: Vec<ExtractedTodo> = Vec::new();
    let mut i: usize = 0;
    assert(sv.take(0) =~= Seq::<Seq<char>>::empty());
    while i < sents.len()
        invariant
            i <= sents@.len(),
            sv == views(sents@),
            views(actions@) == action_words(),
            draft_views(out@) == todos_from(sv.take(i as int), d@),
        decreases sents.len() - i,
    {
        assert(sv.take(i + 1).drop_last() =~= sv.take(i as int));
        assert(sv.take(i + 1).last() == sents@[i as int]@);
        let c = strip_mention_vec(sents[i].as_slice());
        let due = due_for_exec(c.as_slice(), d);
        if contains_any(c.as_slice(), &actions) || due.is_some() {
            let title = todo_title_vec(c.as_slice());
            if !has_content_exec(&out, title.as_slice()) {
                let t = ExtractedTodo { content: from_chars(title.as_slice()), due_time: due };
                let ghost before = draft_views(out@);
                let ghost tv = t@;
                out.push(t);
                assert(draft_views(out@) =~= before.push(tv));
            }
        }
        i = i + 1;
    }
    assert(sv.take(sents@.len() as int) =~= sv);
    out
}

} // verus!
