//! The local summary of a matter: the facts already kept, sorted into
//! summary and advice, the key sentences of its logs, and standing advice
//! when none was kept.
use vstd::prelude::*;
use crate::text::{
    contains, contains_exec, trim, trim_vec, split_by, split_chars, views, take_chars, take_chars_vec,
    append_slice, to_chars,
};
use crate::words::{any_in, contains_any};
use crate::models::LogItem;
use crate::routing::nonempty;
use crate::seqs::keep;

verus! {

/// Words that mark a sentence of a log as a key fact.
pub open spec fn key_info_words() -> Seq<Seq<char>> {
    seq![
        seq!['指', '标'],
        seq!['金', '额'],
        seq!['元'],
        seq!['价', '格'],
        seq!['合', '同'],
        seq!['要', '求'],
        seq!['数', '据'],
        seq!['负', '责'],
        seq!['承', '诺'],
        seq!['完', '成'],
        seq!['时', '间'],
        seq!['周'],
        seq!['日'],
        seq!['号'],
        seq!['对', '接'],
        seq!['推', '进'],
        seq!['交', '付'],
        seq!['群'],
    ]
}

/// The list `key_info_words()`.
fn key_info_words_list() -> (r: Vec<Vec<char>>)
    ensures
        views(r@) == key_info_words(),
{
    let r: Vec<Vec<char>> = vec![
        vec!['指', '标'],
        vec!['金', '额'],
        vec!['元'],
        vec!['价', '格'],
        vec!['合', '同'],
        vec!['要', '求'],
        vec!['数', '据'],
        vec!['负', '责'],
        vec!['承', '诺'],
        vec!['完', '成'],
        vec!['时', '间'],
        vec!['周'],
        vec!['日'],
        vec!['号'],
        vec!['对', '接'],
        vec!['推', '进'],
        vec!['交', '付'],
        vec!['群'],
    ];
    assert(r@[2]@ =~= seq!['元']);
    assert(r@[11]@ =~= seq!['周']);
    assert(r@[12]@ =~= seq!['日']);
    assert(r@[13]@ =~= seq!['号']);
    assert(r@[17]@ =~= seq!['群']);
    assert(views(r@) =~= key_info_words());
    r
}

/// Words that mark a kept line as advice.
pub open spec fn advice_words() -> Seq<Seq<char>> {
    seq![
        seq!['建', '议'],
        seq!['风', '险'],
        seq!['需', '关', '注'],
        seq!['防', '范'],
    ]
}

/// The list `advice_words()`.
fn advice_words_list() -> (r: Vec<Vec<char>>)
    ensures
        views(r@) == advice_words(),
{
    let r: Vec<Vec<char>> = vec![
        vec!['建', '议'],
        vec!['风', '险'],
        vec!['需', '关', '注'],
        vec!['防', '范'],
    ];
    assert(views(r@) =~= advice_words());
    r
}

/// `"暂无"`
pub open spec fn none_yet_word() -> Seq<char> {
    seq!['暂', '无']
}

/// The characters of `none_yet_word()`.
fn none_yet_word_chars() -> (r: [char; 2])
    ensures
        r@ == none_yet_word(),
{
    let r: [char; 2] = ['暂', '无'];
    assert(r@ == none_yet_word());
    r
}

/// `"【事项总结】"`
pub open spec fn summary_heading() -> Seq<char> {
    seq!['【', '事', '项', '总', '结', '】']
}

/// The characters of `summary_heading()`.
fn summary_heading_chars() -> (r: [char; 6])
    ensures
        r@ == summary_heading(),
{
    let r: [char; 6] = ['【', '事', '项', '总', '结', '】'];
    assert(r@ == summary_heading());
    r
}

/// `"【推进建议】"`
pub open spec fn advice_heading() -> Seq<char> {
    seq!['【', '推', '进', '建', '议', '】']
}

/// The characters of `advice_heading()`.
fn advice_heading_chars() -> (r: [char; 6])
    ensures
        r@ == advice_heading(),
{
    let r: [char; 6] = ['【', '推', '进', '建', '议', '】'];
    assert(r@ == advice_heading());
    r
}

/// `"• 关键纪要: "`
pub open spec fn key_prefix() -> Seq<char> {
    seq!['•', ' ', '关', '键', '纪', '要', ':', ' ']
}

/// The characters of `key_prefix()`.
fn key_prefix_chars() -> (r: [char; 8])
    ensures
        r@ == key_prefix(),
{
    let r: [char; 8] = ['•', ' ', '关', '键', '纪', '要', ':', ' '];
    assert(r@ == key_prefix());
    r
}

/// `"• 进展记录 ("`
pub open spec fn progress_prefix() -> Seq<char> {
    seq!['•', ' ', '进', '展', '记', '录', ' ', '(']
}

/// The characters of `progress_prefix()`.
fn progress_prefix_chars() -> (r: [char; 8])
    ensures
        r@ == progress_prefix(),
{
    let r: [char; 8] = ['•', ' ', '进', '展', '记', '录', ' ', '('];
    assert(r@ == progress_prefix());
    r
}

/// `"): "`
pub open spec fn progress_mid() -> Seq<char> {
    seq![')', ':', ' ']
}

/// The characters of `progress_mid()`.
fn progress_mid_chars() -> (r: [char; 3])
    ensures
        r@ == progress_mid(),
{
    let r: [char; 3] = [')', ':', ' '];
    assert(r@ == progress_mid());
    r
}

/// The standing advice on following up.
pub open spec fn default_follow_up() -> Seq<char> {
    seq!['•', ' ', '进', '度', '跟', '进', ':', ' ', '建', '议', '关', '注', '本', '事', '项', '最', '新', '关', '键', '节', '点', '，', '及', '时', '与', '核', '心', '对', '接', '人', '锁', '定', '交', '付', '/', '核', '对', '明', '细', '。']
}

/// The characters of `default_follow_up()`.
fn default_follow_up_chars() -> (r: [char; 40])
    ensures
        r@ == default_follow_up(),
{
    let r: [char; 40] = ['•', ' ', '进', '度', '跟', '进', ':', ' ', '建', '议', '关', '注', '本', '事', '项', '最', '新', '关', '键', '节', '点', '，', '及', '时', '与', '核', '心', '对', '接', '人', '锁', '定', '交', '付', '/', '核', '对', '明', '细', '。'];
    assert(r@ == default_follow_up());
    r
}

/// The standing advice on risks.
pub open spec fn default_risk() -> Seq<char> {
    seq!['•', ' ', '风', '险', '防', '范', ':', ' ', '建', '议', '对', '关', '键', '指', '标', '与', '交', '付', '物', '进', '行', '抽', '样', '核', '查', '，', '防', '范', '质', '量', '偏', '差', '或', '口', '径', '不', '一', '致', '风', '险', '。']
}

/// The characters of `default_risk()`.
fn default_risk_chars() -> (r: [char; 41])
    ensures
        r@ == default_risk(),
{
    let r: [char; 41] = ['•', ' ', '风', '险', '防', '范', ':', ' ', '建', '议', '对', '关', '键', '指', '标', '与', '交', '付', '物', '进', '行', '抽', '样', '核', '查', '，', '防', '范', '质', '量', '偏', '差', '或', '口', '径', '不', '一', '致', '风', '险', '。'];
    assert(r@ == default_risk());
    r
}

/// `"• 【"`
pub open spec fn empty_head() -> Seq<char> {
    seq!['•', ' ', '【']
}

/// The characters of `empty_head()`.
fn empty_head_chars() -> (r: [char; 3])
    ensures
        r@ == empty_head(),
{
    let r: [char; 3] = ['•', ' ', '【'];
    assert(r@ == empty_head());
    r
}

/// `"】当前记录了 "`
pub open spec fn empty_mid() -> Seq<char> {
    seq!['】', '当', '前', '记', '录', '了', ' ']
}

/// The characters of `empty_mid()`.
fn empty_mid_chars() -> (r: [char; 7])
    ensures
        r@ == empty_mid(),
{
    let r: [char; 7] = ['】', '当', '前', '记', '录', '了', ' '];
    assert(r@ == empty_mid());
    r
}

/// `" 条日志，整体进展顺利。"`
pub open spec fn empty_tail() -> Seq<char> {
    seq![' ', '条', '日', '志', '，', '整', '体', '进', '展', '顺', '利', '。']
}

/// The characters of `empty_tail()`.
fn empty_tail_chars() -> (r: [char; 12])
    ensures
        r@ == empty_tail(),
{
    let r: [char; 12] = [' ', '条', '日', '志', '，', '整', '体', '进', '展', '顺', '利', '。'];
    assert(r@ == empty_tail());
    r
}

/// The characters that end a sentence of a log.
pub open spec fn log_seps() -> Seq<char> {
    seq!['\n', '。', '；', ';', '！', '!']
}

/// The characters of `log_seps()`.
fn log_seps_chars() -> (r: [char; 6])
    ensures
        r@ == log_seps(),
{
    let r: [char; 6] = ['\n', '。', '；', ';', '！', '!'];
    assert(r@ == log_seps());
    r
}

/// The digit character of `d`, for `d < 10`.
pub open spec fn digit_char(d: nat) -> char {
    if d == 0 {
        '0'
    } else if d == 1 {
        '1'
    } else if d == 2 {
        '2'
    } else if d == 3 {
        '3'
    } else if d == 4 {
        '4'
    } else if d == 5 {
        '5'
    } else if d == 6 {
        '6'
    } else if d == 7 {
        '7'
    } else if d == 8 {
        '8'
    } else {
        '9'
    }
}

/// The decimal digits of `n`.
pub open spec fn decimal(n: nat) -> Seq<char>
    decreases n,
{
    if n < 10 {
        seq![digit_char(n)]
    } else {
        decimal(n / 10).push(digit_char(n % 10))
    }
}

/// The digit character of `d`.
fn digit_exec(d: usize) -> (r: char)
    requires
        d < 10,
    ensures
        r == digit_char(d as nat),
{
    if d == 0 {
        '0'
    } else if d == 1 {
        '1'
    } else if d == 2 {
        '2'
    } else if d == 3 {
        '3'
    } else if d == 4 {
        '4'
    } else if d == 5 {
        '5'
    } else if d == 6 {
        '6'
    } else if d == 7 {
        '7'
    } else if d == 8 {
        '8'
    } else {
        '9'
    }
}

/// The decimal digits of `n`.
pub fn decimal_vec(n: usize) -> (r: Vec<char>)
    ensures
        r@ == decimal(n as nat),
    decreases n,
{
    if n < 10 {
        let mut r: Vec<char> = Vec::new();
        r.push(digit_exec(n));
        assert(r@ =~= seq![digit_char(n as nat)]);
        r
    } else {
        let mut r = decimal_vec(n / 10);
        r.push(digit_exec(n % 10));
        r
    }
}

/// Whether a trimmed kept line is dropped: empty, a placeholder, or a
/// heading.
pub open spec fn skipped_line(t: Seq<char>) -> bool {
    t.len() == 0 || contains(t, none_yet_word()) || contains(t, summary_heading()) || contains(
        t,
        advice_heading(),
    )
}

/// The kept lines sorted into summary lines and advice lines, trimmed, each
/// once, in order.
pub open spec fn sort_kept(lines: Seq<Seq<char>>) -> (Seq<Seq<char>>, Seq<Seq<char>>)
    decreases lines.len(),
{
    if lines.len() == 0 {
        (Seq::empty(), Seq::empty())
    } else {
        let prev = sort_kept(lines.drop_last());
        let t = trim(lines.last());
        if skipped_line(t) {
            prev
        } else if any_in(t, advice_words()) {
            (prev.0, if prev.1.contains(t) { prev.1 } else { prev.1.push(t) })
        } else {
            (if prev.0.contains(t) { prev.0 } else { prev.0.push(t) }, prev.1)
        }
    }
}

/// The sentences of a log: its trimmed text split at sentence ends, each
/// trimmed, the empty ones dropped.
pub open spec fn log_sentences(raw: Seq<char>) -> Seq<Seq<char>> {
    keep(split_by(trim(raw), log_seps()).map_values(|s: Seq<char>| trim(s)), nonempty())
}

/// `sum` with a key-fact line for each key sentence of `ss` not yet there.
pub open spec fn add_key_facts(sum: Seq<Seq<char>>, ss: Seq<Seq<char>>) -> Seq<Seq<char>>
    decreases ss.len(),
{
    if ss.len() == 0 {
        sum
    } else {
        let prev = add_key_facts(sum, ss.drop_last());
        let s = ss.last();
        let f = key_prefix() + s;
        if any_in(s, key_info_words()) && !prev.contains(f) {
            prev.push(f)
        } else {
            prev
        }
    }
}

/// `sum` with the key facts of every log, in order.
pub open spec fn add_log_facts(sum: Seq<Seq<char>>, logs: Seq<LogItem>) -> Seq<Seq<char>>
    decreases logs.len(),
{
    if logs.len() == 0 {
        sum
    } else {
        add_key_facts(add_log_facts(sum, logs.drop_last()), log_sentences(logs.last().raw_content@))
    }
}

/// The progress line of a log.
pub open spec fn progress_line(l: LogItem) -> Seq<char> {
    progress_prefix() + l.created_at@ + progress_mid() + take_chars(l.raw_content@, 50)
}

/// The progress lines of the first three logs.
pub open spec fn progress_lines(logs: Seq<LogItem>) -> Seq<Seq<char>> {
    Seq::new(if logs.len() < 3 { logs.len() } else { 3 }, |i: int| progress_line(logs[i]))
}

/// The lines joined by line breaks.
pub open spec fn join_lines(ls: Seq<Seq<char>>) -> Seq<char>
    decreases ls.len(),
{
    if ls.len() == 0 {
        Seq::empty()
    } else if ls.len() == 1 {
        ls[0]
    } else {
        join_lines(ls.drop_last()) + seq!['\n'] + ls.last()
    }
}

/// The local summary of a matter titled `title`, with kept facts `existing`
/// and logs `logs`: a summary part and an advice part.
pub open spec fn local_summary(title: Seq<char>, existing: Seq<char>, logs: Seq<LogItem>) -> Seq<char> {
    let kept = sort_kept(split_by(existing, seq!['\n']));
    let facts = add_log_facts(kept.0, logs);
    let sum = if facts.len() == 0 {
        progress_lines(logs)
    } else {
        facts
    };
    let adv = if kept.1.len() == 0 {
        seq![default_follow_up(), default_risk()]
    } else {
        kept.1
    };
    summary_heading() + seq!['\n'] + (if sum.len() == 0 {
        empty_head() + title + empty_mid() + decimal(logs.len()) + empty_tail()
    } else {
        join_lines(sum)
    }) + seq!['\n', '\n'] + advice_heading() + seq!['\n'] + join_lines(adv)
}

/// Joins the lines of `ls` by line breaks.
fn join_lines_vec(ls: &Vec<Vec<char>>) -> (r: Vec<char>)
    ensures
        r@ == join_lines(views(ls@)),
{
    let ghost lv = views(ls@);
    let mut out: Vec<char> = Vec::new();
    let mut i: usize = 0;
    assert(lv.take(0) =~= Seq::<Seq<char>>::empty());
    while i < ls.len()
        invariant
            i <= ls@.len(),
            lv == views(ls@),
            out@ == join_lines(lv.take(i as int)),
        decreases ls.len() - i,
    {
        assert(lv.take(i + 1).drop_last() =~= lv.take(i as int));
        assert(lv.take(i + 1).last() == ls@[i as int]@);
        if i > 0 {
            out.push('\n');
        } else {
            assert(lv.take(1)[0] == ls@[0]@);
        }
        append_slice(&mut out, ls[i].as_slice());
        i = i + 1;
    }
    assert(lv.take(ls@.len() as int) =~= lv);
    out
}

/// Pushes `t` onto `v` unless it is there already.
fn push_new(v: &mut Vec<Vec<char>>, t: Vec<char>)
    ensures
        views(final(v)@) == if views(old(v)@).contains(t@) {
            views(old(v)@)
        } else {
            views(old(v)@).push(t@)
        },
{
    if !crate::words::is_one_of(t.as_slice(), v) {
        let ghost before = views(v@);
        let ghost tv = t@;
        v.push(t);
        assert(views(v@) =~= before.push(tv));
    }
}


/// Computes `log_sentences(raw@)`.
fn log_sentences_vec(raw: &[char]) -> (r: Vec<Vec<char>>)
    ensures
        views(r@) == log_sentences(raw@),
{
    let t = trim_vec(raw);
    let seps = log_seps_chars();
    let pieces = split_chars(t.as_slice(), &seps);
    let ghost tp = split_by(trim(raw@), log_seps()).map_values(|s: Seq<char>| trim(s));
    let mut out: Vec<Vec<char>> = Vec::new();
    let mut i: usize = 0;
    assert(tp.take(0) =~= Seq::<Seq<char>>::empty());
    while i < pieces.len()
        invariant
            i <= pieces@.len(),
            views(pieces@) == split_by(trim(raw@), log_seps()),
            tp == split_by(trim(raw@), log_seps()).map_values(|s: Seq<char>| trim(s)),
            views(out@) == keep(tp.take(i as int), nonempty()),
        decreases pieces.len() - i,
    {
        let p = trim_vec(pieces[i].as_slice());
        assert(views(pieces@)[i as int] == pieces@[i as int]@);
        assert(tp.take(i + 1).drop_last() =~= tp.take(i as int));
        assert(tp.take(i + 1).last() == p@);
        if p.len() > 0 {
            let ghost before = views(out@);
            let ghost pv = p@;
            out.push(p);
            assert(views(out@) =~= before.push(pv));
        }
        i = i + 1;
    }
    assert(tp.take(pieces@.len() as int) =~= tp);
    out
}

/// The kept lines of `existing`, sorted (see `sort_kept`).
fn sort_kept_vec(existing: &[char]) -> (r: (Vec<Vec<char>>, Vec<Vec<char>>))
    ensures
        (views(r.0@), views(r.1@)) == sort_kept(split_by(existing@, seq!['\n'])),
{
    let nl: [char; 1] = ['\n'];
    assert(nl@ == seq!['\n']);
    let lines = split_chars(existing, &nl);
    let ghost lv = views(lines@);
    let advice = advice_words_list();
    let none_w = none_yet_word_chars();
    let sum_h = summary_heading_chars();
    let adv_h = advice_heading_chars();
    let mut sum: Vec<Vec<char>> = Vec::new();
    let mut adv: Vec<Vec<char>> = Vec::new();
    let mut i: usize = 0;
    assert(lv.take(0) =~= Seq::<Seq<char>>::empty());
    while i < lines.len()
        invariant
            i <= lines@.len(),
            lv == views(lines@),
            lv == split_by(existing@, seq!['\n']),
            views(advice@) == advice_words(),
            none_w@ == none_yet_word(),
            sum_h@ == summary_heading(),
            adv_h@ == advice_heading(),
            (views(sum@), views(adv@)) == sort_kept(lv.take(i as int)),
        decreases lines.len() - i,
    {
        assert(lv.take(i + 1).drop_last() =~= lv.take(i as int));
        assert(lv.take(i + 1).last() == lines@[i as int]@);
        let t = trim_vec(lines[i].as_slice());
        let skip = t.len() == 0 || contains_exec(t.as_slice(), &none_w) || contains_exec(
            t.as_slice(),
            &sum_h,
        ) || contains_exec(t.as_slice(), &adv_h);
        if !skip {
            if contains_any(t.as_slice(), &advice) {
                push_new(&mut adv, t);
            } else {
                push_new(&mut sum, t);
            }
        }
        i = i + 1;
    }
    assert(lv.take(lines@.len() as int) =~= lv);
    (sum, adv)
}

/// Adds the key facts of the logs to `sum` (see `add_log_facts`).
fn add_log_facts_vec(sum: &mut Vec<Vec<char>>, logs: &[LogItem])
    ensures
        views(final(sum)@) == add_log_facts(views(old(sum)@), logs@),
{
    let ghost base = views(sum@);
    let keys = key_info_words_list();
    let prefix = key_prefix_chars();
    let mut j: usize = 0;
    assert(logs@.take(0) =~= Seq::<LogItem>::empty());
    while j < logs.len()
        invariant
            j <= logs@.len(),
            views(keys@) == key_info_words(),
            prefix@ == key_prefix(),
            views(sum@) == add_log_facts(base, logs@.take(j as int)),
        decreases logs.len() - j,
    {
        assert(logs@.take(j + 1).drop_last() =~= logs@.take(j as int));
        assert(logs@.take(j + 1).last() == logs@[j as int]);
        let raw = to_chars(logs[j].raw_content.as_str());
        let ss = log_sentences_vec(raw.as_slice());
        let ghost sv = views(ss@);
        let ghost start = views(sum@);
        let mut k: usize = 0;
        assert(sv.take(0) =~= Seq::<Seq<char>>::empty());
        while k < ss.len()
            invariant
                k <= ss@.len(),
                sv == views(ss@),
                views(keys@) == key_info_words(),
                prefix@ == key_prefix(),
                views(sum@) == add_key_facts(start, sv.take(k as int)),
            decreases ss.len() - k,
        {
            assert(sv.take(k + 1).drop_last() =~= sv.take(k as int));
            assert(sv.take(k + 1).last() == ss@[k as int]@);
            if contains_any(ss[k].as_slice(), &keys) {
                let mut f: Vec<char> = Vec::new();
                append_slice(&mut f, &prefix);
                append_slice(&mut f, ss[k].as_slice());
                push_new(sum, f);
            }
            k = k + 1;
        }
        assert(sv.take(ss@.len() as int) =~= sv);
        j = j + 1;
    }
    assert(logs@.take(logs@.len() as int) =~= logs@);
}

/// The progress lines of the first three logs.
fn progress_lines_vec(logs: &[LogItem]) -> (r: Vec<Vec<char>>)
    ensures
        views(r@) == progress_lines(logs@),
{
    let n: usize = if logs.len() < 3 { logs.len() } else { 3 };
    let pre = progress_prefix_chars();
    let mid = progress_mid_chars();
    let mut out: Vec<Vec<char>> = Vec::new();
    let mut i: usize = 0;
    while i < n
        invariant
            i <= n,
            n <= logs@.len(),
            n == if logs@.len() < 3 { logs@.len() } else { 3 },
            pre@ == progress_prefix(),
            mid@ == progress_mid(),
            views(out@) =~= progress_lines(logs@).take(i as int),
        decreases n - i,
    {
        let mut line: Vec<char> = Vec::new();
        append_slice(&mut line, &pre);
        let at = to_chars(logs[i].created_at.as_str());
        append_slice(&mut line, at.as_slice());
        append_slice(&mut line, &mid);
        let raw = to_chars(logs[i].raw_content.as_str());
        let head = take_chars_vec(raw.as_slice(), 50);
        append_slice(&mut line, head.as_slice());
        assert(line@ == progress_line(logs@[i as int]));
        let ghost before = views(out@);
        let ghost lv = line@;
        out.push(line);
        assert(views(out@) =~= before.push(lv));
        i = i + 1;
    }
    out
}

/// Computes `local_summary(title@, existing@, logs@)`.
pub fn local_summary_vec(title: &[char], existing: &[char], logs: &[LogItem]) -> (r: Vec<char>)
    ensures
        r@ == local_summary(title@, existing@, logs@),
{
    let (mut sum, mut adv) = sort_kept_vec(existing);
    add_log_facts_vec(&mut sum, logs);
    if sum.len() == 0 {
        sum = progress_lines_vec(logs);
    }
    if adv.len() == 0 {
        let a = default_follow_up_chars();
        let b = default_risk_chars();
        let mut v: Vec<Vec<char>> = Vec::new();
        let mut va: Vec<char> = Vec::new();
        append_slice(&mut va, &a);
        let mut vb: Vec<char> = Vec::new();
        append_slice(&mut vb, &b);
        v.push(va);
        v.push(vb);
        assert(views(v@) =~= seq![default_follow_up(), default_risk()]);
        adv = v;
    }
    let mut out: Vec<char> = Vec::new();
    append_slice(&mut out, &summary_heading_chars());
    out.push('\n');
    if sum.len() == 0 {
        append_slice(&mut out, &empty_head_chars());
        append_slice(&mut out, title);
        append_slice(&mut out, &empty_mid_chars());
        let n = decimal_vec(logs.len());
        append_slice(&mut out, n.as_slice());
        append_slice(&mut out, &empty_tail_chars());
    } else {
        let j = join_lines_vec(&sum);
        append_slice(&mut out, j.as_slice());
    }
    out.push('\n');
    out.push('\n');
    append_slice(&mut out, &advice_heading_chars());
    out.push('\n');
    let ja = join_lines_vec(&adv);
    append_slice(&mut out, ja.as_slice());
    assert(out@ =~= local_summary(title@, existing@, logs@));
    out
}

} // verus!
