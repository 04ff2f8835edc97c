//! The prompts sent to the model: the system texts, made from templates
//! by filling their slots, and the user text of a summary request, which
//! lists the matter's fields and its numbered logs.
use vstd::prelude::*;
use crate::text::{trim, trim_vec, to_chars, from_chars, append_slice, replace_all, replace_all_vec};
use crate::summary::{decimal, decimal_vec};
use crate::models::LogItem;

verus! {

/// `"["`
pub open spec fn entry_open() -> Seq<char> {
    seq!['[']
}

fn entry_open_chars() -> (r: [char; 1])
    ensures
        r@ == entry_open(),
{
    let r: [char; 1] = ['['];
    assert(r@ =~= entry_open());
    r
}

/// `"] 时间: "`
pub open spec fn entry_time() -> Seq<char> {
    seq![']', ' ', '时', '间', ':', ' ']
}

fn entry_time_chars() -> (r: [char; 6])
    ensures
        r@ == entry_time(),
{
    let r: [char; 6] = [']', ' ', '时', '间', ':', ' '];
    assert(r@ =~= entry_time());
    r
}

/// `", 来源: "`
pub open spec fn entry_source() -> Seq<char> {
    seq![',', ' ', '来', '源', ':', ' ']
}

fn entry_source_chars() -> (r: [char; 6])
    ensures
        r@ == entry_source(),
{
    let r: [char; 6] = [',', ' ', '来', '源', ':', ' '];
    assert(r@ =~= entry_source());
    r
}

/// `"("`
pub open spec fn entry_window() -> Seq<char> {
    seq!['(']
}

fn entry_window_chars() -> (r: [char; 1])
    ensures
        r@ == entry_window(),
{
    let r: [char; 1] = ['('];
    assert(r@ =~= entry_window());
    r
}

/// `")\n内容: "`
pub open spec fn entry_content() -> Seq<char> {
    seq![')', '\n', '内', '容', ':', ' ']
}

fn entry_content_chars() -> (r: [char; 6])
    ensures
        r@ == entry_content(),
{
    let r: [char; 6] = [')', '\n', '内', '容', ':', ' '];
    assert(r@ =~= entry_content());
    r
}

/// `"\n---\n"`
pub open spec fn entry_sep() -> Seq<char> {
    seq!['\n', '-', '-', '-', '\n']
}

fn entry_sep_chars() -> (r: [char; 5])
    ensures
        r@ == entry_sep(),
{
    let r: [char; 5] = ['\n', '-', '-', '-', '\n'];
    assert(r@ =~= entry_sep());
    r
}

/// `"事项标题: "`
pub open spec fn user_title() -> Seq<char> {
    seq!['事', '项', '标', '题', ':', ' ']
}

fn user_title_chars() -> (r: [char; 6])
    ensures
        r@ == user_title(),
{
    let r: [char; 6] = ['事', '项', '标', '题', ':', ' '];
    assert(r@ =~= user_title());
    r
}

/// `"\n事项背景/概述: "`
pub open spec fn user_overview() -> Seq<char> {
    seq!['\n', '事', '项', '背', '景', '/', '概', '述', ':', ' ']
}

fn user_overview_chars() -> (r: [char; 10])
    ensures
        r@ == user_overview(),
{
    let r: [char; 10] = ['\n', '事', '项', '背', '景', '/', '概', '述', ':', ' '];
    assert(r@ =~= user_overview());
    r
}

/// `"\n关联人/群: "`
pub open spec fn user_contacts() -> Seq<char> {
    seq!['\n', '关', '联', '人', '/', '群', ':', ' ']
}

fn user_contacts_chars() -> (r: [char; 8])
    ensures
        r@ == user_contacts(),
{
    let r: [char; 8] = ['\n', '关', '联', '人', '/', '群', ':', ' '];
    assert(r@ =~= user_contacts());
    r
}

/// `"\n参考现有内容: "`
pub open spec fn user_facts() -> Seq<char> {
    seq!['\n', '参', '考', '现', '有', '内', '容', ':', ' ']
}

fn user_facts_chars() -> (r: [char; 9])
    ensures
        r@ == user_facts(),
{
    let r: [char; 9] = ['\n', '参', '考', '现', '有', '内', '容', ':', ' '];
    assert(r@ =~= user_facts());
    r
}

/// `"\n\n相关碎片日志列表:\n"`
pub open spec fn user_logs() -> Seq<char> {
    seq!['\n', '\n', '相', '关', '碎', '片', '日', '志', '列', '表', ':', '\n']
}

fn user_logs_chars() -> (r: [char; 12])
    ensures
        r@ == user_logs(),
{
    let r: [char; 12] = ['\n', '\n', '相', '关', '碎', '片', '日', '志', '列', '表', ':', '\n'];
    assert(r@ =~= user_logs());
    r
}

/// `"未配置"`
pub open spec fn no_contacts_user() -> Seq<char> {
    seq!['未', '配', '置']
}

fn no_contacts_user_chars() -> (r: [char; 3])
    ensures
        r@ == no_contacts_user(),
{
    let r: [char; 3] = ['未', '配', '置'];
    assert(r@ =~= no_contacts_user());
    r
}

/// `"无"`
pub open spec fn no_contacts_prompt() -> Seq<char> {
    seq!['无']
}

fn no_contacts_prompt_chars() -> (r: [char; 1])
    ensures
        r@ == no_contacts_prompt(),
{
    let r: [char; 1] = ['无'];
    assert(r@ =~= no_contacts_prompt());
    r
}

/// `"（用户暂未配置个人情况）"`
pub open spec fn no_profile() -> Seq<char> {
    seq!['（', '用', '户', '暂', '未', '配', '置', '个', '人', '情', '况', '）']
}

fn no_profile_chars() -> (r: [char; 12])
    ensures
        r@ == no_profile(),
{
    let r: [char; 12] = ['（', '用', '户', '暂', '未', '配', '置', '个', '人', '情', '况', '）'];
    assert(r@ =~= no_profile());
    r
}

/// `"{now}"`
pub open spec fn now_slot() -> Seq<char> {
    seq!['{', 'n', 'o', 'w', '}']
}

fn now_slot_chars() -> (r: [char; 5])
    ensures
        r@ == now_slot(),
{
    let r: [char; 5] = ['{', 'n', 'o', 'w', '}'];
    assert(r@ =~= now_slot());
    r
}

/// `"{user_profile_desc}"`
pub open spec fn profile_slot() -> Seq<char> {
    seq!['{', 'u', 's', 'e', 'r', '_', 'p', 'r', 'o', 'f', 'i', 'l', 'e', '_', 'd', 'e', 's', 'c', '}']
}

fn profile_slot_chars() -> (r: [char; 19])
    ensures
        r@ == profile_slot(),
{
    let r: [char; 19] = ['{', 'u', 's', 'e', 'r', '_', 'p', 'r', 'o', 'f', 'i', 'l', 'e', '_', 'd', 'e', 's', 'c', '}'];
    assert(r@ =~= profile_slot());
    r
}

/// `"{matter_related_contacts}"`
pub open spec fn contacts_slot() -> Seq<char> {
    seq!['{', 'm', 'a', 't', 't', 'e', 'r', '_', 'r', 'e', 'l', 'a', 't', 'e', 'd', '_', 'c', 'o', 'n', 't', 'a', 'c', 't', 's', '}']
}

fn contacts_slot_chars() -> (r: [char; 25])
    ensures
        r@ == contacts_slot(),
{
    let r: [char; 25] = ['{', 'm', 'a', 't', 't', 'e', 'r', '_', 'r', 'e', 'l', 'a', 't', 'e', 'd', '_', 'c', 'o', 'n', 't', 'a', 'c', 't', 's', '}'];
    assert(r@ =~= contacts_slot());
    r
}

/// `"{current_time_str}"`
pub open spec fn time_slot() -> Seq<char> {
    seq!['{', 'c', 'u', 'r', 'r', 'e', 'n', 't', '_', 't', 'i', 'm', 'e', '_', 's', 't', 'r', '}']
}

fn time_slot_chars() -> (r: [char; 18])
    ensures
        r@ == time_slot(),
{
    let r: [char; 18] = ['{', 'c', 'u', 'r', 'r', 'e', 'n', 't', '_', 't', 'i', 'm', 'e', '_', 's', 't', 'r', '}'];
    assert(r@ =~= time_slot());
    r
}

/// `"（用户暂未配置个人情况，请从通用办公与生活场景推断）"`
pub open spec fn no_profile_route() -> Seq<char> {
    seq!['（', '用', '户', '暂', '未', '配', '置', '个', '人', '情', '况', '，', '请', '从', '通', '用', '办', '公', '与', '生', '活', '场', '景', '推', '断', '）']
}

fn no_profile_route_chars() -> (r: [char; 26])
    ensures
        r@ == no_profile_route(),
{
    let r: [char; 26] = ['（', '用', '户', '暂', '未', '配', '置', '个', '人', '情', '况', '，', '请', '从', '通', '用', '办', '公', '与', '生', '活', '场', '景', '推', '断', '）'];
    assert(r@ =~= no_profile_route());
    r
}

/// The trimmed text, or `fallback` when it is empty once trimmed.
pub open spec fn or_fallback(s: Seq<char>, fallback: Seq<char>) -> Seq<char> {
    if trim(s).len() > 0 {
        trim(s)
    } else {
        fallback
    }
}

/// Log `l` as the `n`-th entry of the list: number, time, source
/// application and window, then its text on a line of its own.
pub open spec fn log_entry(n: nat, l: LogItem) -> Seq<char> {
    entry_open() + decimal(n) + entry_time() + l.created_at@ + entry_source() + l.source_app@ + entry_window()
        + l.source_window_title@ + entry_content() + l.raw_content@
}

/// The logs as numbered entries from 1, separated by `"\n---\n"`.
pub open spec fn log_list(logs: Seq<LogItem>) -> Seq<char>
    decreases logs.len(),
{
    if logs.len() == 0 {
        Seq::empty()
    } else if logs.len() == 1 {
        log_entry(1, logs[0])
    } else {
        log_list(logs.drop_last()) + entry_sep() + log_entry(logs.len(), logs.last())
    }
}

/// The system text: `template` with `{now}` replaced by `now`, then
/// `{user_profile_desc}` by the profile (or a note that none is set), then
/// `{matter_related_contacts}` by the contacts (or `"无"`).
pub open spec fn summary_system_text(template: Seq<char>, now: Seq<char>, profile: Seq<char>, contacts: Seq<char>) -> Seq<char> {
    replace_all(
        replace_all(replace_all(template, now_slot(), now), profile_slot(), or_fallback(profile, no_profile())),
        contacts_slot(),
        or_fallback(contacts, no_contacts_prompt()),
    )
}

/// The user text: the matter's title, overview, contacts (or `"未配置"`)
/// and kept facts, then the list of its logs.
pub open spec fn summary_user_text(
    title: Seq<char>,
    overview: Seq<char>,
    contacts: Seq<char>,
    facts: Seq<char>,
    logs: Seq<LogItem>,
) -> Seq<char> {
    user_title() + title + user_overview() + overview + user_contacts() + or_fallback(contacts, no_contacts_user())
        + user_facts() + facts + user_logs() + log_list(logs)
}

/// The system text of a routing request: `template` with
/// `{current_time_str}` replaced by `now`, then `{user_profile_desc}` by the
/// profile (or a note that none is set).
pub open spec fn route_system_text(template: Seq<char>, now: Seq<char>, profile: Seq<char>) -> Seq<char> {
    replace_all(replace_all(template, time_slot(), now), profile_slot(), or_fallback(profile, no_profile_route()))
}

/// The trimmed text, or `fallback`.
fn or_fallback_vec(s: &str, fallback: &[char]) -> (r: Vec<char>)
    ensures
        r@ == or_fallback(s@, fallback@),
{
    let v = to_chars(s);
    let t = trim_vec(v.as_slice());
    if t.len() > 0 {
        t
    } else {
        let mut r: Vec<char> = Vec::new();
        append_slice(&mut r, fallback);
        assert(r@ =~= fallback@);
        r
    }
}

/// Appends the `n`-th entry for log `l`.
fn push_log_entry(v: &mut Vec<char>, n: usize, l: &LogItem)
    ensures
        final(v)@ == old(v)@ + log_entry(n as nat, *l),
{
    let d = decimal_vec(n);
    append_slice(v, &entry_open_chars());
    append_slice(v, d.as_slice());
    append_slice(v, &entry_time_chars());
    append_slice(v, to_chars(l.created_at.as_str()).as_slice());
    append_slice(v, &entry_source_chars());
    append_slice(v, to_chars(l.source_app.as_str()).as_slice());
    append_slice(v, &entry_window_chars());
    append_slice(v, to_chars(l.source_window_title.as_str()).as_slice());
    append_slice(v, &entry_content_chars());
    append_slice(v, to_chars(l.raw_content.as_str()).as_slice());
    assert(final(v)@ =~= old(v)@ + log_entry(n as nat, *l));
}

/// The system and user texts of a summary request for a matter: see
/// `summary_system_text` and `summary_user_text`.
pub fn summary_prompt(
    template: &str,
    now: &str,
    profile: &str,
    title: &str,
    overview: &str,
    contacts: &str,
    facts: &str,
    logs: &[LogItem],
) -> (r: (String, String))
    ensures
        r.0@ == summary_system_text(template@, now@, profile@, contacts@),
        r.1@ == summary_user_text(title@, overview@, contacts@, facts@, logs@),
{
    let tv = to_chars(template);
    let nv = to_chars(now);
    let s1 = replace_all_vec(tv.as_slice(), &now_slot_chars(), nv.as_slice());
    let pv = or_fallback_vec(profile, &no_profile_chars());
    let s2 = replace_all_vec(s1.as_slice(), &profile_slot_chars(), pv.as_slice());
    let cv = or_fallback_vec(contacts, &no_contacts_prompt_chars());
    let s3 = replace_all_vec(s2.as_slice(), &contacts_slot_chars(), cv.as_slice());
    let system = from_chars(s3.as_slice());

    let mut u: Vec<char> = Vec::new();
    append_slice(&mut u, &user_title_chars());
    append_slice(&mut u, to_chars(title).as_slice());
    append_slice(&mut u, &user_overview_chars());
    append_slice(&mut u, to_chars(overview).as_slice());
    append_slice(&mut u, &user_contacts_chars());
    append_slice(&mut u, or_fallback_vec(contacts, &no_contacts_user_chars()).as_slice());
    append_slice(&mut u, &user_facts_chars());
    append_slice(&mut u, to_chars(facts).as_slice());
    append_slice(&mut u, &user_logs_chars());
    let ghost head = u@;
    let mut k: usize = 0;
    while k < logs.len()
        invariant
            k <= logs@.len(),
            u@ == head + log_list(logs@.take(k as int)),
        decreases logs.len() - k,
    {
        let ghost before = u@;
        if k > 0 {
            append_slice(&mut u, &entry_sep_chars());
        }
        push_log_entry(&mut u, k + 1, &logs[k]);
        proof {
            let t = logs@.take(k + 1);
            assert(t.drop_last() =~= logs@.take(k as int));
            assert(t.last() == logs@[k as int]);
            if k == 0 {
                assert(t.len() == 1);
                assert(log_list(logs@.take(0)) =~= Seq::<char>::empty());
                assert(u@ =~= head + log_list(t));
            } else {
                assert(u@ =~= head + log_list(t));
            }
        }
        k = k + 1;
    }
    assert(logs@.take(logs@.len() as int) =~= logs@);
    assert(u@ =~= summary_user_text(title@, overview@, contacts@, facts@, logs@));
    (system, from_chars(u.as_slice()))
}

/// The system text of a routing request (see `route_system_text`).
pub fn route_prompt(template: &str, now: &str, profile: &str) -> (r: String)
    ensures
        r@ == route_system_text(template@, now@, profile@),
{
    let tv = to_chars(template);
    let nv = to_chars(now);
    let s1 = replace_all_vec(tv.as_slice(), &time_slot_chars(), nv.as_slice());
    let pv = or_fallback_vec(profile, &no_profile_route_chars());
    let s2 = replace_all_vec(s1.as_slice(), &profile_slot_chars(), pv.as_slice());
    from_chars(s2.as_slice())
}

} // verus!
