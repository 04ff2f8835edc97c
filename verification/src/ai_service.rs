//! The assistant's routing service: the offline rule engine that files a
//! captured snippet under a matter, and the rules around the language-model
//! replies.
use vstd::prelude::*;
use crate::clock::day_text;
use crate::models::{
    AIParseResult, MatterContextWithTodos, ParseView, DraftView, CandidateView, draft_views, };
use crate::routing::{
    scores_of, best_of, top_score, raw_candidates, sort_desc, todo_closures, suggestion, rank_matters,
    close_updates, suggest_matter, fallback_title, fallback_title_vec, contacts_of, window_usable, matter_score,
    lemma_contact_window_score,
};
use crate::todo_rules::{RuleDates, DatesView, rule_todos, rule_todos_vec};
use crate::text::{trim, trim_vec, to_chars, from_chars, contains};
use crate::timefmt::{normalize_time, normalize_time_spec};
use crate::text::opt_seq;
use crate::summary::{local_summary, local_summary_vec};
use crate::models::{LogItem, AppConfig};

verus! {

/// `"MATCH_EXISTING"`
pub open spec fn match_existing() -> Seq<char> {
    seq!['M', 'A', 'T', 'C', 'H', '_', 'E', 'X', 'I', 'S', 'T', 'I', 'N', 'G']
}

/// `"AMBIGUOUS"`
pub open spec fn ambiguous() -> Seq<char> {
    seq!['A', 'M', 'B', 'I', 'G', 'U', 'O', 'U', 'S']
}

/// `"CREATE_NEW"`
pub open spec fn create_new() -> Seq<char> {
    seq!['C', 'R', 'E', 'A', 'T', 'E', '_', 'N', 'E', 'W']
}

/// Whether the most confident candidate leads the next by 20 or more, or
/// there is no second candidate.
pub open spec fn clear_winner(cands: Seq<CandidateView>) -> bool {
    cands.len() < 2 || cands[0].confidence - cands[1].confidence >= 20
}

/// The decision of the rule engine for `snippet`, captured in application
/// `app` and window `window`, among the matters `ms`, where `todos` are the
/// todos it extracts:
/// - filed under the best matter (`MATCH_EXISTING`) when its score reaches
///   65 and it wins clearly, with the todos the snippet closes;
/// - `AMBIGUOUS` (confidence 55) when two or more matters are candidates;
/// - `CREATE_NEW` (confidence 85) otherwise, with a suggested matter.
pub open spec fn fallback_view(
    ms: Seq<MatterContextWithTodos>,
    snippet: Seq<char>,
    app: Seq<char>,
    window: Seq<char>,
    todos: Seq<DraftView>,
) -> ParseView {
    let clean = trim(snippet);
    let win = trim(window);
    let sc = scores_of(ms, clean, win);
    let best = best_of(sc);
    let top = top_score(sc);
    let cands = sort_desc(raw_candidates(ms, clean, win));
    if top >= 65 && clear_winner(cands) && best is Some {
        let ctx = ms[best->0];
        ParseView {
            action: match_existing(),
            confidence: if top > 95 { 95 } else { top as u32 },
            matched_matter_id: Some(ctx.matter.id@),
            matched_matter_title: Some(ctx.matter.title@),
            candidate_matters: cands,
            suggested_new_matter: None,
            extracted_facts_delta: None,
            extracted_todos: todos,
            todo_updates: todo_closures(ctx, clean),
            raw_snippet: clean,
            source_app: app,
            source_window: window,
            log_id: None,
            detected_chat_target: None,
        }
    } else if cands.len() >= 2 {
        ParseView {
            action: ambiguous(),
            confidence: 55,
            matched_matter_id: None,
            matched_matter_title: None,
            candidate_matters: cands,
            suggested_new_matter: Some(suggestion(clean, win, true)),
            extracted_facts_delta: None,
            extracted_todos: todos,
            todo_updates: Seq::empty(),
            raw_snippet: clean,
            source_app: app,
            source_window: window,
            log_id: None,
            detected_chat_target: None,
        }
    } else {
        ParseView {
            action: create_new(),
            confidence: 85,
            matched_matter_id: None,
            matched_matter_title: None,
            candidate_matters: Seq::empty(),
            suggested_new_matter: Some(suggestion(clean, win, false)),
            extracted_facts_delta: None,
            extracted_todos: todos,
            todo_updates: Seq::empty(),
            raw_snippet: clean,
            source_app: app,
            source_window: window,
            log_id: None,
            detected_chat_target: None,
        }
    }
}

/// The routing service.
pub struct AIService;

impl AIService {
    /// The local rule engine with the rule dates given: files the snippet
    /// (see `fallback_view`), with the todos `rule_todos` finds in the
    /// trimmed snippet.
    pub fn local_fallback_parser_on(
        active_matters: &[MatterContextWithTodos],
        snippet: &str,
        source_app: &str,
        source_window: &str,
        dates: &RuleDates,
    ) -> (r: AIParseResult)
        ensures
            r@ == fallback_view(
                active_matters@,
                snippet@,
                source_app@,
                source_window@,
                rule_todos(trim(snippet@), dates@),
            ),
    {
        let sv = to_chars(snippet);
        let clean = trim_vec(sv.as_slice());
        let wv = to_chars(source_window);
        let win = trim_vec(wv.as_slice());
        let todos = rule_todos_vec(clean.as_slice(), dates);
        let ranking = rank_matters(active_matters, clean.as_slice(), win.as_slice());
        let ghost cands = sort_desc(raw_candidates(active_matters@, clean@, win@));
        let clear = ranking.candidates.len() < 2 || (ranking.candidates[0].confidence
            >= ranking.candidates[1].confidence && ranking.candidates[0].confidence
            - ranking.candidates[1].confidence >= 20);
        assert(ranking.candidates.len() >= 2 ==> cands[0] == ranking.candidates@[0]@ && cands[1]
            == ranking.candidates@[1]@);
        assert(clear == clear_winner(cands));
        let app_s = String::from_str(source_app);
        let win_s = String::from_str(source_window);
        let raw_s = from_chars(clean.as_slice());
        assert(app_s@ == source_app@);
        assert(win_s@ == source_window@);
        if ranking.top >= 65 && clear && ranking.best.is_some() {
            let b = ranking.best.unwrap();
            proof {
                crate::routing::lemma_best_in_range(scores_of(active_matters@, clean@, win@));
            }
            let ctx = &active_matters[b];
            let updates = close_updates(ctx, clean.as_slice());
            let conf: u32 = if ranking.top > 95 { 95 } else { ranking.top as u32 };
            let word: [char; 14] = ['M', 'A', 'T', 'C', 'H', '_', 'E', 'X', 'I', 'S', 'T', 'I', 'N', 'G'];
            assert(word@ == match_existing());
            let r = AIParseResult {
                action: from_chars(&word),
                confidence: conf,
                matched_matter_id: Some(ctx.matter.id.clone()),
                matched_matter_title: Some(ctx.matter.title.clone()),
                candidate_matters: ranking.candidates,
                suggested_new_matter: None,
                extracted_facts_delta: None,
                extracted_todos: todos,
                todo_updates: updates,
                raw_snippet: raw_s,
                source_app: app_s,
                source_window: win_s,
                log_id: None,
                detected_chat_target: None,
            };
            assert(r@.todo_updates == todo_closures(active_matters@[b as int], clean@));
            assert(r@.candidate_matters == cands);
            assert(r@.extracted_todos == rule_todos(trim(snippet@), dates@));
            r
        } else if ranking.candidates.len() >= 2 {
            let sugg = suggest_matter(clean.as_slice(), win.as_slice(), true);
            let word: [char; 9] = ['A', 'M', 'B', 'I', 'G', 'U', 'O', 'U', 'S'];
            assert(word@ == ambiguous());
            let r = AIParseResult {
                action: from_chars(&word),
                confidence: 55,
                matched_matter_id: None,
                matched_matter_title: None,
                candidate_matters: ranking.candidates,
                suggested_new_matter: Some(sugg),
                extracted_facts_delta: None,
                extracted_todos: todos,
                todo_updates: Vec::new(),
                raw_snippet: raw_s,
                source_app: app_s,
                source_window: win_s,
                log_id: None,
                detected_chat_target: None,
            };
            assert(r@.todo_updates =~= Seq::<crate::models::UpdateView>::empty());
            assert(r@.candidate_matters == cands);
            r
        } else {
            let sugg = suggest_matter(clean.as_slice(), win.as_slice(), false);
            let word: [char; 10] = ['C', 'R', 'E', 'A', 'T', 'E', '_', 'N', 'E', 'W'];
            assert(word@ == create_new());
            let r = AIParseResult {
                action: from_chars(&word),
                confidence: 85,
                matched_matter_id: None,
                matched_matter_title: None,
                candidate_matters: Vec::new(),
                suggested_new_matter: Some(sugg),
                extracted_facts_delta: None,
                extracted_todos: todos,
                todo_updates: Vec::new(),
                raw_snippet: raw_s,
                source_app: app_s,
                source_window: win_s,
                log_id: None,
                detected_chat_target: None,
            };
            assert(r@.todo_updates =~= Seq::<crate::models::UpdateView>::empty());
            assert(r@.candidate_matters =~= Seq::<CandidateView>::empty());
            r
        }
    }
}


/// The date text of the day `days` days after day number `day`, or the
/// empty text where chrono's calendar ends before it.
pub open spec fn day_after_text(day: i32, days: i32) -> Seq<char> {
    if day + days <= i32::MAX {
        match day_text((day + days) as i32) {
            Some(t) => t,
            None => Seq::empty(),
        }
    } else {
        Seq::empty()
    }
}

/// The rule dates of day number `day`: that day and the next three.
pub open spec fn dates_of(day: i32) -> DatesView {
    DatesView {
        today: day_after_text(day, 0),
        tomorrow: day_after_text(day, 1),
        in_two_days: day_after_text(day, 2),
        in_three_days: day_after_text(day, 3),
    }
}

/// Whether the trimmed window title `win` names a chat and contains a
/// contact of matter context `ctx`'s contact list, or is contained in one.
pub open spec fn window_names_contact(ctx: MatterContextWithTodos, win: Seq<char>) -> bool {
    let cs = contacts_of(ctx.matter.related_contacts@);
    &&& trim(ctx.matter.related_contacts@).len() > 0
    &&& window_usable(win)
    &&& exists|k: int| 0 <= k < cs.len() && (contains(win, #[trigger] cs[k]) || contains(cs[k], win))
}

/// A lone active matter whose configured contact the window names is the
/// one the snippet is filed under: `MATCH_EXISTING`, that matter, with a
/// confidence of at least 90.
pub proof fn lemma_lone_contact_match(
    ms: Seq<MatterContextWithTodos>,
    snippet: Seq<char>,
    app: Seq<char>,
    window: Seq<char>,
    todos: Seq<DraftView>,
)
    requires
        ms.len() == 1,
        window_names_contact(ms[0], trim(window)),
    ensures
        fallback_view(ms, snippet, app, window, todos).action == match_existing(),
        fallback_view(ms, snippet, app, window, todos).matched_matter_id == Some(ms[0].matter.id@),
        fallback_view(ms, snippet, app, window, todos).confidence >= 90,
{
    let clean = trim(snippet);
    let win = trim(window);
    let cs = contacts_of(ms[0].matter.related_contacts@);
    let k = choose|k: int| 0 <= k < cs.len() && (contains(win, #[trigger] cs[k]) || contains(cs[k], win));
    lemma_contact_window_score(ms[0].matter, clean, win, k);
    let sc = scores_of(ms, clean, win);
    assert(sc[0] == matter_score(ms[0].matter, clean, win));
    assert(sc.len() == 1);
    assert(sc.drop_last().len() == 0);
    assert(best_of(sc.drop_last()) is None);
    assert(sc.last() == sc[0]);
    assert(best_of(sc) == Some(0int));
    assert(ms.drop_last().len() == 0);
    assert(raw_candidates(ms.drop_last(), clean, win) == Seq::<CandidateView>::empty());
    let rc = raw_candidates(ms, clean, win);
    assert(rc.len() == 1);
    assert(rc.drop_last() =~= Seq::<CandidateView>::empty());
    assert(sort_desc(rc.drop_last()) == Seq::<CandidateView>::empty());
    assert(sort_desc(rc).len() == 1);
}

/// The date `days` days after day number `day` (see `day_after_text`).
fn day_after(day: i32, days: i32) -> (r: String)
    requires
        0 <= days <= 3,
    ensures
        r@ == day_after_text(day, days),
{
    let empty: [char; 0] = [];
    assert(empty@ =~= Seq::<char>::empty());
    if day > i32::MAX - days {
        return from_chars(&empty);
    }
    match crate::clock::date_text(day + days) {
        Some(d) => d,
        None => from_chars(&empty),
    }
}

impl AIService {
    /// The day numbered `today` and the next three (see `dates_of`).
    pub fn rule_dates(today: i32) -> (r: RuleDates)
        ensures
            r@ == dates_of(today),
    {
        let day = today;
        let r = RuleDates {
            today: day_after(day, 0),
            tomorrow: day_after(day, 1),
            in_two_days: day_after(day, 2),
            in_three_days: day_after(day, 3),
        };
        assert(r@ == dates_of(day));
        r
    }

    /// The local rule engine on the day numbered `today`: the decision of
    /// `fallback_view`, with the dates of that day and the next three.
    pub fn local_fallback_parser(
        active_matters: &[MatterContextWithTodos],
        snippet: &str,
        source_app: &str,
        source_window: &str,
        today: i32,
    ) -> (r: AIParseResult)
        ensures
            r@ == fallback_view(
                active_matters@,
                snippet@,
                source_app@,
                source_window@,
                rule_todos(trim(snippet@), dates_of(today)),
            ),
            active_matters@.len() == 1 && window_names_contact(active_matters@[0], trim(source_window@)) ==> r@.action
                == match_existing() && r@.matched_matter_id == Some(active_matters@[0].matter.id@) && r.confidence >= 90,
    {
        let dates = Self::rule_dates(today);
        let r = Self::local_fallback_parser_on(active_matters, snippet, source_app, source_window, &dates);
        assert(r@ == fallback_view(
            active_matters@,
            snippet@,
            source_app@,
            source_window@,
            rule_todos(trim(snippet@), dates@),
        ));
        proof {
            if active_matters@.len() == 1 && window_names_contact(active_matters@[0], trim(source_window@)) {
                lemma_lone_contact_match(
                    active_matters@,
                    snippet@,
                    source_app@,
                    source_window@,
                    rule_todos(trim(snippet@), dates@),
                );
            }
        }
        r
    }

    /// The todos the rules find in `text`, with the rule dates given.
    pub fn extract_rules_todos_on(text: &str, dates: &RuleDates) -> (r: Vec<crate::models::ExtractedTodo>)
        ensures
            draft_views(r@) == rule_todos(text@, dates@),
    {
        let v = to_chars(text);
        rule_todos_vec(v.as_slice(), dates)
    }

    /// The todos the rules find in `text` on the day numbered `today`.
    pub fn extract_rules_todos(text: &str, today: i32) -> (r: Vec<crate::models::ExtractedTodo>)
        ensures
            draft_views(r@) == rule_todos(text@, dates_of(today)),
            forall|k: int|
                0 <= k < r@.len() && contains(#[trigger] r@[k].content@, seq!['明', '天']) ==> (r@[k].due_time matches Some(
                    t,
                ) && t@.take(dates_of(today).tomorrow.len() as int) == dates_of(today).tomorrow),
    {
        let dates = Self::rule_dates(today);
        let r = Self::extract_rules_todos_on(text, &dates);
        proof {
            crate::todo_rules::lemma_rule_todos_tomorrow(text@, dates_of(today));
            let rt = rule_todos(text@, dates_of(today));
            assert forall|k: int|
                0 <= k < r@.len() && contains(#[trigger] r@[k].content@, seq!['明', '天']) implies (r@[k].due_time matches Some(
                    t,
                ) && t@.take(dates_of(today).tomorrow.len() as int) == dates_of(today).tomorrow) by {
                assert(draft_views(r@)[k] == r@[k]@);
                assert(rt[k].content == r@[k].content@);
                assert(rt[k].due_time == opt_seq(r@[k].due_time));
            }
        }
        r
    }

    /// Normalises a due time: a deadline covering a whole day, or at 23:59,
    /// moves to 22:00:00 (see `normalize_time_spec`).
    pub fn normalize_due_time_str(time_str: Option<String>) -> (r: Option<String>)
        ensures
            opt_seq(r) == normalize_time_spec(opt_seq(time_str)),
    {
        normalize_time(time_str)
    }

    /// A title for a new matter, made from the text (see `fallback_title`).
    pub fn generate_fallback_title(text: &str) -> (r: String)
        ensures
            r@ == fallback_title(text@),
    {
        let v = to_chars(text);
        let t = fallback_title_vec(v.as_slice());
        from_chars(t.as_slice())
    }
}


/// `"• 暂无相关日志记录，尚未沉淀事实。"`
pub open spec fn no_logs_text() -> Seq<char> {
    seq!['•', ' ', '暂', '无', '相', '关', '日', '志', '记', '录', '，', '尚', '未', '沉', '淀', '事', '实', '。']
}

/// What summarising a matter does first.
pub enum SummaryStep {
    /// The summary is known without asking the model.
    Done(String),
    /// Ask the model, then call `summary_after_model`.
    AskModel,
}

/// Whether a key is configured for the language model.
pub open spec fn has_api_key(config: AppConfig) -> bool {
    trim(config.api_key@).len() > 0
}

impl AIService {
    /// The local summary of a matter (see `local_summary`); the overview is
    /// not used.
    pub fn local_summarize_facts(
        matter_title: &str,
        _matter_overview: &str,
        existing_facts: &str,
        logs: &[LogItem],
    ) -> (r: String)
        ensures
            r@ == local_summary(matter_title@, existing_facts@, logs@),
    {
        let t = to_chars(matter_title);
        let e = to_chars(existing_facts);
        let v = local_summary_vec(t.as_slice(), e.as_slice(), logs);
        from_chars(v.as_slice())
    }

    /// The first step of summarising a matter:
    /// without logs, the kept facts (or a placeholder when there are none);
    /// with logs and a model key, ask the model; otherwise the local summary.
    pub fn summarize_first_step(
        config: &AppConfig,
        matter_title: &str,
        existing_facts: &str,
        logs: &[LogItem],
    ) -> (r: SummaryStep)
        ensures
            logs@.len() == 0 ==> (r matches SummaryStep::Done(t) && t@ == if trim(existing_facts@).len()
                > 0 {
                existing_facts@
            } else {
                no_logs_text()
            }),
            logs@.len() > 0 && has_api_key(*config) ==> r is AskModel,
            logs@.len() > 0 && !has_api_key(*config) ==> (r matches SummaryStep::Done(t) && t@
                == local_summary(matter_title@, existing_facts@, logs@)),
    {
        if logs.len() == 0 {
            let e = to_chars(existing_facts);
            let te = trim_vec(e.as_slice());
            if te.len() > 0 {
                return SummaryStep::Done(String::from_str(existing_facts));
            }
            let ph: [char; 18] = ['•', ' ', '暂', '无', '相', '关', '日', '志', '记', '录', '，', '尚', '未', '沉', '淀', '事', '实', '。'];
            assert(ph@ == no_logs_text());
            return SummaryStep::Done(from_chars(&ph));
        }
        let k = to_chars(config.api_key.as_str());
        let tk = trim_vec(k.as_slice());
        if tk.len() > 0 {
            SummaryStep::AskModel
        } else {
            SummaryStep::Done(Self::local_summarize_facts(matter_title, "", existing_facts, logs))
        }
    }

    /// The summary once the model has answered: its reply, trimmed, when it
    /// says something; the local summary when it failed or said nothing.
    pub fn summary_after_model(
        reply: Result<String, String>,
        matter_title: &str,
        existing_facts: &str,
        logs: &[LogItem],
    ) -> (r: String)
        ensures
            r@ == match reply {
                Ok(t) => if trim(t@).len() > 0 {
                    trim(t@)
                } else {
                    local_summary(matter_title@, existing_facts@, logs@)
                },
                Err(_) => local_summary(matter_title@, existing_facts@, logs@),
            },
    {
        match reply {
            Ok(t) => {
                let tv = to_chars(t.as_str());
                let tt = trim_vec(tv.as_slice());
                if tt.len() > 0 {
                    return from_chars(tt.as_slice());
                }
                Self::local_summarize_facts(matter_title, "", existing_facts, logs)
            },
            Err(_) => Self::local_summarize_facts(matter_title, "", existing_facts, logs),
        }
    }
}


/// What routing a snippet does first.
pub enum RouteStep {
    /// The rule engine's decision; the model is not asked.
    Local(AIParseResult),
    /// Ask the model, then call `route_after_model`.
    AskModel,
}

impl AIService {
    /// The first step of routing a snippet on the day numbered `today`:
    /// without a model key, the rule engine decides; with one, ask the model.
    pub fn route_first_step(
        config: &AppConfig,
        active_matters: &[MatterContextWithTodos],
        snippet: &str,
        source_app: &str,
        source_window: &str,
        today: i32,
    ) -> (r: RouteStep)
        ensures
            has_api_key(*config) <==> r is AskModel,
            r matches RouteStep::Local(p) ==> p@ == fallback_view(
                active_matters@,
                snippet@,
                source_app@,
                source_window@,
                rule_todos(trim(snippet@), dates_of(today)),
            ),
    {
        let k = to_chars(config.api_key.as_str());
        let tk = trim_vec(k.as_slice());
        if tk.len() > 0 {
            RouteStep::AskModel
        } else {
            RouteStep::Local(Self::local_fallback_parser(active_matters, snippet, source_app, source_window, today))
        }
    }

    /// The decision once the model has answered: its decision when the call
    /// succeeded, the rule engine's on the day numbered `today` when it
    /// failed.
    pub fn route_after_model(
        reply: Result<AIParseResult, String>,
        active_matters: &[MatterContextWithTodos],
        snippet: &str,
        source_app: &str,
        source_window: &str,
        today: i32,
    ) -> (r: AIParseResult)
        ensures
            reply is Ok ==> r == reply->Ok_0,
            reply is Err ==> r@ == fallback_view(
                active_matters@,
                snippet@,
                source_app@,
                source_window@,
                rule_todos(trim(snippet@), dates_of(today)),
            ),
    {
        match reply {
            Ok(p) => p,
            Err(_) => Self::local_fallback_parser(active_matters, snippet, source_app, source_window, today),
        }
    }
}

} // verus!
