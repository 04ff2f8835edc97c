//! What the language model answers, as plain values, and how its answer
//! becomes a routing decision: defaults for missing fields, entries without
//! their required fields dropped, due times normalised. Also the endpoint
//! address and the unwrapping of fenced replies.
use vstd::prelude::*;
use vstd::string::StringExecFns;
use crate::models::{
    AIParseResult, MatterContextWithTodos, ParseView, CandidateView, SuggestionView, DraftView, UpdateView,
    CandidateMatter, SuggestedMatter, ExtractedTodo, TodoUpdateSuggestion, candidate_views, draft_views,
    update_views, copy_opt,
};
use crate::text::{
    opt_seq, trim, trim_vec, to_chars, from_chars, ends_with, ends_with_exec, starts_with,
    sub_vec, append_slice,
};
use crate::timefmt::{normalize_time, normalize_time_spec};
use crate::lits::{work, medium, lit_work, lit_medium, same_text, chars_are};
use crate::ai_service::create_new;

verus! {

/// A candidate matter as the model wrote it.
pub struct LlmCandidate {
    pub id: Option<String>,
    pub title: Option<String>,
    /// In hundredths.
    pub confidence: Option<u32>,
}

/// A suggested matter as the model wrote it.
pub struct LlmSuggestion {
    pub title: Option<String>,
    pub category: Option<String>,
    pub priority: Option<String>,
    pub summary: Option<String>,
    pub related_contacts: Option<String>,
}

/// An extracted todo as the model wrote it.
pub struct LlmTodo {
    pub content: Option<String>,
    pub due_time: Option<String>,
}

/// A todo update as the model wrote it.
pub struct LlmUpdate {
    pub todo_id: Option<String>,
    pub original_content: Option<String>,
    pub action: Option<String>,
    pub reason: Option<String>,
    pub updated_content: Option<String>,
    pub updated_due_time: Option<String>,
}

/// The model's decision, field by field, each absent when the reply did not
/// hold it as text (or number, or list, or object).
pub struct LlmReply {
    pub action: Option<String>,
    /// In hundredths.
    pub confidence: Option<u32>,
    pub matched_matter_id: Option<String>,
    pub detected_chat_target: Option<String>,
    pub candidate_matters: Vec<LlmCandidate>,
    pub suggested_new_matter: Option<LlmSuggestion>,
    pub extracted_todos: Vec<LlmTodo>,
    pub todo_updates: Vec<LlmUpdate>,
}

/// `o`'s text, or `d`.
pub open spec fn text_or(o: Option<String>, d: Seq<char>) -> Seq<char> {
    match o {
        Some(s) => s@,
        None => d,
    }
}

/// The position of the first matter with identifier `id`.
pub open spec fn first_ctx(ms: Seq<MatterContextWithTodos>, id: Seq<char>) -> Option<int>
    decreases ms.len(),
{
    if ms.len() == 0 {
        None
    } else {
        match first_ctx(ms.drop_last(), id) {
            Some(i) => Some(i),
            None => if ms.last().matter.id@ == id {
                Some(ms.len() - 1)
            } else {
                None
            },
        }
    }
}

/// The candidates of the reply that name both an identifier and a title;
/// a missing confidence is 60.
pub open spec fn reply_candidates(cs: Seq<LlmCandidate>) -> Seq<CandidateView>
    decreases cs.len(),
{
    if cs.len() == 0 {
        Seq::empty()
    } else {
        let prev = reply_candidates(cs.drop_last());
        let c = cs.last();
        if c.id is Some && c.title is Some {
            prev.push(
                CandidateView {
                    id: c.id->0@,
                    title: c.title->0@,
                    confidence: match c.confidence {
                        Some(x) => x,
                        None => 60,
                    },
                },
            )
        } else {
            prev
        }
    }
}

/// `"未命名事项"`
pub open spec fn unnamed_matter() -> Seq<char> {
    seq!['未', '命', '名', '事', '项']
}

/// `"根据最新日志更新"`
pub open spec fn default_update_reason() -> Seq<char> {
    seq!['根', '据', '最', '新', '日', '志', '更', '新']
}

/// `"null"`
pub open spec fn null_word() -> Seq<char> {
    seq!['n', 'u', 'l', 'l']
}

/// The suggested matter of the reply, with defaults.
pub open spec fn reply_suggestion(s: LlmSuggestion) -> SuggestionView {
    SuggestionView {
        title: text_or(s.title, unnamed_matter()),
        category: text_or(s.category, work()),
        priority: text_or(s.priority, medium()),
        summary: text_or(s.summary, Seq::empty()),
        related_contacts: opt_seq(s.related_contacts),
    }
}

/// The todos of the reply that have a text, with due times normalised.
pub open spec fn reply_todos(ts: Seq<LlmTodo>) -> Seq<DraftView>
    decreases ts.len(),
{
    if ts.len() == 0 {
        Seq::empty()
    } else {
        let prev = reply_todos(ts.drop_last());
        let t = ts.last();
        if t.content is Some {
            prev.push(DraftView { content: t.content->0@, due_time: normalize_time_spec(opt_seq(t.due_time)) })
        } else {
            prev
        }
    }
}

/// The updates of the reply that name a todo and an action, with defaults
/// and due times normalised.
pub open spec fn reply_updates(us: Seq<LlmUpdate>) -> Seq<UpdateView>
    decreases us.len(),
{
    if us.len() == 0 {
        Seq::empty()
    } else {
        let prev = reply_updates(us.drop_last());
        let u = us.last();
        if u.todo_id is Some && u.action is Some {
            prev.push(
                UpdateView {
                    todo_id: u.todo_id->0@,
                    original_content: text_or(u.original_content, Seq::empty()),
                    action: u.action->0@,
                    reason: text_or(u.reason, default_update_reason()),
                    updated_content: opt_seq(u.updated_content),
                    updated_due_time: normalize_time_spec(opt_seq(u.updated_due_time)),
                },
            )
        } else {
            prev
        }
    }
}

/// The chat the model read off the screenshot: trimmed, absent when empty
/// or `"null"`.
pub open spec fn reply_target(t: Option<String>) -> Option<Seq<char>> {
    match t {
        Some(s) => if trim(s@).len() > 0 && trim(s@) != null_word() {
            Some(trim(s@))
        } else {
            None
        },
        None => None,
    }
}

/// The routing decision the model's reply gives for `snippet` among `ms`.
pub open spec fn reply_view(
    reply: LlmReply,
    ms: Seq<MatterContextWithTodos>,
    snippet: Seq<char>,
    app: Seq<char>,
    window: Seq<char>,
) -> ParseView {
    ParseView {
        action: text_or(reply.action, create_new()),
        confidence: match reply.confidence {
            Some(c) => c,
            None => 80,
        },
        matched_matter_id: opt_seq(reply.matched_matter_id),
        matched_matter_title: match reply.matched_matter_id {
            Some(id) => match first_ctx(ms, id@) {
                Some(i) => Some(ms[i].matter.title@),
                None => None,
            },
            None => None,
        },
        candidate_matters: reply_candidates(reply.candidate_matters@),
        suggested_new_matter: match reply.suggested_new_matter {
            Some(s) => Some(reply_suggestion(s)),
            None => None,
        },
        extracted_facts_delta: None,
        extracted_todos: reply_todos(reply.extracted_todos@),
        todo_updates: reply_updates(reply.todo_updates@),
        raw_snippet: snippet,
        source_app: app,
        source_window: window,
        log_id: None,
        detected_chat_target: reply_target(reply.detected_chat_target),
    }
}


/// `o`'s text, or the text `d`.
fn string_or(o: &Option<String>, d: &[char]) -> (r: String)
    ensures
        r@ == text_or(*o, d@),
{
    match o {
        Some(x) => x.clone(),
        None => from_chars(d),
    }
}

/// The position of the first matter with identifier `id`.
fn first_ctx_exec(ms: &[MatterContextWithTodos], id: &str) -> (r: Option<usize>)
    ensures
        r matches Some(i) ==> first_ctx(ms@, id@) == Some(i as int) && i < ms@.len(),
        r is None ==> first_ctx(ms@, id@) is None,
{
    let mut i: usize = 0;
    while i < ms.len()
        invariant
            i <= ms@.len(),
            first_ctx(ms@.take(i as int), id@) is None,
        decreases ms.len() - i,
    {
        assert(ms@.take(i + 1).drop_last() =~= ms@.take(i as int));
        if same_text(ms[i].matter.id.as_str(), id) {
            proof {
                lemma_first_ctx_prefix(ms@, id@, i as int);
            }
            return Some(i);
        }
        i = i + 1;
    }
    assert(ms@.take(ms@.len() as int) =~= ms@);
    None
}

proof fn lemma_first_ctx_prefix(ms: Seq<MatterContextWithTodos>, id: Seq<char>, i: int)
    requires
        0 <= i < ms.len(),
        first_ctx(ms.take(i + 1), id) == Some(i),
    ensures
        first_ctx(ms, id) == Some(i),
    decreases ms.len(),
{
    if ms.len() > i + 1 {
        assert(ms.drop_last().take(i + 1) =~= ms.take(i + 1));
        lemma_first_ctx_prefix(ms.drop_last(), id, i);
    } else {
        assert(ms.take(i + 1) =~= ms);
    }
}

/// The reply's candidates (see `reply_candidates`).
fn reply_candidates_vec(cs: &Vec<LlmCandidate>) -> (r: Vec<CandidateMatter>)
    ensures
        candidate_views(r@) == reply_candidates(cs@),
{
    let mut out: Vec<CandidateMatter> = Vec::new();
    let mut i: usize = 0;
    assert(cs@.take(0) =~= Seq::<LlmCandidate>::empty());
    while i < cs.len()
        invariant
            i <= cs@.len(),
            candidate_views(out@) == reply_candidates(cs@.take(i as int)),
        decreases cs.len() - i,
    {
        assert(cs@.take(i + 1).drop_last() =~= cs@.take(i as int));
        assert(cs@.take(i + 1).last() == cs@[i as int]);
        let c = &cs[i];
        match (&c.id, &c.title) {
            (Some(id), Some(title)) => {
                let conf: u32 = match c.confidence {
                    Some(x) => x,
                    None => 60,
                };
                let x = CandidateMatter { id: id.clone(), title: title.clone(), confidence: conf };
                let ghost before = candidate_views(out@);
                let ghost xv = x@;
                out.push(x);
                assert(candidate_views(out@) =~= before.push(xv));
            },
            _ => {},
        }
        i = i + 1;
    }
    assert(cs@.take(cs@.len() as int) =~= cs@);
    out
}

/// The reply's todos (see `reply_todos`).
fn reply_todos_vec(ts: &Vec<LlmTodo>) -> (r: Vec<ExtractedTodo>)
    ensures
        draft_views(r@) == reply_todos(ts@),
{
    let mut out: Vec<ExtractedTodo> = Vec::new();
    let mut i: usize = 0;
    assert(ts@.take(0) =~= Seq::<LlmTodo>::empty());
    while i < ts.len()
        invariant
            i <= ts@.len(),
            draft_views(out@) == reply_todos(ts@.take(i as int)),
        decreases ts.len() - i,
    {
        assert(ts@.take(i + 1).drop_last() =~= ts@.take(i as int));
        assert(ts@.take(i + 1).last() == ts@[i as int]);
        let t = &ts[i];
        match &t.content {
            Some(content) => {
                let x = ExtractedTodo { content: content.clone(), due_time: normalize_time(copy_opt(&t.due_time)) };
                let ghost before = draft_views(out@);
                let ghost xv = x@;
                out.push(x);
                assert(draft_views(out@) =~= before.push(xv));
            },
            None => {},
        }
        i = i + 1;
    }
    assert(ts@.take(ts@.len() as int) =~= ts@);
    out
}

/// The reply's updates (see `reply_updates`).
fn reply_updates_vec(us: &Vec<LlmUpdate>) -> (r: Vec<TodoUpdateSuggestion>)
    ensures
        update_views(r@) == reply_updates(us@),
{
    let reason: [char; 8] = ['根', '据', '最', '新', '日', '志', '更', '新'];
    assert(reason@ == default_update_reason());
    let mut out: Vec<TodoUpdateSuggestion> = Vec::new();
    let mut i: usize = 0;
    assert(us@.take(0) =~= Seq::<LlmUpdate>::empty());
    while i < us.len()
        invariant
            i <= us@.len(),
            reason@ == default_update_reason(),
            update_views(out@) == reply_updates(us@.take(i as int)),
        decreases us.len() - i,
    {
        assert(us@.take(i + 1).drop_last() =~= us@.take(i as int));
        assert(us@.take(i + 1).last() == us@[i as int]);
        let u = &us[i];
        match (&u.todo_id, &u.action) {
            (Some(tid), Some(act)) => {
                let empty: [char; 0] = [];
                assert(empty@ =~= Seq::<char>::empty());
                let x = TodoUpdateSuggestion {
                    todo_id: tid.clone(),
                    original_content: string_or(&u.original_content, &empty),
                    action: act.clone(),
                    reason: string_or(&u.reason, &reason),
                    updated_content: copy_opt(&u.updated_content),
                    updated_due_time: normalize_time(copy_opt(&u.updated_due_time)),
                };
                let ghost before = update_views(out@);
                let ghost xv = x@;
                out.push(x);
                assert(update_views(out@) =~= before.push(xv));
            },
            _ => {},
        }
        i = i + 1;
    }
    assert(us@.take(us@.len() as int) =~= us@);
    out
}

/// The chat name read off the screenshot (see `reply_target`).
fn reply_target_exec(t: &Option<String>) -> (r: Option<String>)
    ensures
        opt_seq(r) == reply_target(*t),
{
    match t {
        Some(x) => {
            let v = to_chars(x.as_str());
            let tv = trim_vec(v.as_slice());
            let null: [char; 4] = ['n', 'u', 'l', 'l'];
            assert(null@ == null_word());
            if tv.len() > 0 && !chars_are(tv.as_slice(), &null) {
                Some(from_chars(tv.as_slice()))
            } else {
                None
            }
        },
        None => None,
    }
}

/// The routing decision the model's reply gives (see `reply_view`).
pub fn assemble_reply(
    reply: &LlmReply,
    active_matters: &[MatterContextWithTodos],
    snippet: &str,
    source_app: &str,
    source_window: &str,
) -> (r: AIParseResult)
    ensures
        r@ == reply_view(*reply, active_matters@, snippet@, source_app@, source_window@),
{
    let create: [char; 10] = ['C', 'R', 'E', 'A', 'T', 'E', '_', 'N', 'E', 'W'];
    assert(create@ == create_new());
    let action = string_or(&reply.action, &create);
    let confidence: u32 = match reply.confidence {
        Some(c) => c,
        None => 80,
    };
    let matched_title = match &reply.matched_matter_id {
        Some(id) => match first_ctx_exec(active_matters, id.as_str()) {
            Some(i) => Some(active_matters[i].matter.title.clone()),
            None => None,
        },
        None => None,
    };
    let suggested = match &reply.suggested_new_matter {
        Some(sg) => {
            let unnamed: [char; 5] = ['未', '命', '名', '事', '项'];
            assert(unnamed@ == unnamed_matter());
            let empty: [char; 0] = [];
            assert(empty@ =~= Seq::<char>::empty());
            Some(
                SuggestedMatter {
                    title: string_or(&sg.title, &unnamed),
                    category: string_or(&sg.category, &lit_work()),
                    priority: string_or(&sg.priority, &lit_medium()),
                    summary: string_or(&sg.summary, &empty),
                    related_contacts: copy_opt(&sg.related_contacts),
                },
            )
        },
        None => None,
    };
    AIParseResult {
        action,
        confidence,
        matched_matter_id: copy_opt(&reply.matched_matter_id),
        matched_matter_title: matched_title,
        candidate_matters: reply_candidates_vec(&reply.candidate_matters),
        suggested_new_matter: suggested,
        extracted_facts_delta: None,
        extracted_todos: reply_todos_vec(&reply.extracted_todos),
        todo_updates: reply_updates_vec(&reply.todo_updates),
        raw_snippet: String::from_str(snippet),
        source_app: String::from_str(source_app),
        source_window: String::from_str(source_window),
        log_id: None,
        detected_chat_target: reply_target_exec(&reply.detected_chat_target),
    }
}


/// `s` without the copies of `c` at its end.
pub open spec fn strip_trailing(s: Seq<char>, c: char) -> Seq<char>
    decreases s.len(),
{
    if s.len() > 0 && s.last() == c {
        strip_trailing(s.drop_last(), c)
    } else {
        s
    }
}

/// `"/chat/completions"`
pub open spec fn completions_path() -> Seq<char> {
    seq!['/', 'c', 'h', 'a', 't', '/', 'c', 'o', 'm', 'p', 'l', 'e', 't', 'i', 'o', 'n', 's']
}

/// The chat-completions endpoint of a base address: without trailing
/// slashes, then with `"/chat/completions"` unless it ends so already.
pub open spec fn completions_url(base: Seq<char>) -> Seq<char> {
    let u = strip_trailing(base, '/');
    if ends_with(u, completions_path()) {
        u
    } else {
        u + completions_path()
    }
}

/// Whether a routing request is sent again without its window screenshot:
/// exactly when the first one carried a screenshot and was not answered
/// with success (some models take no pictures).
pub fn retry_without_image(had_image: bool, succeeded: bool) -> (r: bool)
    ensures
        r == (had_image && !succeeded),
{
    had_image && !succeeded
}

/// The chat-completions endpoint of `api_base_url` (see `completions_url`).
pub fn chat_completions_url(api_base_url: &str) -> (r: String)
    ensures
        r@ == completions_url(api_base_url@),
{
    let v = to_chars(api_base_url);
    let mut n: usize = v.len();
    assert(v@.take(n as int) =~= v@);
    while n > 0 && v[n - 1] == '/'
        invariant
            n <= v@.len(),
            strip_trailing(v@.take(n as int), '/') == strip_trailing(v@, '/'),
        decreases n,
    {
        assert(v@.take(n as int).drop_last() =~= v@.take(n - 1));
        n = n - 1;
    }
    let mut u = sub_vec(v.as_slice(), 0, n);
    assert(u@ =~= v@.take(n as int));
    let path: [char; 17] = ['/', 'c', 'h', 'a', 't', '/', 'c', 'o', 'm', 'p', 'l', 'e', 't', 'i', 'o', 'n', 's'];
    assert(path@ == completions_path());
    if !ends_with_exec(u.as_slice(), &path) {
        append_slice(&mut u, &path);
    }
    from_chars(u.as_slice())
}

/// `s` without the repeats of `p` at its start.
pub open spec fn strip_prefix_all(s: Seq<char>, p: Seq<char>) -> Seq<char>
    decreases s.len(),
{
    if p.len() > 0 && s.len() > 0 && starts_with(s, p) {
        strip_prefix_all(s.skip(p.len() as int), p)
    } else {
        s
    }
}

/// `s` without the repeats of `p` at its end.
pub open spec fn strip_suffix_all(s: Seq<char>, p: Seq<char>) -> Seq<char>
    decreases s.len(),
{
    if p.len() > 0 && s.len() > 0 && ends_with(s, p) {
        strip_suffix_all(s.take(s.len() - p.len()), p)
    } else {
        s
    }
}

/// `"```"`
pub open spec fn fence() -> Seq<char> {
    seq!['`', '`', '`']
}

/// `"```json"`
pub open spec fn json_fence() -> Seq<char> {
    seq!['`', '`', '`', 'j', 's', 'o', 'n']
}

/// A reply unwrapped from its code fences: trimmed, the leading fences
/// (```` ```json ```` first, then ```` ``` ````) and the trailing ones
/// removed, trimmed again.
pub open spec fn unfence(content: Seq<char>) -> Seq<char> {
    trim(strip_suffix_all(strip_prefix_all(strip_prefix_all(trim(content), json_fence()), fence()), fence()))
}

/// Removes the repeats of `p` at the start of `s`.
pub fn strip_prefix_all_vec(s: &[char], p: &[char]) -> (r: Vec<char>)
    ensures
        r@ == strip_prefix_all(s@, p@),
{
    let mut a: usize = 0;
    assert(s@.skip(0) =~= s@);
    loop
        invariant
            a <= s@.len(),
            strip_prefix_all(s@.skip(a as int), p@) == strip_prefix_all(s@, p@),
        ensures
            a <= s@.len(),
            strip_prefix_all(s@, p@) == s@.skip(a as int),
        decreases s.len() - a,
    {
        let m = p.len() > 0 && a < s.len() && crate::text::matches_at_exec(s, p, a);
        assert(m == (p@.len() > 0 && s@.skip(a as int).len() > 0 && starts_with(s@.skip(a as int), p@))) by {
            if p@.len() > 0 && a < s@.len() {
                if crate::text::matches_at(s@, p@, a as int) {
                    assert(s@.skip(a as int).subrange(0, p@.len() as int) =~= s@.subrange(a as int, a + p@.len()));
                }
                if starts_with(s@.skip(a as int), p@) {
                    assert(s@.skip(a as int).subrange(0, p@.len() as int) =~= s@.subrange(a as int, a + p@.len()));
                }
            }
        }
        if !m {
            assert(strip_prefix_all(s@.skip(a as int), p@) == s@.skip(a as int));
            break;
        }
        assert(s@.skip(a as int).skip(p@.len() as int) =~= s@.skip(a + p@.len()));
        a = a + p.len();
    }
    let r = sub_vec(s, a, s.len());
    assert(r@ =~= s@.skip(a as int));
    r
}



/// Removes the repeats of `p` at the end of `s`.
pub fn strip_suffix_all_vec(s: &[char], p: &[char]) -> (r: Vec<char>)
    ensures
        r@ == strip_suffix_all(s@, p@),
{
    let mut b: usize = s.len();
    assert(s@.take(b as int) =~= s@);
    loop
        invariant
            b <= s@.len(),
            strip_suffix_all(s@.take(b as int), p@) == strip_suffix_all(s@, p@),
        ensures
            b <= s@.len(),
            strip_suffix_all(s@, p@) == s@.take(b as int),
        decreases b,
    {
        let m = p.len() > 0 && b > 0 && p.len() <= b && crate::text::matches_at_exec(s, p, b - p.len());
        assert(m == (p@.len() > 0 && s@.take(b as int).len() > 0 && ends_with(s@.take(b as int), p@))) by {
            if p@.len() > 0 && b > 0 && p@.len() <= b {
                assert(s@.take(b as int).subrange(b - p@.len(), b as int) =~= s@.subrange(b - p@.len(), b as int));
            }
        }
        if !m {
            assert(strip_suffix_all(s@.take(b as int), p@) == s@.take(b as int));
            break;
        }
        assert(s@.take(b as int).take(b - p@.len()) =~= s@.take(b - p@.len()));
        b = b - p.len();
    }
    sub_vec(s, 0, b)
}

/// Unwraps a fenced reply (see `unfence`).
pub fn strip_code_fences(content: &str) -> (r: String)
    ensures
        r@ == unfence(content@),
{
    let v = to_chars(content);
    let t = trim_vec(v.as_slice());
    let jf: [char; 7] = ['`', '`', '`', 'j', 's', 'o', 'n'];
    let f: [char; 3] = ['`', '`', '`'];
    assert(jf@ == json_fence());
    assert(f@ == fence());
    let a = strip_prefix_all_vec(t.as_slice(), &jf);
    let b = strip_prefix_all_vec(a.as_slice(), &f);
    let c = strip_suffix_all_vec(b.as_slice(), &f);
    let d = trim_vec(c.as_slice());
    from_chars(d.as_slice())
}

} // verus!
