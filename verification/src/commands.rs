//! The commands behind the user interface that change several tables at
//! once: filing a captured snippet (under an existing or a new matter),
//! applying the todo updates a decision suggests, and undoing one.
//!
//! Each command takes the time and the fresh identifiers it uses: the
//! caller reads the clock and draws the identifiers.
use vstd::prelude::*;
use vstd::string::StringExecFns;
use crate::models::{
    Matter, LogItem, TodoItem, TodoRowView, todo_views, ExtractedTodo, SuggestedMatter, SuggestionView,
    TodoUpdateSuggestion, UpdateView, update_views, copy_opt,
};
use crate::store::{
    Database, valid_matter, matter_pos, row_limit, log_filed, str_opt, vupdated, vtouch,
    status_set, todo_edited, lemma_vpos, log_insertable, after_touch, same_db, views_updated, touch_todo_matter,
    stored_view, todo_insertable,
};
use crate::text::{opt_seq, from_chars};
use crate::lits::{active, work, medium, lit_active, lit_work, lit_medium, str_is};
use crate::routing::close_word;

use crate::ids::{id_from_random, uuid_v4_text};

verus! {

/// `"UPDATE"`
pub open spec fn update_word() -> Seq<char> {
    seq!['U', 'P', 'D', 'A', 'T', 'E']
}

/// `o`'s text, or `d`.
pub open spec fn text_or(o: Option<Seq<char>>, d: Seq<char>) -> Seq<char> {
    match o {
        Some(t) => t,
        None => d,
    }
}

/// The todo rows and matters after applying the update suggestions in
/// order at `now`: `"CLOSE"` marks the todo done; `"UPDATE"` gives it the
/// new text (or keeps the old) and due time, and marks its matter as
/// changed; other actions do nothing.
pub open spec fn applied(vs: Seq<TodoRowView>, ms: Seq<Matter>, us: Seq<UpdateView>, now: String) -> (
    Seq<TodoRowView>,
    Seq<Matter>,
)
    decreases us.len(),
{
    if us.len() == 0 {
        (vs, ms)
    } else {
        let prev = applied(vs, ms, us.drop_last(), now);
        let u = us.last();
        if u.action == close_word() {
            (vupdated(prev.0, u.todo_id, status_set(true, now@)), prev.1)
        } else if u.action == update_word() {
            (
                vupdated(
                    prev.0,
                    u.todo_id,
                    todo_edited(text_or(u.updated_content, u.original_content), u.updated_due_time, None),
                ),
                vtouch(prev.1, prev.0, u.todo_id, now),
            )
        } else {
            prev
        }
    }
}

/// Whether `b` is `a` with the update suggestions applied at `now`.
pub open spec fn updates_applied(a: Database, b: Database, us: Seq<UpdateView>, now: String) -> bool {
    &&& (todo_views(b.todos()), b.matters()) == applied(todo_views(a.todos()), a.matters(), us, now)
    &&& b.logs() == a.logs()
    &&& b.settings() == a.settings()
}

/// Applies the update suggestions in order at `now` (see `applied`).
pub fn apply_todo_updates(db: &mut Database, updates: &Vec<TodoUpdateSuggestion>, now: &String)
    requires
        old(db).wf(),
    ensures
        final(db).wf(),
        updates_applied(*old(db), *final(db), update_views(updates@), *now),
{
    let ghost v0 = todo_views(db.todos());
    let ghost m0 = db.matters();
    let ghost uv = update_views(updates@);
    let ghost l0 = db.logs();
    let ghost s0 = db.settings();
    let close: [char; 5] = ['C', 'L', 'O', 'S', 'E'];
    let upd: [char; 6] = ['U', 'P', 'D', 'A', 'T', 'E'];
    assert(close@ == close_word());
    assert(upd@ == update_word());
    let mut k: usize = 0;
    assert(uv.take(0) =~= Seq::<UpdateView>::empty());
    while k < updates.len()
        invariant
            k <= updates@.len(),
            db.wf(),
            uv == update_views(updates@),
            close@ == close_word(),
            upd@ == update_word(),
            (todo_views(db.todos()), db.matters()) == applied(v0, m0, uv.take(k as int), *now),
            db.logs() == l0,
            db.settings() == s0,
        decreases updates.len() - k,
    {
        let u = &updates[k];
        assert(uv.take(k + 1).drop_last() =~= uv.take(k as int));
        assert(uv.take(k + 1).last() == u@);
        proof {
            lemma_vpos(db.todos(), u.todo_id@);
        }
        if str_is(u.action.as_str(), &close) {
            let _ = db.toggle_todo_status(u.todo_id.as_str(), true, now);
        } else if str_is(u.action.as_str(), &upd) {
            let content = match &u.updated_content {
                Some(c) => c.clone(),
                None => u.original_content.clone(),
            };
            let _ = db.update_todo(u.todo_id.as_str(), content.as_str(), copy_opt(&u.updated_due_time), None, now);
        }
        k = k + 1;
    }
    assert(uv.take(updates@.len() as int) =~= uv);
}

/// The identifiers a command may hand out: for a new matter, a new log, and
/// each new todo.
pub struct FreshIds {
    pub matter_id: String,
    pub log_id: String,
    pub todo_ids: Vec<String>,
}

impl FreshIds {
    /// The identifiers made of random bytes: one group of 16 for the
    /// matter, one for the log, and one for each todo (see `id_from_random`).
    pub fn from_random(matter: [u8; 16], log: [u8; 16], todos: &[[u8; 16]]) -> (r: FreshIds)
        ensures
            r.matter_id@ == uuid_v4_text(matter@),
            r.log_id@ == uuid_v4_text(log@),
            r.todo_ids@.len() == todos@.len(),
            forall|i: int| 0 <= i < todos@.len() ==> (#[trigger] r.todo_ids@[i])@ == uuid_v4_text(todos@[i]@),
    {
        let mut todo_ids: Vec<String> = Vec::new();
        let mut k: usize = 0;
        while k < todos.len()
            invariant
                k <= todos@.len(),
                todo_ids@.len() == k,
                forall|i: int| 0 <= i < k ==> (#[trigger] todo_ids@[i])@ == uuid_v4_text(todos@[i]@),
            decreases todos.len() - k,
        {
            todo_ids.push(id_from_random(todos[k]));
            k = k + 1;
        }
        FreshIds { matter_id: id_from_random(matter), log_id: id_from_random(log), todo_ids }
    }
}

/// Whether `m` is the new matter made from suggestion `s` with facts
/// `facts`, identifier `id`, at `now`: active, importance 3, not pinned.
pub open spec fn new_matter_ok(m: Matter, s: SuggestionView, facts: Option<Seq<char>>, id: Seq<char>, now: Seq<char>) -> bool {
    &&& m.id@ == id
    &&& m.title@ == s.title
    &&& m.overview@ == s.summary
    &&& m.fact_summary@ == text_or(facts, Seq::empty())
    &&& m.category@ == s.category
    &&& m.priority@ == s.priority
    &&& m.importance == 3
    &&& m.status@ == active()
    &&& !m.is_pinned
    &&& m.created_at@ == now
    &&& m.updated_at@ == now
    &&& m.pending_todos_count == 0
    &&& m.total_todos_count == 0
    &&& m.latest_log_snippet is None
    &&& m.latest_log_time is None
    &&& m.latest_todo_content is None
    &&& m.latest_todo_due_time is None
    &&& m.latest_todo_status is None
    &&& m.related_contacts@ == text_or(s.related_contacts, Seq::empty())
}

/// The new matter made from suggestion `s` (see `new_matter_ok`).
pub fn build_new_matter(s: &SuggestedMatter, facts: &Option<String>, id: &String, now: &String) -> (m: Matter)
    ensures
        new_matter_ok(m, s@, opt_seq(*facts), id@, now@),
{
    let empty: [char; 0] = [];
    assert(empty@ =~= Seq::<char>::empty());
    Matter {
        id: id.clone(),
        title: s.title.clone(),
        overview: s.summary.clone(),
        fact_summary: match facts {
            Some(f) => f.clone(),
            None => from_chars(&empty),
        },
        category: s.category.clone(),
        priority: s.priority.clone(),
        importance: 3,
        status: from_chars(&lit_active()),
        is_pinned: false,
        created_at: now.clone(),
        updated_at: now.clone(),
        pending_todos_count: 0,
        total_todos_count: 0,
        latest_log_snippet: None,
        latest_log_time: None,
        latest_todo_content: None,
        latest_todo_due_time: None,
        latest_todo_status: None,
        related_contacts: match &s.related_contacts {
            Some(c) => c.clone(),
            None => from_chars(&empty),
        },
    }
}

/// Whether the store takes matter `m`.
pub open spec fn matter_takes(a: Database, m: Matter) -> bool {
    matter_pos(a.matters(), m.id@) is None && valid_matter(m) && a.matters().len() + 1 < row_limit()
}

/// Whether `b` is `a` with matter `m` added.
pub open spec fn only_matter_added(a: Database, b: Database, m: Matter) -> bool {
    &&& b.matters() == a.matters().push(m)
    &&& b.logs() == a.logs()
    &&& b.todos() == a.todos()
    &&& b.settings() == a.settings()
}

/// Whether, from `a`, filing log `lid` under matter `mid` with the facts and
/// the drafts at `now` and then applying the updates led to `b`, `ok`
/// telling whether it went through.
pub open spec fn filed_then_updated(
    a: Database,
    b: Database,
    lid: Seq<char>,
    mid: Seq<char>,
    facts: Option<Seq<char>>,
    drafts: Seq<ExtractedTodo>,
    us: Seq<UpdateView>,
    now: String,
    ids: Seq<String>,
    ok: bool,
) -> bool {
    exists|d: Database|
        #[trigger] log_filed(a, d, lid, mid, facts, drafts, now, ids, ok) && (ok ==> updates_applied(d, b, us, now)) && (!ok ==> same_db(b, d))
}

/// `"EXISTING"`
pub open spec fn existing_word() -> Seq<char> {
    seq!['E', 'X', 'I', 'S', 'T', 'I', 'N', 'G']
}

/// `"CREATE_NEW"`
pub open spec fn create_new_word() -> Seq<char> {
    seq!['C', 'R', 'E', 'A', 'T', 'E', '_', 'N', 'E', 'W']
}

/// `"DISCARD"`
pub open spec fn discard_word() -> Seq<char> {
    seq!['D', 'I', 'S', 'C', 'A', 'R', 'D']
}


/// A literal as a `String`.
fn text_of(v: &[char]) -> (r: String)
    ensures
        r@ == v@,
{
    from_chars(v)
}

/// `"未指定目标事项ID"`
pub open spec fn no_target_message() -> Seq<char> {
    seq!['未', '指', '定', '目', '标', '事', '项', 'I', 'D']
}

/// `"未提供新建事项信息"`
pub open spec fn no_new_matter_message() -> Seq<char> {
    seq!['未', '提', '供', '新', '建', '事', '项', '信', '息']
}

/// `"未知的归集选项"`
pub open spec fn bad_categorize_message() -> Seq<char> {
    seq!['未', '知', '的', '归', '集', '选', '项']
}

/// `"未知的决策选项"`
pub open spec fn bad_decision_message() -> Seq<char> {
    seq!['未', '知', '的', '决', '策', '选', '项']
}

/// A decision on how to file a log of the inbox.
pub struct CategorizePayload {
    pub log_id: String,
    /// `"EXISTING"` or `"CREATE_NEW"`.
    pub choice: String,
    pub matter_id: Option<String>,
    pub new_matter: Option<SuggestedMatter>,
    pub extracted_facts_delta: Option<String>,
    pub new_todos: Vec<ExtractedTodo>,
    pub todo_updates: Vec<TodoUpdateSuggestion>,
}

/// The error text of a result.
pub open spec fn err_text(r: Result<(), String>) -> Seq<char> {
    match r {
        Err(e) => e@,
        Ok(_) => Seq::empty(),
    }
}

/// The facts delta as a string slice.
fn facts_ref(f: &Option<String>) -> (r: Option<&str>)
    ensures
        str_opt(r) == opt_seq(*f),
{
    match f {
        Some(x) => Some(x.as_str()),
        None => None,
    }
}

/// Files log `lid` under the matter `target` and applies the updates; the
/// shared tail of the filing commands.
fn file_and_update(
    db: &mut Database,
    lid: &str,
    target: &str,
    facts: &Option<String>,
    drafts: &Vec<ExtractedTodo>,
    updates: &Vec<TodoUpdateSuggestion>,
    now: &String,
    ids: &Vec<String>,
) -> (r: Result<(), String>)
    requires
        old(db).wf(),
        ids@.len() == drafts@.len(),
    ensures
        final(db).wf(),
        filed_then_updated(*old(db), *final(db), lid@, target@, opt_seq(*facts), drafts@, update_views(updates@), *now, ids@, r is Ok),
{
    let ghost d0 = *db;
    let fr = facts_ref(facts);
    match db.categorize_log(lid, target, fr, drafts.as_slice(), now, ids) {
        Err(e) => {
            assert(log_filed(d0, *db, lid@, target@, opt_seq(*facts), drafts@, *now, ids@, false));
            return Err(e.message());
        },
        Ok(()) => {},
    }
    let ghost d1 = *db;
    assert(log_filed(d0, d1, lid@, target@, opt_seq(*facts), drafts@, *now, ids@, true));
    apply_todo_updates(db, updates, now);
    assert(updates_applied(d1, *db, update_views(updates@), *now));
    Ok(())
}

/// Whether `b` and `r` are what filing a log of the inbox as `p` asks, from
/// `a` at `now` with the fresh identifiers `fresh`: under the matter named
/// (`"EXISTING"`), or under a new matter made from the suggestion
/// (`"CREATE_NEW"`), then applying the todo updates; each missing part and
/// any other choice is refused with its message and nothing changed.
pub open spec fn categorized(a: Database, b: Database, p: CategorizePayload, now: String, fresh: FreshIds, r: Result<(), String>) -> bool {
    &&& p.choice@ == existing_word() ==> match p.matter_id {
        None => r is Err && err_text(r) == no_target_message() && same_db(b, a),
        Some(mid) => filed_then_updated(a, b, p.log_id@, mid@, opt_seq(p.extracted_facts_delta), p.new_todos@, update_views(p.todo_updates@), now, fresh.todo_ids@, r is Ok),
    }
    &&& p.choice@ == create_new_word() ==> match p.new_matter {
        None => r is Err && err_text(r) == no_new_matter_message() && same_db(b, a),
        Some(sg) => exists|m: Matter|
            #[trigger] new_matter_ok(m, sg@, opt_seq(p.extracted_facts_delta), fresh.matter_id@, now@) && if matter_takes(a, m) {
                exists|d0: Database|
                    #[trigger] only_matter_added(a, d0, m) && filed_then_updated(d0, b, p.log_id@, m.id@, opt_seq(p.extracted_facts_delta), p.new_todos@, update_views(p.todo_updates@), now, fresh.todo_ids@, r is Ok)
            } else {
                r is Err && same_db(b, a)
            },
    }
    &&& p.choice@ != existing_word() && p.choice@ != create_new_word() ==> r is Err && err_text(r) == bad_categorize_message() && same_db(b, a)
}

/// Files a log of the inbox at `now` with the fresh identifiers given (see
/// `categorized`).
pub fn categorize_inbox_log(db: &mut Database, payload: &CategorizePayload, now: &String, fresh: &FreshIds) -> (r: Result<(), String>)
    requires
        old(db).wf(),
        fresh.todo_ids@.len() == payload.new_todos@.len(),
    ensures
        final(db).wf(),
        categorized(*old(db), *final(db), *payload, *now, *fresh, r),
{
    let ex: [char; 8] = ['E', 'X', 'I', 'S', 'T', 'I', 'N', 'G'];
    let cn: [char; 10] = ['C', 'R', 'E', 'A', 'T', 'E', '_', 'N', 'E', 'W'];
    assert(ex@ == existing_word());
    assert(cn@ == create_new_word());
    if str_is(payload.choice.as_str(), &ex) {
        match &payload.matter_id {
            Some(mid) => {
                return file_and_update(db, payload.log_id.as_str(), mid.as_str(), &payload.extracted_facts_delta, &payload.new_todos, &payload.todo_updates, now, &fresh.todo_ids);
            },
            None => {
                let m: [char; 9] = ['未', '指', '定', '目', '标', '事', '项', 'I', 'D'];
                return Err(text_of(&m));
            },
        }
    } else if str_is(payload.choice.as_str(), &cn) {
        match &payload.new_matter {
            Some(sg) => {
                let m = build_new_matter(sg, &payload.extracted_facts_delta, &fresh.matter_id, now);
                let ghost before = *db;
                match db.create_matter(&m) {
                    Err(e) => {
                        assert(!matter_takes(before, m));
                        assert(same_db(*db, before));
                        let r: Result<(), String> = Err(e.message());
                        assert(new_matter_ok(m, sg@, opt_seq(payload.extracted_facts_delta), fresh.matter_id@, now@));
                        return r;
                    },
                    Ok(()) => {},
                }
                let ghost d0 = *db;
                assert(only_matter_added(before, d0, m));
                let r = file_and_update(db, payload.log_id.as_str(), m.id.as_str(), &payload.extracted_facts_delta, &payload.new_todos, &payload.todo_updates, now, &fresh.todo_ids);
                assert(new_matter_ok(m, sg@, opt_seq(payload.extracted_facts_delta), fresh.matter_id@, now@));
                assert(matter_takes(before, m));
                assert(only_matter_added(before, d0, m) && filed_then_updated(d0, *db, payload.log_id@, m.id@, opt_seq(payload.extracted_facts_delta), payload.new_todos@, update_views(payload.todo_updates@), *now, fresh.todo_ids@, r is Ok));
                return r;
            },
            None => {
                let m: [char; 9] = ['未', '提', '供', '新', '建', '事', '项', '信', '息'];
                return Err(text_of(&m));
            },
        }
    } else {
        let m: [char; 7] = ['未', '知', '的', '归', '集', '选', '项'];
        return Err(text_of(&m));
    }
}


/// `"新捕获事项"`
pub open spec fn new_captured_title() -> Seq<char> {
    seq!['新', '捕', '获', '事', '项']
}

/// A decision on a captured snippet.
pub struct ConfirmRoutePayload {
    /// `"EXISTING"`, `"CREATE_NEW"` or `"DISCARD"`.
    pub choice: String,
    pub matter_id: Option<String>,
    pub new_matter: Option<SuggestedMatter>,
    pub raw_snippet: String,
    pub source_app: String,
    pub source_window: String,
    pub extracted_facts_delta: Option<String>,
    pub extracted_todos: Vec<ExtractedTodo>,
    pub todo_updates: Vec<TodoUpdateSuggestion>,
    pub log_id: Option<String>,
}

/// The suggested matter of a decision, or a default one titled
/// `"新捕获事项"`, work, medium priority.
pub open spec fn suggestion_or_default(o: Option<SuggestedMatter>) -> SuggestionView {
    match o {
        Some(s) => s@,
        None => SuggestionView {
            title: new_captured_title(),
            category: work(),
            priority: medium(),
            summary: Seq::empty(),
            related_contacts: None,
        },
    }
}

/// Whether `b` is `a` with log `log` added at `now`.
pub open spec fn log_added(a: Database, b: Database, log: LogItem, now: String) -> bool {
    &&& b.logs() == a.logs().push(log)
    &&& b.matters() == match log.matter_id {
        Some(mid) => after_touch(a.matters(), mid@, now),
        None => a.matters(),
    }
    &&& b.todos() == a.todos()
    &&& b.settings() == a.settings()
}

/// The log a decision adds when it names none: the snippet, under the
/// target matter, at `now`.
pub open spec fn decision_log(p: ConfirmRoutePayload, target: String, id: String, now: String) -> LogItem {
    LogItem {
        id: id,
        matter_id: Some(target),
        raw_content: p.raw_snippet,
        source_app: p.source_app,
        source_window_title: p.source_window,
        created_at: now,
    }
}

/// Whether, from `a`, the decision's log (the one it names, or a new one)
/// was filed under `target` and the updates applied, leading to `b`.
pub open spec fn decision_filed(a: Database, b: Database, p: ConfirmRoutePayload, target: String, now: String, fresh: FreshIds, ok: bool) -> bool {
    match p.log_id {
        Some(l) => filed_then_updated(a, b, l@, target@, opt_seq(p.extracted_facts_delta), p.extracted_todos@, update_views(p.todo_updates@), now, fresh.todo_ids@, ok),
        None => {
            let log = decision_log(p, target, fresh.log_id, now);
            if log_insertable(a.matters(), a.logs(), log) {
                exists|d: Database|
                    #[trigger] log_added(a, d, log, now) && filed_then_updated(d, b, fresh.log_id@, target@, opt_seq(p.extracted_facts_delta), p.extracted_todos@, update_views(p.todo_updates@), now, fresh.todo_ids@, ok)
            } else {
                !ok && same_db(b, a)
            }
        },
    }
}

/// Adds the decision's log when it names none, then files and updates.
fn log_file_and_update(db: &mut Database, payload: &ConfirmRoutePayload, target: &String, now: &String, fresh: &FreshIds) -> (r: Result<(), String>)
    requires
        old(db).wf(),
        fresh.todo_ids@.len() == payload.extracted_todos@.len(),
    ensures
        final(db).wf(),
        decision_filed(*old(db), *final(db), *payload, *target, *now, *fresh, r is Ok),
{
    match &payload.log_id {
        Some(l) => {
            file_and_update(db, l.as_str(), target.as_str(), &payload.extracted_facts_delta, &payload.extracted_todos, &payload.todo_updates, now, &fresh.todo_ids)
        },
        None => {
            let log = LogItem {
                id: fresh.log_id.clone(),
                matter_id: Some(target.clone()),
                raw_content: payload.raw_snippet.clone(),
                source_app: payload.source_app.clone(),
                source_window_title: payload.source_window.clone(),
                created_at: now.clone(),
            };
            assert(log == decision_log(*payload, *target, fresh.log_id, *now));
            let ghost before = *db;
            match db.create_log(&log, now) {
                Err(e) => {
                    return Err(e.message());
                },
                Ok(()) => {},
            }
            let ghost d = *db;
            assert(log_added(before, d, log, *now));
            let r = file_and_update(db, fresh.log_id.as_str(), target.as_str(), &payload.extracted_facts_delta, &payload.extracted_todos, &payload.todo_updates, now, &fresh.todo_ids);
            assert(log_added(before, d, log, *now) && filed_then_updated(d, *db, fresh.log_id@, target@, opt_seq(payload.extracted_facts_delta), payload.extracted_todos@, update_views(payload.todo_updates@), *now, fresh.todo_ids@, r is Ok));
            r
        },
    }
}

/// Whether `b` and `r` are what carrying out decision `p` asks, from `a`
/// at `now` with the fresh identifiers `fresh`: nothing for `"DISCARD"`;
/// otherwise the target is the matter named (`"EXISTING"`) or a new matter
/// from the suggestion or a default one (`"CREATE_NEW"`); the snippet's log
/// (the one named, or a new one under the target) is filed under it and the
/// todo updates are applied. A missing matter and any other choice are
/// refused with their message and nothing changed.
pub open spec fn decided(a: Database, b: Database, p: ConfirmRoutePayload, now: String, fresh: FreshIds, r: Result<(), String>) -> bool {
    &&& p.choice@ == discard_word() ==> r is Ok && same_db(b, a)
    &&& p.choice@ == existing_word() ==> match p.matter_id {
        None => r is Err && err_text(r) == no_target_message() && same_db(b, a),
        Some(mid) => decision_filed(a, b, p, mid, now, fresh, r is Ok),
    }
    &&& p.choice@ == create_new_word() ==> exists|m: Matter|
        #[trigger] new_matter_ok(m, suggestion_or_default(p.new_matter), opt_seq(p.extracted_facts_delta), fresh.matter_id@, now@) && if matter_takes(a, m) {
            exists|d0: Database|
                #[trigger] only_matter_added(a, d0, m) && decision_filed(d0, b, p, m.id, now, fresh, r is Ok)
        } else {
            r is Err && same_db(b, a)
        }
    &&& p.choice@ != existing_word() && p.choice@ != create_new_word() && p.choice@ != discard_word()
        ==> r is Err && err_text(r) == bad_decision_message() && same_db(b, a)
}

/// Carries out a decision on a captured snippet at `now` with the fresh
/// identifiers given (see `decided`).
pub fn confirm_route_decision(db: &mut Database, payload: &ConfirmRoutePayload, now: &String, fresh: &FreshIds) -> (r: Result<(), String>)
    requires
        old(db).wf(),
        fresh.todo_ids@.len() == payload.extracted_todos@.len(),
    ensures
        final(db).wf(),
        decided(*old(db), *final(db), *payload, *now, *fresh, r),
{
    let ex: [char; 8] = ['E', 'X', 'I', 'S', 'T', 'I', 'N', 'G'];
    let cn: [char; 10] = ['C', 'R', 'E', 'A', 'T', 'E', '_', 'N', 'E', 'W'];
    let dc: [char; 7] = ['D', 'I', 'S', 'C', 'A', 'R', 'D'];
    assert(ex@ == existing_word());
    assert(cn@ == create_new_word());
    assert(dc@ == discard_word());
    if str_is(payload.choice.as_str(), &ex) {
        match &payload.matter_id {
            Some(mid) => {
                return log_file_and_update(db, payload, mid, now, fresh);
            },
            None => {
                let m: [char; 9] = ['未', '指', '定', '目', '标', '事', '项', 'I', 'D'];
                return Err(text_of(&m));
            },
        }
    } else if str_is(payload.choice.as_str(), &cn) {
        let sg = match &payload.new_matter {
            Some(s) => SuggestedMatter {
                title: s.title.clone(),
                category: s.category.clone(),
                priority: s.priority.clone(),
                summary: s.summary.clone(),
                related_contacts: copy_opt(&s.related_contacts),
            },
            None => {
                let t: [char; 5] = ['新', '捕', '获', '事', '项'];
                let empty: [char; 0] = [];
                assert(empty@ =~= Seq::<char>::empty());
                SuggestedMatter {
                    title: text_of(&t),
                    category: text_of(&lit_work()),
                    priority: text_of(&lit_medium()),
                    summary: text_of(&empty),
                    related_contacts: None,
                }
            },
        };
        assert(sg@ == suggestion_or_default(payload.new_matter));
        let m = build_new_matter(&sg, &payload.extracted_facts_delta, &fresh.matter_id, now);
        let ghost before = *db;
        match db.create_matter(&m) {
            Err(e) => {
                assert(!matter_takes(before, m));
                let r: Result<(), String> = Err(e.message());
                assert(new_matter_ok(m, suggestion_or_default(payload.new_matter), opt_seq(payload.extracted_facts_delta), fresh.matter_id@, now@));
                return r;
            },
            Ok(()) => {},
        }
        let ghost d0 = *db;
        assert(only_matter_added(before, d0, m));
        let r = log_file_and_update(db, payload, &m.id, now, fresh);
        assert(new_matter_ok(m, suggestion_or_default(payload.new_matter), opt_seq(payload.extracted_facts_delta), fresh.matter_id@, now@));
        assert(matter_takes(before, m));
        assert(only_matter_added(before, d0, m) && decision_filed(d0, *db, *payload, m.id, *now, *fresh, r is Ok));
        return r;
    } else if str_is(payload.choice.as_str(), &dc) {
        return Ok(());
    } else {
        let m: [char; 7] = ['未', '知', '的', '决', '策', '选', '项'];
        return Err(text_of(&m));
    }
}


/// Whether `b` is `a` with the todo update `action` on todo `id` undone at
/// `now`: a `"CLOSE"` opens the todo again; an `"UPDATE"` with the previous
/// text puts back that text and due time (its reminder then follows the due
/// time) and marks its matter as changed; anything else changes nothing.
pub open spec fn undone(
    a: Database,
    b: Database,
    id: Seq<char>,
    action: Seq<char>,
    prev_content: Option<Seq<char>>,
    prev_due: Option<Seq<char>>,
    now: String,
) -> bool {
    &&& b.logs() == a.logs()
    &&& b.settings() == a.settings()
    &&& if action == close_word() {
        todo_views(b.todos()) == views_updated(a.todos(), id, status_set(false, now@)) && b.matters() == a.matters()
    } else if action == update_word() && prev_content is Some {
        todo_views(b.todos()) == views_updated(a.todos(), id, todo_edited(prev_content->0, prev_due, None))
            && b.matters() == touch_todo_matter(a.matters(), a.todos(), id, now)
    } else {
        same_db(b, a)
    }
}

/// Undoes a todo update at `now` (see `undone`).
pub fn undo_todo_update(
    db: &mut Database,
    todo_id: &str,
    action: &str,
    previous_content: Option<String>,
    previous_due_time: Option<String>,
    now: &String,
) -> (r: Result<(), String>)
    requires
        old(db).wf(),
    ensures
        r is Ok,
        final(db).wf(),
        undone(*old(db), *final(db), todo_id@, action@, opt_seq(previous_content), opt_seq(previous_due_time), *now),
{
    let close: [char; 5] = ['C', 'L', 'O', 'S', 'E'];
    let upd: [char; 6] = ['U', 'P', 'D', 'A', 'T', 'E'];
    assert(close@ == close_word());
    assert(upd@ == update_word());
    if str_is(action, &close) {
        let _ = db.toggle_todo_status(todo_id, false, now);
    } else if str_is(action, &upd) {
        if let Some(content) = previous_content {
            let _ = db.update_todo(todo_id, content.as_str(), previous_due_time, None, now);
        }
    }
    Ok(())
}


/// `"手动录入"`, the source of a log entered by hand.
pub open spec fn by_hand() -> Seq<char> {
    seq!['手', '动', '录', '入']
}

/// Whether `m` is the matter entered by hand with these fields, identifier
/// `id`, at `now`: missing texts empty, importance 3 when not given, active,
/// not pinned, no figures.
pub open spec fn manual_matter_ok(
    m: Matter,
    title: Seq<char>,
    overview: Option<Seq<char>>,
    facts: Option<Seq<char>>,
    category: Seq<char>,
    priority: Seq<char>,
    importance: Option<i32>,
    contacts: Option<Seq<char>>,
    id: Seq<char>,
    now: Seq<char>,
) -> bool {
    &&& m.id@ == id
    &&& m.title@ == title
    &&& m.overview@ == text_or(overview, Seq::empty())
    &&& m.fact_summary@ == text_or(facts, Seq::empty())
    &&& m.category@ == category
    &&& m.priority@ == priority
    &&& m.importance == match importance {
        Some(i) => i,
        None => 3i32,
    }
    &&& m.status@ == active()
    &&& !m.is_pinned
    &&& m.created_at@ == now
    &&& m.updated_at@ == now
    &&& m.pending_todos_count == 0
    &&& m.total_todos_count == 0
    &&& m.latest_log_snippet is None
    &&& m.latest_log_time is None
    &&& m.latest_todo_content is None
    &&& m.latest_todo_due_time is None
    &&& m.latest_todo_status is None
    &&& m.related_contacts@ == text_or(contacts, Seq::empty())
}

/// The text of an optional string, or the empty string.
fn text_or_empty(o: &Option<String>) -> (r: String)
    ensures
        r@ == text_or(opt_seq(*o), Seq::empty()),
{
    let empty: [char; 0] = [];
    assert(empty@ =~= Seq::<char>::empty());
    match o {
        Some(t) => t.clone(),
        None => from_chars(&empty),
    }
}

/// Adds a matter entered by hand, under identifier `id` at `now`
/// (see `manual_matter_ok`), and hands it back.
pub fn create_matter(
    db: &mut Database,
    title: &String,
    overview: &Option<String>,
    fact_summary: &Option<String>,
    category: &String,
    priority: &String,
    importance: Option<i32>,
    related_contacts: &Option<String>,
    id: &String,
    now: &String,
) -> (r: Result<Matter, String>)
    requires
        old(db).wf(),
    ensures
        final(db).wf(),
        match r {
            Ok(m) => manual_matter_ok(m, title@, opt_seq(*overview), opt_seq(*fact_summary), category@, priority@, importance, opt_seq(*related_contacts), id@, now@)
                && matter_takes(*old(db), m) && only_matter_added(*old(db), *final(db), m),
            Err(_) => same_db(*final(db), *old(db)) && exists|m: Matter|
                #[trigger] manual_matter_ok(m, title@, opt_seq(*overview), opt_seq(*fact_summary), category@, priority@, importance, opt_seq(*related_contacts), id@, now@)
                    && !matter_takes(*old(db), m),
        },
{
    let m = Matter {
        id: id.clone(),
        title: title.clone(),
        overview: text_or_empty(overview),
        fact_summary: text_or_empty(fact_summary),
        category: category.clone(),
        priority: priority.clone(),
        importance: match importance {
            Some(i) => i,
            None => 3,
        },
        status: from_chars(&lit_active()),
        is_pinned: false,
        created_at: now.clone(),
        updated_at: now.clone(),
        pending_todos_count: 0,
        total_todos_count: 0,
        latest_log_snippet: None,
        latest_log_time: None,
        latest_todo_content: None,
        latest_todo_due_time: None,
        latest_todo_status: None,
        related_contacts: text_or_empty(related_contacts),
    };
    let ghost before = *db;
    match db.create_matter(&m) {
        Ok(()) => Ok(m),
        Err(e) => {
            assert(manual_matter_ok(m, title@, opt_seq(*overview), opt_seq(*fact_summary), category@, priority@, importance, opt_seq(*related_contacts), id@, now@));
            Err(e.message())
        },
    }
}

/// Whether `l` is the log entered by hand with these fields, identifier
/// `id`, at `now`: source `"手动录入"` and an empty window title when not
/// given.
pub open spec fn manual_log_ok(
    l: LogItem,
    matter_id: Option<Seq<char>>,
    raw: Seq<char>,
    source_app: Option<Seq<char>>,
    source_window: Option<Seq<char>>,
    id: Seq<char>,
    now: Seq<char>,
) -> bool {
    &&& l.id@ == id
    &&& opt_seq(l.matter_id) == matter_id
    &&& l.raw_content@ == raw
    &&& l.source_app@ == text_or(source_app, by_hand())
    &&& l.source_window_title@ == text_or(source_window, Seq::empty())
    &&& l.created_at@ == now
}

/// Adds a log entered by hand, under identifier `id` at `now`
/// (see `manual_log_ok`), and hands it back.
pub fn create_log(
    db: &mut Database,
    matter_id: &Option<String>,
    raw_content: &String,
    source_app: &Option<String>,
    source_window_title: &Option<String>,
    id: &String,
    now: &String,
) -> (r: Result<LogItem, String>)
    requires
        old(db).wf(),
    ensures
        final(db).wf(),
        match r {
            Ok(l) => manual_log_ok(l, opt_seq(*matter_id), raw_content@, opt_seq(*source_app), opt_seq(*source_window_title), id@, now@)
                && log_insertable(old(db).matters(), old(db).logs(), l) && log_added(*old(db), *final(db), l, *now)
                && l.created_at == *now,
            Err(_) => same_db(*final(db), *old(db)) && exists|l: LogItem|
                #[trigger] manual_log_ok(l, opt_seq(*matter_id), raw_content@, opt_seq(*source_app), opt_seq(*source_window_title), id@, now@)
                    && !log_insertable(old(db).matters(), old(db).logs(), l),
        },
{
    let hand: [char; 4] = ['手', '动', '录', '入'];
    assert(hand@ == by_hand());
    let log = LogItem {
        id: id.clone(),
        matter_id: copy_opt(matter_id),
        raw_content: raw_content.clone(),
        source_app: match source_app {
            Some(a) => a.clone(),
            None => from_chars(&hand),
        },
        source_window_title: text_or_empty(source_window_title),
        created_at: now.clone(),
    };
    let ghost before = *db;
    match db.create_log(&log, now) {
        Ok(()) => Ok(log),
        Err(e) => {
            assert(manual_log_ok(log, opt_seq(*matter_id), raw_content@, opt_seq(*source_app), opt_seq(*source_window_title), id@, now@));
            Err(e.message())
        },
    }
}

/// Whether `t` is the todo entered by hand with these fields, identifier
/// `id`, at `now`: pending, not focused, reminder not sent, its reminder
/// the one given or else the due time.
pub open spec fn manual_todo_ok(
    t: TodoItem,
    matter_id: Seq<char>,
    content: Seq<char>,
    due: Option<Seq<char>>,
    reminder: Option<Seq<char>>,
    log_id: Option<Seq<char>>,
    id: Seq<char>,
    now: Seq<char>,
) -> bool {
    &&& t.id@ == id
    &&& t.matter_id@ == matter_id
    &&& opt_seq(t.log_id) == log_id
    &&& t.content@ == content
    &&& opt_seq(t.due_time) == due
    &&& opt_seq(t.reminder_time) == match reminder {
        Some(r) => Some(r),
        None => due,
    }
    &&& !t.is_reminder_sent
    &&& t.status@ == crate::lits::pending()
    &&& !t.is_focused
    &&& t.created_at@ == now
    &&& t.completed_at is None
    &&& t.matter_title is None
}

/// Whether `b` is `a` with todo `t` added at `now` (see `create_todo`).
pub open spec fn todo_added(a: Database, b: Database, t: TodoItem, now: String) -> bool {
    &&& todo_views(b.todos()) == todo_views(a.todos()).push(stored_view(t@))
    &&& b.matters() == after_touch(a.matters(), t.matter_id@, now)
    &&& b.logs() == a.logs()
    &&& b.settings() == a.settings()
}

/// Adds a todo entered by hand, under identifier `id` at `now`
/// (see `manual_todo_ok`), and hands it back.
pub fn create_todo(
    db: &mut Database,
    matter_id: &String,
    content: &String,
    due_time: &Option<String>,
    reminder_time: &Option<String>,
    log_id: &Option<String>,
    id: &String,
    now: &String,
) -> (r: Result<TodoItem, String>)
    requires
        old(db).wf(),
    ensures
        final(db).wf(),
        match r {
            Ok(t) => manual_todo_ok(t, matter_id@, content@, opt_seq(*due_time), opt_seq(*reminder_time), opt_seq(*log_id), id@, now@)
                && todo_insertable(old(db).matters(), old(db).logs(), old(db).todos(), t) && todo_added(*old(db), *final(db), t, *now)
                && t.created_at == *now,
            Err(_) => same_db(*final(db), *old(db)) && exists|t: TodoItem|
                #[trigger] manual_todo_ok(t, matter_id@, content@, opt_seq(*due_time), opt_seq(*reminder_time), opt_seq(*log_id), id@, now@)
                    && !todo_insertable(old(db).matters(), old(db).logs(), old(db).todos(), t),
        },
{
    let todo = TodoItem {
        id: id.clone(),
        matter_id: matter_id.clone(),
        log_id: copy_opt(log_id),
        content: content.clone(),
        due_time: copy_opt(due_time),
        reminder_time: match reminder_time {
            Some(r) => Some(r.clone()),
            None => copy_opt(due_time),
        },
        is_reminder_sent: false,
        status: from_chars(&crate::lits::lit_pending()),
        is_focused: false,
        created_at: now.clone(),
        completed_at: None,
        matter_title: None,
    };
    let ghost before = *db;
    match db.create_todo(&todo, now) {
        Ok(()) => Ok(todo),
        Err(e) => {
            assert(manual_todo_ok(todo, matter_id@, content@, opt_seq(*due_time), opt_seq(*reminder_time), opt_seq(*log_id), id@, now@));
            Err(e.message())
        },
    }
}

} // verus!
