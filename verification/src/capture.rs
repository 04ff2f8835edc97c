//! What the capture of a selected text decides: the display name of the
//! application it came from, the cleaned selection, whether the chat title
//! is wanted, the inbox log it becomes, the matters the router is shown,
//! and when the router's answer is filed at once.
use vstd::prelude::*;
use crate::models::{
    Matter, LogItem, TodoItem, todo_views, TodoRowView, AIParseResult, MatterContextWithTodos, update_views,
};
use crate::store::{
    Database, same_db, log_insertable, log_filed, rendered, rendered_todos, todo_of, matter_todo_key,
    matter_todo_desc, ordered_by, matter_passes, matter_key, sort_mode,
};
use crate::order::{is_reordering, key_le};
use crate::seqs::keep;
use crate::text::{from_chars, to_chars, trim, trim_str, split_by, split_chars, views, lemma_split_nonempty, opt_seq};
use crate::lits::{str_is, active, pending, lit_active};
use crate::wechat::{lowercase, to_lower};
use crate::commands::{log_added, updates_applied, apply_todo_updates};
use crate::ai_service::match_existing;

verus! {

/// A selected text with where it came from.
pub struct CapturedContext {
    pub text: String,
    pub source_app: String,
    pub source_window: String,
    /// The chat's title bar as a base64 image, when one was taken.
    pub image_base64: Option<String>,
}

/// Captures the text selected in the application in front.
pub struct ClipboardService;

/// The name shown for an application whose executable, in lowercase, is
/// `lower`: the known messengers, browsers and editors by name, others by
/// the executable's name.
pub open spec fn app_display_name(lower: Seq<char>) -> Seq<char> {
    if lower == seq!['w', 'e', 'c', 'h', 'a', 't', '.', 'e', 'x', 'e'] {
        seq!['微', '信']
    } else if lower == seq!['w', 'e', 'i', 'x', 'i', 'n', '.', 'e', 'x', 'e'] {
        seq!['微', '信']
    } else if lower == seq!['w', 'x', 'w', 'o', 'r', 'k', '.', 'e', 'x', 'e'] {
        seq!['企', '业', '微', '信']
    } else if lower == seq!['f', 'e', 'i', 's', 'h', 'u', '.', 'e', 'x', 'e'] {
        seq!['飞', '书']
    } else if lower == seq!['d', 'i', 'n', 'g', 't', 'a', 'l', 'k', '.', 'e', 'x', 'e'] {
        seq!['钉', '钉']
    } else if lower == seq!['c', 'h', 'r', 'o', 'm', 'e', '.', 'e', 'x', 'e'] {
        seq!['C', 'h', 'r', 'o', 'm', 'e', ' ', '浏', '览', '器']
    } else if lower == seq!['m', 's', 'e', 'd', 'g', 'e', '.', 'e', 'x', 'e'] {
        seq!['E', 'd', 'g', 'e', ' ', '浏', '览', '器']
    } else if lower == seq!['n', 'o', 't', 'e', 'p', 'a', 'd', '.', 'e', 'x', 'e'] {
        seq!['记', '事', '本']
    } else if lower == seq!['c', 'o', 'd', 'e', '.', 'e', 'x', 'e'] {
        seq!['V', 'S', ' ', 'C', 'o', 'd', 'e']
    } else {
        lower
    }
}

/// The last piece of a Windows path.
pub open spec fn exe_name(path: Seq<char>) -> Seq<char> {
    split_by(path, seq!['\\']).last()
}

/// `"未能捕获到选中文本，请确保已划选文字"`
pub open spec fn nothing_selected_message() -> Seq<char> {
    seq!['未', '能', '捕', '获', '到', '选', '中', '文', '本', '，', '请', '确', '保', '已', '划', '选', '文', '字']
}

/// `"微信"`
pub open spec fn wechat_name() -> Seq<char> {
    seq!['微', '信']
}

/// `"企业微信"`
pub open spec fn wecom_name() -> Seq<char> {
    seq!['企', '业', '微', '信']
}

impl ClipboardService {
    /// The name shown for the application whose image path is `raw_path`
    /// (see `app_display_name`).
    pub fn app_name_for_path(raw_path: &str) -> (r: String)
        ensures
            r@ == app_display_name(lowercase(exe_name(raw_path@))),
    {
        let chars = to_chars(raw_path);
        let seps: [char; 1] = ['\\'];
        let pieces = split_chars(chars.as_slice(), &seps);
        proof {
            lemma_split_nonempty(chars@, seps@);
        }
        let last = pieces.len() - 1;
        assert(views(pieces@)[last as int] == pieces@[last as int]@);
        let exe = from_chars(pieces[last].as_slice());
        assert(seps@ =~= seq!['\\']);
        assert(exe@ == exe_name(raw_path@));
        let lower = to_lower(exe.as_str());
        Self::display_name(lower)
    }

    /// `app_display_name` of a lowercase executable name.
    fn display_name(lower: String) -> (r: String)
        ensures
            r@ == app_display_name(lower@),
    {
    if str_is(lower.as_str(), &['w', 'e', 'c', 'h', 'a', 't', '.', 'e', 'x', 'e']) {
        let v: [char; 2] = ['微', '信'];
        from_chars(&v)
    } else if str_is(lower.as_str(), &['w', 'e', 'i', 'x', 'i', 'n', '.', 'e', 'x', 'e']) {
        let v: [char; 2] = ['微', '信'];
        from_chars(&v)
    } else if str_is(lower.as_str(), &['w', 'x', 'w', 'o', 'r', 'k', '.', 'e', 'x', 'e']) {
        let v: [char; 4] = ['企', '业', '微', '信'];
        from_chars(&v)
    } else if str_is(lower.as_str(), &['f', 'e', 'i', 's', 'h', 'u', '.', 'e', 'x', 'e']) {
        let v: [char; 2] = ['飞', '书'];
        from_chars(&v)
    } else if str_is(lower.as_str(), &['d', 'i', 'n', 'g', 't', 'a', 'l', 'k', '.', 'e', 'x', 'e']) {
        let v: [char; 2] = ['钉', '钉'];
        from_chars(&v)
    } else if str_is(lower.as_str(), &['c', 'h', 'r', 'o', 'm', 'e', '.', 'e', 'x', 'e']) {
        let v: [char; 10] = ['C', 'h', 'r', 'o', 'm', 'e', ' ', '浏', '览', '器'];
        from_chars(&v)
    } else if str_is(lower.as_str(), &['m', 's', 'e', 'd', 'g', 'e', '.', 'e', 'x', 'e']) {
        let v: [char; 8] = ['E', 'd', 'g', 'e', ' ', '浏', '览', '器'];
        from_chars(&v)
    } else if str_is(lower.as_str(), &['n', 'o', 't', 'e', 'p', 'a', 'd', '.', 'e', 'x', 'e']) {
        let v: [char; 3] = ['记', '事', '本'];
        from_chars(&v)
    } else if str_is(lower.as_str(), &['c', 'o', 'd', 'e', '.', 'e', 'x', 'e']) {
        let v: [char; 7] = ['V', 'S', ' ', 'C', 'o', 'd', 'e'];
        from_chars(&v)
    } else {
        lower
    }
    }

    /// The selection without surrounding white space; refused when nothing
    /// is left.
    pub fn clean_selection(captured: &str) -> (r: Result<String, String>)
        ensures
            trim(captured@).len() > 0 ==> (r matches Ok(t) && t@ == trim(captured@)),
            trim(captured@).len() == 0 ==> (r matches Err(e) && e@ == nothing_selected_message()),
    {
        let t = trim_str(captured);
        if to_chars(t.as_str()).len() == 0 {
            let m: [char; 18] = ['未', '能', '捕', '获', '到', '选', '中', '文', '本', '，', '请', '确', '保', '已', '划', '选', '文', '字'];
            Err(from_chars(&m))
        } else {
            Ok(t)
        }
    }

    /// Whether the chat's title bar is taken as well: for the two
    /// messengers.
    pub fn wants_chat_header(source_app: &str) -> (r: bool)
        ensures
            r == (source_app@ == wechat_name() || source_app@ == wecom_name()),
    {
        let w: [char; 2] = ['微', '信'];
        let c: [char; 4] = ['企', '业', '微', '信'];
        str_is(source_app, &w) || str_is(source_app, &c)
    }

    /// Whether the clipboard is given back what it held before the copy, so
    /// that a capture never overwrites it: whenever the copy changed the
    /// clipboard, unless it held text and the capture is that same text.
    /// `old_text` is the text the clipboard held, `None` when it held no
    /// text (it may still have held a picture or files, which are given
    /// back too).
    pub fn restores_clipboard(old_text: &Option<String>, changed: bool, captured: &str) -> (r: bool)
        ensures
            r == (changed && !(old_text matches Some(t) && t@ == captured@)),
    {
        match old_text {
            Some(o) => changed && !crate::lits::same_text(o.as_str(), captured),
            None => changed,
        }
    }

    /// The capture where no foreground application can be read (any system
    /// but Windows): a fixed sample text.
    pub fn capture_selected_text_safe() -> (r: Result<CapturedContext, String>)
        ensures
            r matches Ok(c) && c.text@ == seq!['测', '试', '划', '选', '内', '容', '：', '周', '三', '上', '午', '1', '0', '点', '前', '需', '要', '提', '交', '技', '术', '白', '皮', '书', '。'] && c.source_app@ == seq!['M', 'o', 'c', 'k', ' ', '应', '用']
                && c.source_window@ == seq!['测', '试', '会', '话'] && c.image_base64 is None,
    {
        let t: [char; 25] = ['测', '试', '划', '选', '内', '容', '：', '周', '三', '上', '午', '1', '0', '点', '前', '需', '要', '提', '交', '技', '术', '白', '皮', '书', '。'];
        let a: [char; 7] = ['M', 'o', 'c', 'k', ' ', '应', '用'];
        let w: [char; 4] = ['测', '试', '会', '话'];
        Ok(CapturedContext { text: from_chars(&t), source_app: from_chars(&a), source_window: from_chars(&w), image_base64: None })
    }
}


/// Whether `l` is the inbox log a capture becomes: identifier `id`, no
/// matter yet, the text and where it came from, at `now`.
pub open spec fn capture_log_ok(l: LogItem, c: CapturedContext, id: Seq<char>, now: Seq<char>) -> bool {
    &&& l.id@ == id
    &&& l.matter_id is None
    &&& l.raw_content@ == c.text@
    &&& l.source_app@ == c.source_app@
    &&& l.source_window_title@ == c.source_window@
    &&& l.created_at@ == now
}

/// Stores a capture in the inbox under `log_id` at `now` before anything
/// else happens to it; a refusal of the store is passed over.
pub fn record_capture(db: &mut Database, captured: &CapturedContext, log_id: &String, now: &String)
    requires
        old(db).wf(),
    ensures
        final(db).wf(),
        exists|l: LogItem|
            #[trigger] capture_log_ok(l, *captured, log_id@, now@) && if log_insertable(old(db).matters(), old(db).logs(), l) {
                log_added(*old(db), *final(db), l, *now)
            } else {
                same_db(*final(db), *old(db))
            },
{
    let log = LogItem {
        id: log_id.clone(),
        matter_id: None,
        raw_content: captured.text.clone(),
        source_app: captured.source_app.clone(),
        source_window_title: captured.source_window.clone(),
        created_at: now.clone(),
    };
    let ghost before = *db;
    let _ = db.create_log(&log, now);
    assert(capture_log_ok(log, *captured, log_id@, now@));
}

/// A pending todo.
pub open spec fn is_pending() -> spec_fn(TodoRowView) -> bool {
    |v: TodoRowView| v.status == pending()
}

/// Whether `c` holds, for its matter, the pending todos of the store `db`
/// in the order the store lists a matter's todos.
pub open spec fn context_ok(c: MatterContextWithTodos, db: Database) -> bool {
    exists|v: Seq<TodoRowView>|
        #[trigger] is_reordering(v, rendered_todos(keep(db.todos(), todo_of(c.matter.id@)), db.matters()))
            && ordered_by(v, matter_todo_key(), matter_todo_desc()) && todo_views(c.pending_todos@) == keep(v, is_pending())
}

/// The matters of a list of contexts.
pub open spec fn context_matters(cs: Seq<MatterContextWithTodos>) -> Seq<Matter> {
    cs.map_values(|c: MatterContextWithTodos| c.matter)
}

/// `"updated"`
pub open spec fn updated_word() -> Seq<char> {
    seq!['u', 'p', 'd', 'a', 't', 'e', 'd']
}

/// The pending todos among `ts`, in order.
fn pending_of(ts: &Vec<TodoItem>) -> (r: Vec<TodoItem>)
    ensures
        todo_views(r@) == keep(todo_views(ts@), is_pending()),
{
    let mut r: Vec<TodoItem> = Vec::new();
    let mut k: usize = 0;
    let ghost v = todo_views(ts@);
    while k < ts.len()
        invariant
            k <= ts@.len(),
            v == todo_views(ts@),
            todo_views(r@) == keep(v.take(k as int), is_pending()),
        decreases ts.len() - k,
    {
        assert(v.take(k + 1).drop_last() =~= v.take(k as int));
        assert(v.take(k + 1).last() == ts@[k as int]@);
        if str_is(ts[k].status.as_str(), &crate::lits::lit_pending()) {
            let ghost before = todo_views(r@);
            r.push(ts[k].copy());
            assert(todo_views(r@) =~= before.push(ts@[k as int]@));
        }
        k = k + 1;
    }
    assert(v.take(ts@.len() as int) =~= v);
    r
}

/// The matters the router is shown: the active ones, latest changed first,
/// each with its pending todos.
pub fn routing_contexts(db: &Database) -> (r: Vec<MatterContextWithTodos>)
    requires
        db.wf(),
    ensures
        is_reordering(
            context_matters(r@),
            keep(db.matters(), matter_passes(Some(active()), None)).map_values(
                |m: Matter| rendered(m, db.logs(), db.todos()),
            ),
        ),
        forall|p: int, q: int|
            0 <= p < q < r@.len() ==> key_le(
                matter_key(sort_mode(Some(updated_word())))(#[trigger] context_matters(r@)[p]),
                matter_key(sort_mode(Some(updated_word())))(#[trigger] context_matters(r@)[q]),
                crate::store::matter_desc(sort_mode(Some(updated_word()))),
            ),
        forall|i: int| 0 <= i < r@.len() ==> context_ok(#[trigger] r@[i], *db),
{
    let upd: [char; 7] = ['u', 'p', 'd', 'a', 't', 'e', 'd'];
    assert(upd@ == updated_word());
    let st = from_chars(&lit_active());
    let sb = from_chars(&upd);
    let ms = match db.get_matters(Some(st), None, Some(sb)) {
        Ok(v) => v,
        Err(_) => Vec::new(),
    };
    let mut r: Vec<MatterContextWithTodos> = Vec::new();
    let mut k: usize = 0;
    while k < ms.len()
        invariant
            k <= ms@.len(),
            db.wf(),
            r@.len() == k,
            forall|i: int| 0 <= i < k ==> (#[trigger] r@[i]).matter == ms@[i],
            forall|i: int| 0 <= i < k ==> context_ok(#[trigger] r@[i], *db),
        decreases ms.len() - k,
    {
        let m = ms[k].copy();
        let ts = match db.get_todos_by_matter(m.id.as_str()) {
            Ok(v) => v,
            Err(_) => Vec::new(),
        };
        let ghost tv = todo_views(ts@);
        let pend = pending_of(&ts);
        let c = MatterContextWithTodos { matter: m, pending_todos: pend };
        assert(is_reordering(tv, rendered_todos(keep(db.todos(), todo_of(c.matter.id@)), db.matters())));
        assert(context_ok(c, *db));
        r.push(c);
        k = k + 1;
    }
    assert(context_matters(r@) =~= ms@);
    r
}

/// Whether the router's answer is filed at once: it names an existing
/// matter with a confidence (in hundredths) at least the threshold.
pub open spec fn archives_at_once(p: AIParseResult, threshold: u32) -> bool {
    p.action@ == match_existing() && p.confidence >= threshold && p.matched_matter_id is Some
}

/// Whether `b` is `a` with log `lid` filed as the router's answer `p` says
/// at `now` (whether or not the store took it) and the answer's todo
/// updates then applied.
pub open spec fn filed_at_once(a: Database, b: Database, p: AIParseResult, lid: Seq<char>, now: String, ids: Seq<String>) -> bool {
    exists|d: Database, ok: bool|
        #[trigger] log_filed(a, d, lid, p.matched_matter_id->0@, opt_seq(p.extracted_facts_delta), p.extracted_todos@, now, ids, ok)
            && updates_applied(d, b, update_views(p.todo_updates@), now)
}

/// Files the captured log `log_id` at once when the router's answer allows
/// it (see `archives_at_once`), at `now` with the identifiers given for the
/// new todos; tells whether it did.
pub fn auto_archive(
    db: &mut Database,
    result: &AIParseResult,
    log_id: &String,
    threshold: u32,
    now: &String,
    ids: &Vec<String>,
) -> (r: bool)
    requires
        old(db).wf(),
        ids@.len() == result.extracted_todos@.len(),
    ensures
        final(db).wf(),
        r == archives_at_once(*result, threshold),
        r ==> filed_at_once(*old(db), *final(db), *result, log_id@, *now, ids@),
        !r ==> same_db(*final(db), *old(db)),
{
    let me: [char; 14] = ['M', 'A', 'T', 'C', 'H', '_', 'E', 'X', 'I', 'S', 'T', 'I', 'N', 'G'];
    assert(me@ == match_existing());
    if !str_is(result.action.as_str(), &me) || result.confidence < threshold {
        return false;
    }
    match &result.matched_matter_id {
        None => false,
        Some(mid) => {
            let ghost before = *db;
            let facts: Option<&str> = match &result.extracted_facts_delta {
                Some(f) => Some(f.as_str()),
                None => None,
            };
            assert(crate::store::str_opt(facts) == opt_seq(result.extracted_facts_delta));
            let got = db.categorize_log(log_id.as_str(), mid.as_str(), facts, result.extracted_todos.as_slice(), now, ids);
            let ghost mid_db = *db;
            let ghost ok = got is Ok;
            assert(log_filed(before, mid_db, log_id@, mid@, opt_seq(result.extracted_facts_delta), result.extracted_todos@, *now, ids@, ok));
            apply_todo_updates(db, &result.todo_updates, now);
            assert(log_filed(before, mid_db, log_id@, result.matched_matter_id->0@, opt_seq(result.extracted_facts_delta), result.extracted_todos@, *now, ids@, ok)
                && updates_applied(mid_db, *db, update_views(result.todo_updates@), *now));
            true
        },
    }
}

} // verus!
