//! The matter / log / todo store, with the rules that its schema enforces:
//! unique identifiers, the allowed words of each status column, matters that
//! logs and todos refer to, deleting a matter deletes its todos and detaches
//! its logs, deleting a log detaches its todos.
use vstd::prelude::*;
use vstd::string::StringExecFns;
use crate::models::{Matter, LogItem, TodoItem, TodoRowView, todo_views, copy_opt, InboxLogItem, InboxHead, ExtractedTodo};
use crate::text::{trim, trim_vec, from_chars, append_slice};
use crate::models::AppConfig;
use crate::settings::{
    row_views, keys_unique, lookup, upsert, upsert_all, config_pairs, config_from_rows,
    parse_hundredths_exec, hundredths_text_exec, lemma_config_roundtrip,
};
use crate::timefmt::{normalize_time, normalize_time_spec};
use crate::text::opt_seq;
use crate::lits::{
    work, life, high, medium, low, active, pending, completed, archived, str_is, same_text,
    lit_work, lit_life, lit_high, lit_medium, lit_low, lit_active, lit_pending, lit_completed,
    lit_archived, all_word, lit_all,
};
use crate::order::{text_lt, text_le, text_order, SortKey, sort_rows, is_reordering, key_le, key_lt_from, lemma_reordering_map};
use crate::text::to_chars;
use crate::seqs::{keep, lemma_keep, lemma_keep_unique};

verus! {

/// Why a store operation was refused.
#[derive(Debug)]
pub enum DbError {
    /// A row would break a rule of the schema (an identifier used twice, a
    /// word outside its column's list, a reference to a missing row).
    Constraint,
    /// The row asked for does not exist.
    NoRows,
    /// A table holds as many rows as the counters can count.
    Full,
}

/// The message of a refusal.
pub open spec fn error_text(e: DbError) -> Seq<char> {
    match e {
        DbError::Constraint => seq!['c', 'o', 'n', 's', 't', 'r', 'a', 'i', 'n', 't', ' ', 'f', 'a', 'i', 'l', 'e', 'd'],
        DbError::NoRows => seq!['q', 'u', 'e', 'r', 'y', ' ', 'r', 'e', 't', 'u', 'r', 'n', 'e', 'd', ' ', 'n', 'o', ' ', 'r', 'o', 'w', 's'],
        DbError::Full => seq!['t', 'a', 'b', 'l', 'e', ' ', 'i', 's', ' ', 'f', 'u', 'l', 'l'],
    }
}

impl DbError {
    /// A message for the user (see `error_text`).
    pub fn message(&self) -> (r: String)
        ensures
            r@ == error_text(*self),
    {
        match self {
            DbError::Constraint => {
                let m: [char; 17] = ['c', 'o', 'n', 's', 't', 'r', 'a', 'i', 'n', 't', ' ', 'f', 'a', 'i', 'l', 'e', 'd'];
                crate::text::from_chars(&m)
            },
            DbError::NoRows => {
                let m: [char; 22] = ['q', 'u', 'e', 'r', 'y', ' ', 'r', 'e', 't', 'u', 'r', 'n', 'e', 'd', ' ', 'n', 'o', ' ', 'r', 'o', 'w', 's'];
                crate::text::from_chars(&m)
            },
            DbError::Full => {
                let m: [char; 13] = ['t', 'a', 'b', 'l', 'e', ' ', 'i', 's', ' ', 'f', 'u', 'l', 'l'];
                crate::text::from_chars(&m)
            },
        }
    }
}

/// Most rows a table holds, so that counts fit an `i32`.
pub open spec fn row_limit() -> nat {
    0x7fff_0000
}

/// The words a matter's columns allow.
pub open spec fn valid_matter(m: Matter) -> bool {
    &&& (m.category@ == work() || m.category@ == life())
    &&& (m.priority@ == high() || m.priority@ == medium() || m.priority@ == low())
    &&& 1 <= m.importance <= 5
    &&& (m.status@ == active() || m.status@ == pending() || m.status@ == completed()
        || m.status@ == archived())
}

/// The statuses a matter may be given.
pub open spec fn valid_matter_status(s: Seq<char>) -> bool {
    s == active() || s == pending() || s == completed() || s == archived()
}

/// The statuses a todo may have.
pub open spec fn valid_todo_status(s: Seq<char>) -> bool {
    s == pending() || s == completed()
}

/// Position of the matter with identifier `id`, if any.
pub open spec fn matter_pos(ms: Seq<Matter>, id: Seq<char>) -> Option<int> {
    if exists|i: int| 0 <= i < ms.len() && ms[i].id@ == id {
        Some(choose|i: int| 0 <= i < ms.len() && ms[i].id@ == id)
    } else {
        None
    }
}

/// Position of the log with identifier `id`, if any.
pub open spec fn log_pos(ls: Seq<LogItem>, id: Seq<char>) -> Option<int> {
    if exists|i: int| 0 <= i < ls.len() && ls[i].id@ == id {
        Some(choose|i: int| 0 <= i < ls.len() && ls[i].id@ == id)
    } else {
        None
    }
}

/// Position of the todo with identifier `id`, if any.
pub open spec fn todo_pos(ts: Seq<TodoItem>, id: Seq<char>) -> Option<int> {
    if exists|i: int| 0 <= i < ts.len() && ts[i].id@ == id {
        Some(choose|i: int| 0 <= i < ts.len() && ts[i].id@ == id)
    } else {
        None
    }
}

/// Whether the optional text `o` holds `s`.
pub open spec fn opt_is(o: Option<String>, s: Seq<char>) -> bool {
    o is Some && o->0@ == s
}

/// The store's rules hold of the tables.
pub open spec fn tables_wf(
    ms: Seq<Matter>,
    ls: Seq<LogItem>,
    ts: Seq<TodoItem>,
    ss: Seq<(String, String)>,
) -> bool {
    &&& ms.len() < row_limit()
    &&& ls.len() < row_limit()
    &&& ts.len() < row_limit()
    &&& ss.len() < row_limit()
    &&& forall|i: int, j: int| 0 <= i < j < ms.len() ==> ms[i].id@ != ms[j].id@
    &&& forall|i: int, j: int| 0 <= i < j < ls.len() ==> ls[i].id@ != ls[j].id@
    &&& forall|i: int, j: int| 0 <= i < j < ts.len() ==> ts[i].id@ != ts[j].id@
    &&& forall|i: int, j: int| 0 <= i < j < ss.len() ==> ss[i].0@ != ss[j].0@
    &&& forall|i: int| 0 <= i < ms.len() ==> valid_matter(#[trigger] ms[i])
    &&& forall|i: int|
        0 <= i < ls.len() ==> (#[trigger] ls[i]).matter_id is Some ==> matter_pos(
            ms,
            ls[i].matter_id->0@,
        ) is Some
    &&& forall|i: int| 0 <= i < ts.len() ==> matter_pos(ms, (#[trigger] ts[i]).matter_id@) is Some
    &&& forall|i: int|
        0 <= i < ts.len() ==> (#[trigger] ts[i]).log_id is Some ==> log_pos(
            ls,
            ts[i].log_id->0@,
        ) is Some
    &&& forall|i: int| 0 <= i < ts.len() ==> valid_todo_status((#[trigger] ts[i]).status@)
}

/// The store: matters, logs, todos, and the settings as key / value rows.
pub struct Database {
    matters: Vec<Matter>,
    logs: Vec<LogItem>,
    todos: Vec<TodoItem>,
    settings: Vec<(String, String)>,
}

impl Database {
    /// The matters, in the order they were added.
    pub closed spec fn matters(&self) -> Seq<Matter> {
        self.matters@
    }

    /// The logs, in the order they were added.
    pub closed spec fn logs(&self) -> Seq<LogItem> {
        self.logs@
    }

    /// The todos, in the order they were added.
    pub closed spec fn todos(&self) -> Seq<TodoItem> {
        self.todos@
    }

    /// The settings rows.
    pub closed spec fn settings(&self) -> Seq<(String, String)> {
        self.settings@
    }

    /// The store's rules hold.
    pub open spec fn wf(&self) -> bool {
        tables_wf(self.matters(), self.logs(), self.todos(), self.settings())
    }

    /// An empty store.
    pub fn new_empty() -> (db: Database)
        ensures
            db.wf(),
            db.matters().len() == 0,
            db.logs().len() == 0,
            db.todos().len() == 0,
            db.settings().len() == 0,
    {
        Database { matters: Vec::new(), logs: Vec::new(), todos: Vec::new(), settings: Vec::new() }
    }

    /// Position of the matter `id`.
    fn find_matter(&self, id: &str) -> (r: Option<usize>)
        requires
            self.wf(),
        ensures
            r matches Some(i) ==> matter_pos(self.matters(), id@) == Some(i as int),
            r is None ==> matter_pos(self.matters(), id@) is None,
    {
        let mut i: usize = 0;
        while i < self.matters.len()
            invariant
                i <= self.matters@.len(),
                self.wf(),
                forall|k: int| 0 <= k < i ==> self.matters@[k].id@ != id@,
            decreases self.matters.len() - i,
        {
            if same_text(self.matters[i].id.as_str(), id) {
                proof {
                    let c = choose|k: int| 0 <= k < self.matters@.len() && self.matters@[k].id@ == id@;
                    if c != i {
                        assert(self.matters@[c].id@ != self.matters@[i as int].id@);
                    }
                }
                return Some(i);
            }
            i = i + 1;
        }
        None
    }

    /// Position of the log `id`.
    fn find_log(&self, id: &str) -> (r: Option<usize>)
        requires
            self.wf(),
        ensures
            r matches Some(i) ==> log_pos(self.logs(), id@) == Some(i as int),
            r is None ==> log_pos(self.logs(), id@) is None,
    {
        let mut i: usize = 0;
        while i < self.logs.len()
            invariant
                i <= self.logs@.len(),
                self.wf(),
                forall|k: int| 0 <= k < i ==> self.logs@[k].id@ != id@,
            decreases self.logs.len() - i,
        {
            if same_text(self.logs[i].id.as_str(), id) {
                proof {
                    let c = choose|k: int| 0 <= k < self.logs@.len() && self.logs@[k].id@ == id@;
                    if c != i {
                        assert(self.logs@[c].id@ != self.logs@[i as int].id@);
                    }
                }
                return Some(i);
            }
            i = i + 1;
        }
        None
    }

    /// Position of the todo `id`.
    fn find_todo(&self, id: &str) -> (r: Option<usize>)
        requires
            self.wf(),
        ensures
            r matches Some(i) ==> todo_pos(self.todos(), id@) == Some(i as int),
            r is None ==> todo_pos(self.todos(), id@) is None,
    {
        let mut i: usize = 0;
        while i < self.todos.len()
            invariant
                i <= self.todos@.len(),
                self.wf(),
                forall|k: int| 0 <= k < i ==> self.todos@[k].id@ != id@,
            decreases self.todos.len() - i,
        {
            if same_text(self.todos[i].id.as_str(), id) {
                proof {
                    let c = choose|k: int| 0 <= k < self.todos@.len() && self.todos@[k].id@ == id@;
                    if c != i {
                        assert(self.todos@[c].id@ != self.todos@[i as int].id@);
                    }
                }
                return Some(i);
            }
            i = i + 1;
        }
        None
    }
}

/// Number of todos of matter `mid` (only the pending ones, when asked).
pub open spec fn count_todos_of(ts: Seq<TodoItem>, mid: Seq<char>, only_pending: bool) -> nat
    decreases ts.len(),
{
    if ts.len() == 0 {
        0
    } else {
        count_todos_of(ts.drop_last(), mid, only_pending) + if ts.last().matter_id@ == mid && (
        !only_pending || ts.last().status@ == pending()) {
            1nat
        } else {
            0nat
        }
    }
}

/// The latest log of matter `mid`: the one with the greatest creation time,
/// the first in table order among equals.
pub open spec fn latest_log_of(ls: Seq<LogItem>, mid: Seq<char>) -> Option<int>
    decreases ls.len(),
{
    if ls.len() == 0 {
        None
    } else {
        let prev = latest_log_of(ls.drop_last(), mid);
        let l = ls.last();
        if opt_is(l.matter_id, mid) && (prev is None || text_lt(
            ls[prev->0].created_at@,
            l.created_at@,
        )) {
            Some(ls.len() - 1)
        } else {
            prev
        }
    }
}

/// Todo `a` comes before todo `b` when a matter shows its headline todo:
/// pending before completed, then the later created first.
pub open spec fn todo_ahead(a: TodoItem, b: TodoItem) -> bool {
    ||| (a.status@ == pending() && b.status@ != pending())
    ||| ((a.status@ == pending()) == (b.status@ == pending()) && text_lt(
        b.created_at@,
        a.created_at@,
    ))
}

/// The headline todo of matter `mid`, the first in table order among equals.
pub open spec fn latest_todo_of(ts: Seq<TodoItem>, mid: Seq<char>) -> Option<int>
    decreases ts.len(),
{
    if ts.len() == 0 {
        None
    } else {
        let prev = latest_todo_of(ts.drop_last(), mid);
        let t = ts.last();
        if t.matter_id@ == mid && (prev is None || todo_ahead(t, ts[prev->0])) {
            Some(ts.len() - 1)
        } else {
            prev
        }
    }
}

/// A stored matter with its figures filled in from the logs and todos.
pub open spec fn rendered(m: Matter, ls: Seq<LogItem>, ts: Seq<TodoItem>) -> Matter {
    let ll = latest_log_of(ls, m.id@);
    let lt = latest_todo_of(ts, m.id@);
    Matter {
        id: m.id,
        title: m.title,
        overview: m.overview,
        fact_summary: m.fact_summary,
        category: m.category,
        priority: m.priority,
        importance: m.importance,
        status: m.status,
        is_pinned: m.is_pinned,
        created_at: m.created_at,
        updated_at: m.updated_at,
        pending_todos_count: count_todos_of(ts, m.id@, true) as i32,
        total_todos_count: count_todos_of(ts, m.id@, false) as i32,
        latest_log_snippet: match ll {
            Some(i) => Some(ls[i].raw_content),
            None => None,
        },
        latest_log_time: match ll {
            Some(i) => Some(ls[i].created_at),
            None => None,
        },
        latest_todo_content: match lt {
            Some(i) => Some(ts[i].content),
            None => None,
        },
        latest_todo_due_time: match lt {
            Some(i) => ts[i].due_time,
            None => None,
        },
        latest_todo_status: match lt {
            Some(i) => Some(ts[i].status),
            None => None,
        },
        related_contacts: m.related_contacts,
    }
}

proof fn lemma_count_bound(ts: Seq<TodoItem>, mid: Seq<char>, p: bool)
    ensures
        count_todos_of(ts, mid, p) <= ts.len(),
    decreases ts.len(),
{
    if ts.len() > 0 {
        lemma_count_bound(ts.drop_last(), mid, p);
    }
}

proof fn lemma_latest_log_bound(ls: Seq<LogItem>, mid: Seq<char>)
    ensures
        latest_log_of(ls, mid) matches Some(i) ==> 0 <= i < ls.len() && opt_is(ls[i].matter_id, mid),
    decreases ls.len(),
{
    if ls.len() > 0 {
        lemma_latest_log_bound(ls.drop_last(), mid);
    }
}

proof fn lemma_latest_todo_bound(ts: Seq<TodoItem>, mid: Seq<char>)
    ensures
        latest_todo_of(ts, mid) matches Some(i) ==> 0 <= i < ts.len() && ts[i].matter_id@ == mid,
    decreases ts.len(),
{
    if ts.len() > 0 {
        lemma_latest_todo_bound(ts.drop_last(), mid);
    }
}

/// Whether the optional text `o` holds the text of `s`.
pub fn opt_same(o: &Option<String>, s: &str) -> (r: bool)
    ensures
        r == opt_is(*o, s@),
{
    match o {
        Some(x) => same_text(x.as_str(), s),
        None => false,
    }
}

/// Whether text `a` sorts strictly before text `b`.
pub fn str_lt(a: &str, b: &str) -> (r: bool)
    ensures
        r == text_lt(a@, b@),
{
    let va = to_chars(a);
    let vb = to_chars(b);
    text_order(va.as_slice(), vb.as_slice()) == -1
}

impl Database {
    /// `m` with its figures filled in.
    fn render(&self, m: &Matter) -> (r: Matter)
        requires
            self.wf(),
        ensures
            r == rendered(*m, self.logs(), self.todos()),
    {
        let mut pending_n: usize = 0;
        let mut total_n: usize = 0;
        let mut best_todo: Option<usize> = None;
        let mut i: usize = 0;
        while i < self.todos.len()
            invariant
                i <= self.todos@.len(),
                self.wf(),
                pending_n == count_todos_of(self.todos@.take(i as int), m.id@, true),
                total_n == count_todos_of(self.todos@.take(i as int), m.id@, false),
                best_todo matches Some(b) ==> latest_todo_of(self.todos@.take(i as int), m.id@)
                    == Some(b as int),
                best_todo is None ==> latest_todo_of(self.todos@.take(i as int), m.id@) is None,
            decreases self.todos.len() - i,
        {
            proof {
                lemma_count_bound(self.todos@.take(i as int), m.id@, true);
                lemma_count_bound(self.todos@.take(i as int), m.id@, false);
                lemma_latest_todo_bound(self.todos@.take(i as int), m.id@);
            }
            assert(self.todos@.take(i + 1).drop_last() == self.todos@.take(i as int));
            let t = &self.todos[i];
            if same_text(t.matter_id.as_str(), m.id.as_str()) {
                total_n = total_n + 1;
                let t_pending = str_is(t.status.as_str(), &lit_pending());
                if t_pending {
                    pending_n = pending_n + 1;
                }
                let take = match best_todo {
                    None => true,
                    Some(b) => {
                        let bt = &self.todos[b];
                        let b_pending = str_is(bt.status.as_str(), &lit_pending());
                        (t_pending && !b_pending) || (t_pending == b_pending && str_lt(
                            bt.created_at.as_str(),
                            t.created_at.as_str(),
                        ))
                    },
                };
                if take {
                    best_todo = Some(i);
                }
            }
            i = i + 1;
        }
        assert(self.todos@.take(self.todos@.len() as int) == self.todos@);
        let mut best_log: Option<usize> = None;
        let mut j: usize = 0;
        while j < self.logs.len()
            invariant
                j <= self.logs@.len(),
                self.wf(),
                best_log matches Some(b) ==> latest_log_of(self.logs@.take(j as int), m.id@) == Some(
                    b as int,
                ),
                best_log is None ==> latest_log_of(self.logs@.take(j as int), m.id@) is None,
            decreases self.logs.len() - j,
        {
            proof {
                lemma_latest_log_bound(self.logs@.take(j as int), m.id@);
            }
            assert(self.logs@.take(j + 1).drop_last() == self.logs@.take(j as int));
            let l = &self.logs[j];
            if opt_same(&l.matter_id, m.id.as_str()) {
                let take = match best_log {
                    None => true,
                    Some(b) => str_lt(self.logs[b].created_at.as_str(), l.created_at.as_str()),
                };
                if take {
                    best_log = Some(j);
                }
            }
            j = j + 1;
        }
        assert(self.logs@.take(self.logs@.len() as int) == self.logs@);
        proof {
            lemma_latest_log_bound(self.logs@, m.id@);
            lemma_latest_todo_bound(self.todos@, m.id@);
        }
        let (log_snip, log_time) = match best_log {
            Some(b) => (Some(self.logs[b].raw_content.clone()), Some(self.logs[b].created_at.clone())),
            None => (None, None),
        };
        let (todo_content, todo_due, todo_status) = match best_todo {
            Some(b) => (
                Some(self.todos[b].content.clone()),
                copy_opt(&self.todos[b].due_time),
                Some(self.todos[b].status.clone()),
            ),
            None => (None, None, None),
        };
        Matter {
            id: m.id.clone(),
            title: m.title.clone(),
            overview: m.overview.clone(),
            fact_summary: m.fact_summary.clone(),
            category: m.category.clone(),
            priority: m.priority.clone(),
            importance: m.importance,
            status: m.status.clone(),
            is_pinned: m.is_pinned,
            created_at: m.created_at.clone(),
            updated_at: m.updated_at.clone(),
            pending_todos_count: pending_n as i32,
            total_todos_count: total_n as i32,
            latest_log_snippet: log_snip,
            latest_log_time: log_time,
            latest_todo_content: todo_content,
            latest_todo_due_time: todo_due,
            latest_todo_status: todo_status,
            related_contacts: m.related_contacts.clone(),
        }
    }
}

/// Matter `old` after an edit from `m` at time `now`: the editable columns
/// come from `m`, the time of change is `now`.
pub open spec fn matter_edited(old: Matter, m: Matter, now: String) -> Matter {
    Matter {
        title: m.title,
        overview: m.overview,
        fact_summary: m.fact_summary,
        category: m.category,
        priority: m.priority,
        importance: m.importance,
        related_contacts: m.related_contacts,
        updated_at: now,
        ..old
    }
}

/// Matter `old` given status `status` at time `now`.
pub open spec fn matter_with_status(old: Matter, status: String, now: String) -> Matter {
    Matter { status: status, updated_at: now, ..old }
}

/// Matter `old` pinned or unpinned at time `now`.
pub open spec fn matter_pin_flipped(old: Matter, now: String) -> Matter {
    Matter { is_pinned: !old.is_pinned, updated_at: now, ..old }
}

/// Matter `old` marked as changed at time `now`.
pub open spec fn matter_touched(old: Matter, now: String) -> Matter {
    Matter { updated_at: now, ..old }
}

/// The matter table after marking matter `id` as changed at `now`.
pub open spec fn after_touch(ms: Seq<Matter>, id: Seq<char>, now: String) -> Seq<Matter> {
    match matter_pos(ms, id) {
        Some(i) => ms.update(i, matter_touched(ms[i], now)),
        None => ms,
    }
}

/// The time of change that matter `id` carries in table `after`, where
/// `before` is the table it was changed from.
pub open spec fn stamp(after: Seq<Matter>, before: Seq<Matter>, id: Seq<char>) -> String {
    match matter_pos(before, id) {
        Some(i) => after[i].updated_at,
        None => arbitrary(),
    }
}

/// Whether editing from `m` at `now` would break a column rule.
pub open spec fn edit_rejected(ms: Seq<Matter>, m: Matter, now: String) -> bool {
    matter_pos(ms, m.id@) matches Some(i) && !valid_matter(matter_edited(ms[i], m, now))
}

/// The matter table after an edit from `m` at `now`.
pub open spec fn after_edit(ms: Seq<Matter>, m: Matter, now: String) -> Seq<Matter> {
    match matter_pos(ms, m.id@) {
        Some(i) => ms.update(i, matter_edited(ms[i], m, now)),
        None => ms,
    }
}

/// The matter table after giving matter `id` status `st` at `now`.
pub open spec fn after_status(ms: Seq<Matter>, id: Seq<char>, st: String, now: String) -> Seq<Matter> {
    match matter_pos(ms, id) {
        Some(i) => ms.update(i, matter_with_status(ms[i], st, now)),
        None => ms,
    }
}

/// The matter table after pinning or unpinning matter `id` at `now`.
pub open spec fn after_pin(ms: Seq<Matter>, id: Seq<char>, now: String) -> Seq<Matter> {
    match matter_pos(ms, id) {
        Some(i) => ms.update(i, matter_pin_flipped(ms[i], now)),
        None => ms,
    }
}

/// Log `l` detached from matter `mid` when it was filed under it.
pub open spec fn log_detached(l: LogItem, mid: Seq<char>) -> LogItem {
    if opt_is(l.matter_id, mid) {
        LogItem { matter_id: None, ..l }
    } else {
        l
    }
}

/// Todo `t` detached from log `lid` when it came from it.
pub open spec fn todo_detached(t: TodoItem, lid: Seq<char>) -> TodoItem {
    if opt_is(t.log_id, lid) {
        TodoItem { log_id: None, ..t }
    } else {
        t
    }
}

/// Two matter tables list the same identifiers.
pub open spec fn same_matter_ids(a: Seq<Matter>, b: Seq<Matter>) -> bool {
    a.len() == b.len() && forall|i: int| 0 <= i < a.len() ==> #[trigger] a[i].id@ == b[i].id@
}

proof fn lemma_same_matter_ids(a: Seq<Matter>, b: Seq<Matter>, id: Seq<char>)
    requires
        same_matter_ids(a, b),
    ensures
        (matter_pos(a, id) is Some) == (matter_pos(b, id) is Some),
{
    if matter_pos(a, id) is Some {
        let i = choose|i: int| 0 <= i < a.len() && a[i].id@ == id;
        assert(b[i].id@ == id);
    }
    if matter_pos(b, id) is Some {
        let i = choose|i: int| 0 <= i < b.len() && b[i].id@ == id;
        assert(a[i].id@ == id);
    }
}

/// Changing matter rows in place, without changing identifiers or breaking
/// their column rules, keeps the store's rules.
proof fn lemma_wf_matters_replaced(
    ms: Seq<Matter>,
    ms2: Seq<Matter>,
    ls: Seq<LogItem>,
    ts: Seq<TodoItem>,
    ss: Seq<(String, String)>,
)
    requires
        tables_wf(ms, ls, ts, ss),
        same_matter_ids(ms, ms2),
        forall|i: int| 0 <= i < ms2.len() ==> valid_matter(#[trigger] ms2[i]),
    ensures
        tables_wf(ms2, ls, ts, ss),
{
    assert forall|i: int, j: int| 0 <= i < j < ms2.len() implies ms2[i].id@ != ms2[j].id@ by {
        assert(ms[i].id@ == ms2[i].id@ && ms[j].id@ == ms2[j].id@);
    }
    assert forall|i: int| 0 <= i < ls.len() && (#[trigger] ls[i]).matter_id is Some implies matter_pos(
        ms2,
        ls[i].matter_id->0@,
    ) is Some by {
        lemma_same_matter_ids(ms, ms2, ls[i].matter_id->0@);
    }
    assert forall|i: int| 0 <= i < ts.len() implies matter_pos(ms2, (#[trigger] ts[i]).matter_id@) is Some by {
        lemma_same_matter_ids(ms, ms2, ts[i].matter_id@);
    }
}

impl Database {
    /// Adds a matter.
    pub fn create_matter(&mut self, matter: &Matter) -> (r: Result<(), DbError>)
        requires
            old(self).wf(),
        ensures
            final(self).wf(),
            r is Ok <==> matter_pos(old(self).matters(), matter.id@) is None && valid_matter(*matter)
                && old(self).matters().len() + 1 < row_limit(),
            r is Ok ==> final(self).matters() == old(self).matters().push(*matter),
            r is Err ==> final(self).matters() == old(self).matters(),
            final(self).logs() == old(self).logs(),
            final(self).todos() == old(self).todos(),
            final(self).settings() == old(self).settings(),
    {
        if self.find_matter(matter.id.as_str()).is_some() || !check_matter(matter) {
            return Err(DbError::Constraint);
        }
        if self.matters.len() + 1 >= 0x7fff_0000 {
            return Err(DbError::Full);
        }
        let ghost ms = self.matters@;
        self.matters.push(matter.copy());
        proof {
            let ms2 = self.matters@;
            assert forall|i: int, j: int| 0 <= i < j < ms2.len() implies ms2[i].id@ != ms2[j].id@ by {
                if j == ms2.len() - 1 {
                    assert(ms2[i] == ms[i]);
                }
            }
            assert forall|id: Seq<char>| matter_pos(ms, id) is Some implies matter_pos(ms2, id) is Some by {
                let i = choose|i: int| 0 <= i < ms.len() && ms[i].id@ == id;
                assert(ms2[i] == ms[i]);
            }
        }
        Ok(())
    }

    /// The matter `id` with its figures.
    pub fn get_matter_by_id(&self, id: &str) -> (r: Result<Option<Matter>, DbError>)
        requires
            self.wf(),
        ensures
            r matches Ok(o) && match matter_pos(self.matters(), id@) {
                Some(i) => o == Some(rendered(self.matters()[i], self.logs(), self.todos())),
                None => o is None,
            },
    {
        match self.find_matter(id) {
            Some(i) => Ok(Some(self.render(&self.matters[i]))),
            None => Ok(None),
        }
    }

    /// Marks matter `id` as changed at time `now`.
    pub fn touch_matter_updated(&mut self, id: &str, now: &String)
        requires
            old(self).wf(),
        ensures
            final(self).wf(),
            final(self).matters() == after_touch(old(self).matters(), id@, *now),
            final(self).logs() == old(self).logs(),
            final(self).todos() == old(self).todos(),
            final(self).settings() == old(self).settings(),
    {
        if let Some(i) = self.find_matter(id) {
            let mut m = self.matters[i].copy();
            m.updated_at = now.clone();
            let ghost ms = self.matters@;
            self.matters.set(i, m);
            proof {
                assert(same_matter_ids(ms, self.matters@));
                lemma_wf_matters_replaced(ms, self.matters@, self.logs@, self.todos@, self.settings@);
            }
        }
    }

    /// Edits matter `matter.id` at time `now`: title, overview, facts,
    /// category, priority, importance and contacts.
    pub fn update_matter(&mut self, matter: &Matter, now: &String) -> (r: Result<(), DbError>)
        requires
            old(self).wf(),
        ensures
            final(self).wf(),
            r is Err <==> edit_rejected(old(self).matters(), *matter, *now),
            r is Ok ==> final(self).matters() == after_edit(old(self).matters(), *matter, *now),
            r is Err ==> final(self).matters() == old(self).matters(),
            final(self).logs() == old(self).logs(),
            final(self).todos() == old(self).todos(),
            final(self).settings() == old(self).settings(),
    {
        if let Some(i) = self.find_matter(matter.id.as_str()) {
            let old_m = self.matters[i].copy();
            let m = Matter {
                title: matter.title.clone(),
                overview: matter.overview.clone(),
                fact_summary: matter.fact_summary.clone(),
                category: matter.category.clone(),
                priority: matter.priority.clone(),
                importance: matter.importance,
                related_contacts: matter.related_contacts.clone(),
                updated_at: now.clone(),
                ..old_m
            };
            if !check_matter(&m) {
                return Err(DbError::Constraint);
            }
            let ghost ms = self.matters@;
            self.matters.set(i, m);
            proof {
                assert(same_matter_ids(ms, self.matters@));
                lemma_wf_matters_replaced(ms, self.matters@, self.logs@, self.todos@, self.settings@);
            }
        }
        Ok(())
    }

    /// Gives matter `id` the status `status` at time `now`.
    pub fn update_matter_status(&mut self, id: &str, status: &String, now: &String) -> (r: Result<(), DbError>)
        requires
            old(self).wf(),
        ensures
            final(self).wf(),
            r is Err <==> (matter_pos(old(self).matters(), id@) is Some && !valid_matter_status(status@)),
            r is Ok ==> final(self).matters() == after_status(old(self).matters(), id@, *status, *now),
            r is Err ==> final(self).matters() == old(self).matters(),
            final(self).logs() == old(self).logs(),
            final(self).todos() == old(self).todos(),
            final(self).settings() == old(self).settings(),
    {
        if let Some(i) = self.find_matter(id) {
            if !check_matter_status(status.as_str()) {
                return Err(DbError::Constraint);
            }
            let mut m = self.matters[i].copy();
            m.status = status.clone();
            m.updated_at = now.clone();
            let ghost ms = self.matters@;
            self.matters.set(i, m);
            proof {
                assert(same_matter_ids(ms, self.matters@));
                lemma_wf_matters_replaced(ms, self.matters@, self.logs@, self.todos@, self.settings@);
            }
        }
        Ok(())
    }

    /// Pins or unpins matter `id` at time `now`; gives whether it is pinned
    /// afterwards.
    pub fn toggle_matter_pinned(&mut self, id: &str, now: &String) -> (r: Result<bool, DbError>)
        requires
            old(self).wf(),
        ensures
            final(self).wf(),
            final(self).matters() == after_pin(old(self).matters(), id@, *now),
            match matter_pos(old(self).matters(), id@) {
                Some(i) => r == Ok::<bool, DbError>(!old(self).matters()[i].is_pinned),
                None => r matches Err(DbError::NoRows),
            },
            final(self).logs() == old(self).logs(),
            final(self).todos() == old(self).todos(),
            final(self).settings() == old(self).settings(),
    {
        match self.find_matter(id) {
            Some(i) => {
                let mut m = self.matters[i].copy();
                m.is_pinned = !m.is_pinned;
                m.updated_at = now.clone();
                let pinned = m.is_pinned;
                let ghost ms = self.matters@;
                self.matters.set(i, m);
                proof {
                    assert(same_matter_ids(ms, self.matters@));
                    lemma_wf_matters_replaced(ms, self.matters@, self.logs@, self.todos@, self.settings@);
                }
                Ok(pinned)
            },
            None => Err(DbError::NoRows),
        }
    }

}

/// Whether matter `m` is not the one with identifier `id`.
pub open spec fn matter_other(id: Seq<char>) -> spec_fn(Matter) -> bool {
    |m: Matter| m.id@ != id
}

/// Whether todo `t` does not belong to matter `mid`.
pub open spec fn todo_not_of(mid: Seq<char>) -> spec_fn(TodoItem) -> bool {
    |t: TodoItem| t.matter_id@ != mid
}

/// Whether log `l` is not the one with identifier `id`.
pub open spec fn log_other(id: Seq<char>) -> spec_fn(LogItem) -> bool {
    |l: LogItem| l.id@ != id
}

/// Whether todo `t` is not the one with identifier `id`.
pub open spec fn todo_other(id: Seq<char>) -> spec_fn(TodoItem) -> bool {
    |t: TodoItem| t.id@ != id
}

/// Deleting a matter and its todos, and detaching its logs, keeps the
/// store's rules.
proof fn lemma_delete_matter_wf(
    ms: Seq<Matter>,
    ls: Seq<LogItem>,
    ts: Seq<TodoItem>,
    ss: Seq<(String, String)>,
    id: Seq<char>,
)
    requires
        tables_wf(ms, ls, ts, ss),
    ensures
        tables_wf(
            keep(ms, matter_other(id)),
            ls.map_values(|l: LogItem| log_detached(l, id)),
            keep(ts, todo_not_of(id)),
            ss,
        ),
{
    let ms2 = keep(ms, matter_other(id));
    let ts2 = keep(ts, todo_not_of(id));
    let ls2 = ls.map_values(|l: LogItem| log_detached(l, id));
    lemma_keep(ms, matter_other(id));
    lemma_keep(ts, todo_not_of(id));
    lemma_keep_unique(ms, matter_other(id), |m: Matter| m.id@);
    lemma_keep_unique(ts, todo_not_of(id), |t: TodoItem| t.id@);
    assert forall|a: int| 0 <= a < ms2.len() implies valid_matter(#[trigger] ms2[a]) by {
        let b = choose|b: int| 0 <= b < ms.len() && ms[b] == ms2[a];
    }
    assert forall|mid: Seq<char>| mid != id && matter_pos(ms, mid) is Some implies matter_pos(
        ms2,
        mid,
    ) is Some by {
        let b = choose|b: int| 0 <= b < ms.len() && ms[b].id@ == mid;
        assert(matter_other(id)(ms[b]));
        let a = choose|a: int| 0 <= a < ms2.len() && ms2[a] == ms[b];
        assert(ms2[a].id@ == mid);
    }
    assert forall|a: int| 0 <= a < ls2.len() && (#[trigger] ls2[a]).matter_id is Some implies matter_pos(
        ms2,
        ls2[a].matter_id->0@,
    ) is Some by {
        assert(ls2[a] == log_detached(ls[a], id));
    }
    assert forall|a: int| 0 <= a < ts2.len() implies matter_pos(ms2, (#[trigger] ts2[a]).matter_id@) is Some by {
        let b = choose|b: int| 0 <= b < ts.len() && ts[b] == ts2[a];
        assert(todo_not_of(id)(ts2[a]));
    }
    assert forall|lid: Seq<char>| log_pos(ls, lid) is Some implies log_pos(ls2, lid) is Some by {
        let b = choose|b: int| 0 <= b < ls.len() && ls[b].id@ == lid;
        assert(ls2[b] == log_detached(ls[b], id));
    }
    assert forall|a: int, c: int| 0 <= a < c < ls2.len() implies ls2[a].id@ != ls2[c].id@ by {
        assert(ls2[a] == log_detached(ls[a], id));
        assert(ls2[c] == log_detached(ls[c], id));
    }
    assert forall|a: int| 0 <= a < ts2.len() && (#[trigger] ts2[a]).log_id is Some implies log_pos(
        ls2,
        ts2[a].log_id->0@,
    ) is Some by {
        let b = choose|b: int| 0 <= b < ts.len() && ts[b] == ts2[a];
    }
    assert forall|a: int| 0 <= a < ts2.len() implies valid_todo_status((#[trigger] ts2[a]).status@) by {
        let b = choose|b: int| 0 <= b < ts.len() && ts[b] == ts2[a];
    }
}

/// Deleting a log, and detaching its todos, keeps the store's rules.
proof fn lemma_delete_log_wf(
    ms: Seq<Matter>,
    ls: Seq<LogItem>,
    ts: Seq<TodoItem>,
    ss: Seq<(String, String)>,
    id: Seq<char>,
)
    requires
        tables_wf(ms, ls, ts, ss),
    ensures
        tables_wf(
            ms,
            keep(ls, log_other(id)),
            ts.map_values(|t: TodoItem| todo_detached(t, id)),
            ss,
        ),
{
    let ls2 = keep(ls, log_other(id));
    let ts2 = ts.map_values(|t: TodoItem| todo_detached(t, id));
    lemma_keep(ls, log_other(id));
    lemma_keep_unique(ls, log_other(id), |l: LogItem| l.id@);
    assert forall|a: int| 0 <= a < ls2.len() && (#[trigger] ls2[a]).matter_id is Some implies matter_pos(
        ms,
        ls2[a].matter_id->0@,
    ) is Some by {
        let b = choose|b: int| 0 <= b < ls.len() && ls[b] == ls2[a];
    }
    assert forall|a: int, c: int| 0 <= a < c < ts2.len() implies ts2[a].id@ != ts2[c].id@ by {
        assert(ts2[a] == todo_detached(ts[a], id));
        assert(ts2[c] == todo_detached(ts[c], id));
    }
    assert forall|a: int| 0 <= a < ts2.len() implies matter_pos(ms, (#[trigger] ts2[a]).matter_id@) is Some by {
        assert(ts2[a] == todo_detached(ts[a], id));
    }
    assert forall|a: int| 0 <= a < ts2.len() implies valid_todo_status((#[trigger] ts2[a]).status@) by {
        assert(ts2[a] == todo_detached(ts[a], id));
    }
    assert forall|a: int| 0 <= a < ts2.len() && (#[trigger] ts2[a]).log_id is Some implies log_pos(
        ls2,
        ts2[a].log_id->0@,
    ) is Some by {
        assert(ts2[a] == todo_detached(ts[a], id));
        let lid = ts2[a].log_id->0@;
        assert(lid != id);
        let b = choose|b: int| 0 <= b < ls.len() && ls[b].id@ == lid;
        assert(log_other(id)(ls[b]));
        let c = choose|c: int| 0 <= c < ls2.len() && ls2[c] == ls[b];
        assert(ls2[c].id@ == lid);
    }
}

impl Database {
    /// Deletes matter `id`, its todos, and files its logs under no matter,
    /// as the schema's cascade rules do.
    pub fn delete_matter(&mut self, id: &str) -> (r: Result<(), DbError>)
        requires
            old(self).wf(),
        ensures
            r is Ok,
            final(self).wf(),
            final(self).matters() == keep(old(self).matters(), matter_other(id@)),
            final(self).todos() == keep(old(self).todos(), todo_not_of(id@)),
            final(self).logs() == old(self).logs().map_values(|l: LogItem| log_detached(l, id@)),
            final(self).settings() == old(self).settings(),
    {
        let ghost ms = self.matters@;
        let ghost ls = self.logs@;
        let ghost ts = self.todos@;
        let mut new_ms: Vec<Matter> = Vec::new();
        let mut i: usize = 0;
        while i < self.matters.len()
            invariant
                i <= self.matters@.len(),
                self.matters@ == ms,
                new_ms@ == keep(ms.take(i as int), matter_other(id@)),
            decreases self.matters.len() - i,
        {
            assert(ms.take(i + 1).drop_last() == ms.take(i as int));
            if !same_text(self.matters[i].id.as_str(), id) {
                new_ms.push(self.matters[i].copy());
            }
            i = i + 1;
        }
        assert(ms.take(ms.len() as int) == ms);
        let mut new_ts: Vec<TodoItem> = Vec::new();
        let mut j: usize = 0;
        while j < self.todos.len()
            invariant
                j <= self.todos@.len(),
                self.todos@ == ts,
                new_ts@ == keep(ts.take(j as int), todo_not_of(id@)),
            decreases self.todos.len() - j,
        {
            assert(ts.take(j + 1).drop_last() == ts.take(j as int));
            if !same_text(self.todos[j].matter_id.as_str(), id) {
                new_ts.push(self.todos[j].copy());
            }
            j = j + 1;
        }
        assert(ts.take(ts.len() as int) == ts);
        let mut new_ls: Vec<LogItem> = Vec::new();
        let mut k: usize = 0;
        while k < self.logs.len()
            invariant
                k <= self.logs@.len(),
                self.logs@ == ls,
                new_ls@ == ls.take(k as int).map_values(|l: LogItem| log_detached(l, id@)),
            decreases self.logs.len() - k,
        {
            let mut l = self.logs[k].copy();
            if opt_same(&l.matter_id, id) {
                l.matter_id = None;
            }
            new_ls.push(l);
            assert(ls.take(k + 1).map_values(|l: LogItem| log_detached(l, id@)) =~= ls.take(
                k as int,
            ).map_values(|l: LogItem| log_detached(l, id@)).push(log_detached(ls[k as int], id@)));
            k = k + 1;
        }
        assert(ls.take(ls.len() as int) == ls);
        self.matters = new_ms;
        self.todos = new_ts;
        self.logs = new_ls;
        proof {
            lemma_delete_matter_wf(ms, ls, ts, self.settings@, id@);
        }
        Ok(())
    }

    /// Deletes log `id`; todos that came from it keep no log, as the
    /// schema's rule has it.
    pub fn delete_log(&mut self, id: &str) -> (r: Result<(), DbError>)
        requires
            old(self).wf(),
        ensures
            r is Ok,
            final(self).wf(),
            final(self).logs() == keep(old(self).logs(), log_other(id@)),
            final(self).todos() == old(self).todos().map_values(|t: TodoItem| todo_detached(t, id@)),
            final(self).matters() == old(self).matters(),
            final(self).settings() == old(self).settings(),
    {
        let ghost ls = self.logs@;
        let ghost ts = self.todos@;
        let mut new_ls: Vec<LogItem> = Vec::new();
        let mut i: usize = 0;
        while i < self.logs.len()
            invariant
                i <= self.logs@.len(),
                self.logs@ == ls,
                new_ls@ == keep(ls.take(i as int), log_other(id@)),
            decreases self.logs.len() - i,
        {
            assert(ls.take(i + 1).drop_last() == ls.take(i as int));
            if !same_text(self.logs[i].id.as_str(), id) {
                new_ls.push(self.logs[i].copy());
            }
            i = i + 1;
        }
        assert(ls.take(ls.len() as int) == ls);
        let mut new_ts: Vec<TodoItem> = Vec::new();
        let mut k: usize = 0;
        while k < self.todos.len()
            invariant
                k <= self.todos@.len(),
                self.todos@ == ts,
                new_ts@ == ts.take(k as int).map_values(|t: TodoItem| todo_detached(t, id@)),
            decreases self.todos.len() - k,
        {
            let mut t = self.todos[k].copy();
            if opt_same(&t.log_id, id) {
                t.log_id = None;
            }
            new_ts.push(t);
            assert(ts.take(k + 1).map_values(|t: TodoItem| todo_detached(t, id@)) =~= ts.take(
                k as int,
            ).map_values(|t: TodoItem| todo_detached(t, id@)).push(todo_detached(ts[k as int], id@)));
            k = k + 1;
        }
        assert(ts.take(ts.len() as int) == ts);
        self.logs = new_ls;
        self.todos = new_ts;
        proof {
            lemma_delete_log_wf(self.matters@, ls, ts, self.settings@, id@);
        }
        Ok(())
    }
}

/// Whether log `l` is filed under matter `mid`.
pub open spec fn log_of(mid: Seq<char>) -> spec_fn(LogItem) -> bool {
    |l: LogItem| opt_is(l.matter_id, mid)
}

/// Ordering key of a log: its creation time.
pub open spec fn log_time_key() -> spec_fn(LogItem) -> Seq<Seq<char>> {
    |l: LogItem| seq![l.created_at@]
}

/// One-part descending order.
pub open spec fn desc1() -> Seq<bool> {
    seq![true]
}

/// A key of the given parts.
pub fn key_of_parts(parts: Vec<Vec<char>>) -> (k: SortKey)
    ensures
        k.parts@ == parts@,
{
    SortKey { parts }
}

/// Log `log` may be added: new identifier, existing matter if any, room left.
pub open spec fn log_insertable(ms: Seq<Matter>, ls: Seq<LogItem>, log: LogItem) -> bool {
    &&& log_pos(ls, log.id@) is None
    &&& (log.matter_id is Some ==> matter_pos(ms, log.matter_id->0@) is Some)
    &&& ls.len() + 1 < row_limit()
}

impl Database {
    /// The logs of matter `matter_id`, latest first by creation time.
    pub fn get_logs_by_matter(&self, matter_id: &str) -> (r: Result<Vec<LogItem>, DbError>)
        requires
            self.wf(),
        ensures
            r matches Ok(v) && is_reordering(v@, keep(self.logs(), log_of(matter_id@))) && forall|
                p: int,
                q: int,
            |
                0 <= p < q < v@.len() ==> key_le(
                    log_time_key()(#[trigger] v@[p]),
                    log_time_key()(#[trigger] v@[q]),
                    desc1(),
                ),
    {
        let ghost ls = self.logs@;
        let mut rows: Vec<LogItem> = Vec::new();
        let mut keys: Vec<SortKey> = Vec::new();
        let mut i: usize = 0;
        while i < self.logs.len()
            invariant
                i <= self.logs@.len(),
                self.logs@ == ls,
                rows@ == keep(ls.take(i as int), log_of(matter_id@)),
                keys@.len() == rows@.len(),
                forall|a: int| 0 <= a < keys@.len() ==> keys@[a].parts@.len() >= 1,
                forall|a: int|
                    0 <= a < keys@.len() ==> #[trigger] keys@[a].view_parts() == log_time_key()(
                        rows@[a],
                    ),
            decreases self.logs.len() - i,
        {
            assert(ls.take(i + 1).drop_last() == ls.take(i as int));
            if opt_same(&self.logs[i].matter_id, matter_id) {
                let l = self.logs[i].copy();
                let mut parts: Vec<Vec<char>> = Vec::new();
                parts.push(to_chars(l.created_at.as_str()));
                let k = key_of_parts(parts);
                assert(k.view_parts() =~= log_time_key()(l));
                rows.push(l);
                keys.push(k);
            }
            i = i + 1;
        }
        assert(ls.take(ls.len() as int) == ls);
        let desc: [bool; 1] = [true];
        assert(desc@ == desc1());
        Ok(sort_rows(rows, &keys, &desc, Ghost(log_time_key())))
    }

    /// Adds log `log` at time `now`, marking its matter as changed.
    pub fn create_log(&mut self, log: &LogItem, now: &String) -> (r: Result<(), DbError>)
        requires
            old(self).wf(),
        ensures
            final(self).wf(),
            r is Ok <==> log_insertable(old(self).matters(), old(self).logs(), *log),
            r is Ok ==> final(self).logs() == old(self).logs().push(*log) && final(self).matters()
                == match log.matter_id {
                Some(mid) => after_touch(old(self).matters(), mid@, *now),
                None => old(self).matters(),
            },
            r is Err ==> final(self).logs() == old(self).logs() && final(self).matters() == old(
                self,
            ).matters(),
            final(self).todos() == old(self).todos(),
            final(self).settings() == old(self).settings(),
    {
        if self.find_log(log.id.as_str()).is_some() {
            return Err(DbError::Constraint);
        }
        match &log.matter_id {
            Some(mid) => {
                if self.find_matter(mid.as_str()).is_none() {
                    return Err(DbError::Constraint);
                }
            },
            None => {},
        }
        if self.logs.len() + 1 >= 0x7fff_0000 {
            return Err(DbError::Full);
        }
        let ghost ls = self.logs@;
        self.logs.push(log.copy());
        proof {
            let ls2 = self.logs@;
            assert forall|i: int, j: int| 0 <= i < j < ls2.len() implies ls2[i].id@ != ls2[j].id@ by {
                if j == ls2.len() - 1 {
                    assert(ls2[i] == ls[i]);
                }
            }
            assert forall|lid: Seq<char>| log_pos(ls, lid) is Some implies log_pos(ls2, lid) is Some by {
                let i = choose|i: int| 0 <= i < ls.len() && ls[i].id@ == lid;
                assert(ls2[i] == ls[i]);
            }
            assert forall|i: int| 0 <= i < ls2.len() && (#[trigger] ls2[i]).matter_id is Some implies matter_pos(
                self.matters@,
                ls2[i].matter_id->0@,
            ) is Some by {
                if i < ls.len() {
                    assert(ls2[i] == ls[i]);
                }
            }
        }
        match &log.matter_id {
            Some(mid) => {
                self.touch_matter_updated(mid.as_str(), now);
            },
            None => {},
        }
        Ok(())
    }

}

/// Tests `valid_matter(*m)`.
pub fn check_matter(m: &Matter) -> (r: bool)
    ensures
        r == valid_matter(*m),
{
    let cat_ok = str_is(m.category.as_str(), &lit_work()) || str_is(m.category.as_str(), &lit_life());
    let pri_ok = str_is(m.priority.as_str(), &lit_high()) || str_is(m.priority.as_str(), &lit_medium())
        || str_is(m.priority.as_str(), &lit_low());
    let imp_ok = 1 <= m.importance && m.importance <= 5;
    cat_ok && pri_ok && imp_ok && check_matter_status(m.status.as_str())
}

/// Tests `valid_matter_status(s@)`.
pub fn check_matter_status(s: &str) -> (r: bool)
    ensures
        r == valid_matter_status(s@),
{
    str_is(s, &lit_active()) || str_is(s, &lit_pending()) || str_is(s, &lit_completed())
        || str_is(s, &lit_archived())
}

/// Tests `valid_todo_status(s@)`.
pub fn check_todo_status(s: &str) -> (r: bool)
    ensures
        r == valid_todo_status(s@),
{
    str_is(s, &lit_pending()) || str_is(s, &lit_completed())
}


/// A due or reminder time as the store keeps it (see `normalize_time_spec`).
pub open spec fn norm(t: Option<Seq<char>>) -> Option<Seq<char>> {
    normalize_time_spec(t)
}

/// The reminder kept for a todo: its own, normalised, or else its due time.
pub open spec fn kept_reminder(reminder: Option<Seq<char>>, due: Option<Seq<char>>) -> Option<Seq<char>> {
    match norm(reminder) {
        Some(r) => Some(r),
        None => norm(due),
    }
}

/// The row the store keeps for todo `v`: times normalised, no matter title.
pub open spec fn stored_view(v: TodoRowView) -> TodoRowView {
    TodoRowView {
        due_time: norm(v.due_time),
        reminder_time: kept_reminder(v.reminder_time, v.due_time),
        matter_title: None,
        ..v
    }
}

/// Todo `t` may be added: new identifier, existing matter, existing log if
/// any, allowed status, room left.
pub open spec fn todo_insertable(ms: Seq<Matter>, ls: Seq<LogItem>, ts: Seq<TodoItem>, t: TodoItem) -> bool {
    &&& todo_pos(ts, t.id@) is None
    &&& matter_pos(ms, t.matter_id@) is Some
    &&& (t.log_id is Some ==> log_pos(ls, t.log_id->0@) is Some)
    &&& valid_todo_status(t.status@)
    &&& ts.len() + 1 < row_limit()
}

/// Replacing a todo row in place by one with the same identifier, matter,
/// log and an allowed status keeps the store's rules.
proof fn lemma_wf_todo_replaced(
    ms: Seq<Matter>,
    ls: Seq<LogItem>,
    ts: Seq<TodoItem>,
    ss: Seq<(String, String)>,
    i: int,
    t: TodoItem,
)
    requires
        tables_wf(ms, ls, ts, ss),
        0 <= i < ts.len(),
        t.id@ == ts[i].id@,
        t.matter_id@ == ts[i].matter_id@,
        opt_seq(t.log_id) == opt_seq(ts[i].log_id),
        valid_todo_status(t.status@),
    ensures
        tables_wf(ms, ls, ts.update(i, t), ss),
{
    let ts2 = ts.update(i, t);
    assert forall|a: int, b: int| 0 <= a < b < ts2.len() implies ts2[a].id@ != ts2[b].id@ by {
        assert(ts2[a].id@ == ts[a].id@ && ts2[b].id@ == ts[b].id@);
    }
    assert forall|a: int| 0 <= a < ts2.len() implies matter_pos(ms, (#[trigger] ts2[a]).matter_id@) is Some by {
        assert(ts2[a].matter_id@ == ts[a].matter_id@);
    }
    assert forall|a: int| 0 <= a < ts2.len() && (#[trigger] ts2[a]).log_id is Some implies log_pos(
        ls,
        ts2[a].log_id->0@,
    ) is Some by {
        assert(opt_seq(ts2[a].log_id) == opt_seq(ts[a].log_id));
    }
    assert forall|a: int| 0 <= a < ts2.len() implies valid_todo_status((#[trigger] ts2[a]).status@) by {
        if a != i {
            assert(ts2[a] == ts[a]);
        }
    }
}

/// The view of todo `i` of `ts` after `f`, the others unchanged.
pub open spec fn views_updated(ts: Seq<TodoItem>, id: Seq<char>, f: spec_fn(TodoRowView) -> TodoRowView) -> Seq<
    TodoRowView,
> {
    match todo_pos(ts, id) {
        Some(i) => todo_views(ts).update(i, f(ts[i]@)),
        None => todo_views(ts),
    }
}

/// A todo marked done at `now`, or open again.
pub open spec fn status_set(done: bool, now: Seq<char>) -> spec_fn(TodoRowView) -> TodoRowView {
    |v: TodoRowView|
        if done {
            TodoRowView { status: completed(), completed_at: Some(now), ..v }
        } else {
            TodoRowView { status: pending(), completed_at: None, ..v }
        }
}

/// A todo with its focus flipped.
pub open spec fn focus_flipped() -> spec_fn(TodoRowView) -> TodoRowView {
    |v: TodoRowView| TodoRowView { is_focused: !v.is_focused, ..v }
}

/// A todo given a new reminder, not yet sent.
pub open spec fn reminder_set(reminder: Option<Seq<char>>) -> spec_fn(TodoRowView) -> TodoRowView {
    |v: TodoRowView| TodoRowView { reminder_time: norm(reminder), is_reminder_sent: false, ..v }
}

/// A todo edited: new text and times, reminder not yet sent.
pub open spec fn todo_edited(content: Seq<char>, due: Option<Seq<char>>, reminder: Option<Seq<char>>) -> spec_fn(
    TodoRowView,
) -> TodoRowView {
    |v: TodoRowView|
        TodoRowView {
            content: content,
            due_time: norm(due),
            reminder_time: kept_reminder(reminder, due),
            is_reminder_sent: false,
            ..v
        }
}

/// A todo whose reminder was sent.
pub open spec fn reminder_sent() -> spec_fn(TodoRowView) -> TodoRowView {
    |v: TodoRowView| TodoRowView { is_reminder_sent: true, ..v }
}

impl Database {
    /// Replaces todo `i` by `t`, which keeps its identifier, matter, log and
    /// an allowed status.
    fn replace_todo(&mut self, i: usize, t: TodoItem)
        requires
            old(self).wf(),
            i < old(self).todos().len(),
            t.id@ == old(self).todos()[i as int].id@,
            t.matter_id@ == old(self).todos()[i as int].matter_id@,
            opt_seq(t.log_id) == opt_seq(old(self).todos()[i as int].log_id),
            valid_todo_status(t.status@),
        ensures
            final(self).wf(),
            final(self).todos() == old(self).todos().update(i as int, t),
            final(self).matters() == old(self).matters(),
            final(self).logs() == old(self).logs(),
            final(self).settings() == old(self).settings(),
    {
        let ghost ts = self.todos@;
        proof {
            lemma_wf_todo_replaced(self.matters@, self.logs@, ts, self.settings@, i as int, t);
        }
        self.todos.set(i, t);
    }

    /// Adds todo `todo` at time `now`, with its times normalised and its
    /// matter marked as changed.
    pub fn create_todo(&mut self, todo: &TodoItem, now: &String) -> (r: Result<(), DbError>)
        requires
            old(self).wf(),
        ensures
            final(self).wf(),
            r is Ok <==> todo_insertable(old(self).matters(), old(self).logs(), old(self).todos(), *todo),
            r is Ok ==> todo_views(final(self).todos()) == todo_views(old(self).todos()).push(
                stored_view(todo@),
            ) && final(self).matters() == after_touch(old(self).matters(), todo.matter_id@, *now),
            r is Err ==> final(self).todos() == old(self).todos() && final(self).matters() == old(
                self,
            ).matters(),
            final(self).logs() == old(self).logs(),
            final(self).settings() == old(self).settings(),
    {
        if self.find_todo(todo.id.as_str()).is_some() || self.find_matter(todo.matter_id.as_str()).is_none() {
            return Err(DbError::Constraint);
        }
        match &todo.log_id {
            Some(lid) => {
                if self.find_log(lid.as_str()).is_none() {
                    return Err(DbError::Constraint);
                }
            },
            None => {},
        }
        if !check_todo_status(todo.status.as_str()) {
            return Err(DbError::Constraint);
        }
        if self.todos.len() + 1 >= 0x7fff_0000 {
            return Err(DbError::Full);
        }
        let due = normalize_time(copy_opt(&todo.due_time));
        let reminder = match normalize_time(copy_opt(&todo.reminder_time)) {
            Some(r) => Some(r),
            None => copy_opt(&due),
        };
        let row = TodoItem {
            id: todo.id.clone(),
            matter_id: todo.matter_id.clone(),
            log_id: copy_opt(&todo.log_id),
            content: todo.content.clone(),
            due_time: due,
            reminder_time: reminder,
            is_reminder_sent: todo.is_reminder_sent,
            status: todo.status.clone(),
            is_focused: todo.is_focused,
            created_at: todo.created_at.clone(),
            completed_at: copy_opt(&todo.completed_at),
            matter_title: None,
        };
        assert(row@ == stored_view(todo@));
        let ghost ts = self.todos@;
        self.todos.push(row);
        proof {
            let ts2 = self.todos@;
            assert(todo_views(ts2) =~= todo_views(ts).push(stored_view(todo@)));
            assert forall|i: int, j: int| 0 <= i < j < ts2.len() implies ts2[i].id@ != ts2[j].id@ by {
                if j == ts2.len() - 1 {
                    assert(ts2[i] == ts[i]);
                }
            }
            assert forall|i: int| 0 <= i < ts2.len() implies matter_pos(self.matters@, (#[trigger] ts2[i]).matter_id@)
                is Some by {
                if i < ts.len() {
                    assert(ts2[i] == ts[i]);
                }
            }
            assert forall|i: int| 0 <= i < ts2.len() && (#[trigger] ts2[i]).log_id is Some implies log_pos(
                self.logs@,
                ts2[i].log_id->0@,
            ) is Some by {
                if i < ts.len() {
                    assert(ts2[i] == ts[i]);
                }
            }
            assert forall|i: int| 0 <= i < ts2.len() implies valid_todo_status((#[trigger] ts2[i]).status@) by {
                if i < ts.len() {
                    assert(ts2[i] == ts[i]);
                }
            }
        }
        self.touch_matter_updated(todo.matter_id.as_str(), now);
        Ok(())
    }

    /// Marks todo `id` done at `now`, or open again.
    pub fn toggle_todo_status(&mut self, id: &str, completed: bool, now: &String) -> (r: Result<(), DbError>)
        requires
            old(self).wf(),
        ensures
            r is Ok,
            final(self).wf(),
            todo_views(final(self).todos()) == views_updated(old(self).todos(), id@, status_set(completed, now@)),
            final(self).matters() == old(self).matters(),
            final(self).logs() == old(self).logs(),
            final(self).settings() == old(self).settings(),
    {
        if let Some(i) = self.find_todo(id) {
            let mut t = self.todos[i].copy();
            if completed {
                t.status = crate::text::from_chars(&lit_completed());
                t.completed_at = Some(now.clone());
            } else {
                t.status = crate::text::from_chars(&lit_pending());
                t.completed_at = None;
            }
            let ghost ts = self.todos@;
            assert(t@ == status_set(completed, now@)(ts[i as int]@));
            self.replace_todo(i, t);
            assert(todo_views(self.todos@) =~= todo_views(ts).update(i as int, status_set(completed, now@)(ts[i as int]@)));
        } else {
            assert(todo_views(self.todos@) == views_updated(self.todos@, id@, status_set(completed, now@)));
        }
        Ok(())
    }
}


/// The completion time todo `id` carries in table `after`, where `before`
/// is the table it was changed from.
pub open spec fn completion_stamp(after: Seq<TodoItem>, before: Seq<TodoItem>, id: Seq<char>) -> Seq<char> {
    match todo_pos(before, id) {
        Some(i) => match after[i].completed_at {
            Some(c) => c@,
            None => Seq::empty(),
        },
        None => Seq::empty(),
    }
}

/// The matter table after marking the matter of todo `id` as changed, when
/// that todo exists.
pub open spec fn touch_todo_matter(ms: Seq<Matter>, ts: Seq<TodoItem>, id: Seq<char>, now: String) -> Seq<Matter> {
    match todo_pos(ts, id) {
        Some(i) => after_touch(ms, ts[i].matter_id@, now),
        None => ms,
    }
}

/// Removing a todo keeps the store's rules.
proof fn lemma_delete_todo_wf(
    ms: Seq<Matter>,
    ls: Seq<LogItem>,
    ts: Seq<TodoItem>,
    ss: Seq<(String, String)>,
    id: Seq<char>,
)
    requires
        tables_wf(ms, ls, ts, ss),
    ensures
        tables_wf(ms, ls, keep(ts, todo_other(id)), ss),
{
    let ts2 = keep(ts, todo_other(id));
    lemma_keep(ts, todo_other(id));
    lemma_keep_unique(ts, todo_other(id), |t: TodoItem| t.id@);
    assert forall|a: int| 0 <= a < ts2.len() implies matter_pos(ms, (#[trigger] ts2[a]).matter_id@) is Some by {
        let b = choose|b: int| 0 <= b < ts.len() && ts[b] == ts2[a];
    }
    assert forall|a: int| 0 <= a < ts2.len() && (#[trigger] ts2[a]).log_id is Some implies log_pos(
        ls,
        ts2[a].log_id->0@,
    ) is Some by {
        let b = choose|b: int| 0 <= b < ts.len() && ts[b] == ts2[a];
    }
    assert forall|a: int| 0 <= a < ts2.len() implies valid_todo_status((#[trigger] ts2[a]).status@) by {
        let b = choose|b: int| 0 <= b < ts.len() && ts[b] == ts2[a];
    }
}

impl Database {
    /// Focuses or unfocuses todo `id`; gives whether it is focused
    /// afterwards.
    pub fn toggle_todo_focus(&mut self, id: &str) -> (r: Result<bool, DbError>)
        requires
            old(self).wf(),
        ensures
            final(self).wf(),
            todo_views(final(self).todos()) == views_updated(old(self).todos(), id@, focus_flipped()),
            match todo_pos(old(self).todos(), id@) {
                Some(i) => r == Ok::<bool, DbError>(!old(self).todos()[i].is_focused),
                None => r matches Err(DbError::NoRows),
            },
            final(self).matters() == old(self).matters(),
            final(self).logs() == old(self).logs(),
            final(self).settings() == old(self).settings(),
    {
        match self.find_todo(id) {
            Some(i) => {
                let mut t = self.todos[i].copy();
                t.is_focused = !t.is_focused;
                let f = t.is_focused;
                let ghost ts = self.todos@;
                self.replace_todo(i, t);
                assert(todo_views(self.todos@) =~= todo_views(ts).update(i as int, focus_flipped()(ts[i as int]@)));
                Ok(f)
            },
            None => Err(DbError::NoRows),
        }
    }

    /// Gives todo `id` a new reminder, normalised and not yet sent.
    pub fn update_todo_reminder(&mut self, id: &str, reminder_time: Option<String>) -> (r: Result<(), DbError>)
        requires
            old(self).wf(),
        ensures
            r is Ok,
            final(self).wf(),
            todo_views(final(self).todos()) == views_updated(
                old(self).todos(),
                id@,
                reminder_set(opt_seq(reminder_time)),
            ),
            final(self).matters() == old(self).matters(),
            final(self).logs() == old(self).logs(),
            final(self).settings() == old(self).settings(),
    {
        let clean = normalize_time(reminder_time);
        if let Some(i) = self.find_todo(id) {
            let mut t = self.todos[i].copy();
            t.reminder_time = clean;
            t.is_reminder_sent = false;
            let ghost ts = self.todos@;
            self.replace_todo(i, t);
            assert(todo_views(self.todos@) =~= todo_views(ts).update(
                i as int,
                reminder_set(opt_seq(reminder_time))(ts[i as int]@),
            ));
        }
        Ok(())
    }

    /// Marks the reminder of todo `id` as sent.
    pub fn mark_reminder_sent(&mut self, id: &str) -> (r: Result<(), DbError>)
        requires
            old(self).wf(),
        ensures
            r is Ok,
            final(self).wf(),
            todo_views(final(self).todos()) == views_updated(old(self).todos(), id@, reminder_sent()),
            final(self).matters() == old(self).matters(),
            final(self).logs() == old(self).logs(),
            final(self).settings() == old(self).settings(),
    {
        if let Some(i) = self.find_todo(id) {
            let mut t = self.todos[i].copy();
            t.is_reminder_sent = true;
            let ghost ts = self.todos@;
            self.replace_todo(i, t);
            assert(todo_views(self.todos@) =~= todo_views(ts).update(i as int, reminder_sent()(ts[i as int]@)));
        }
        Ok(())
    }

    /// Edits todo `id` at `now`: new text, normalised due time, reminder
    /// (its own or else the due time), not yet sent; marks its matter as
    /// changed.
    pub fn update_todo(
        &mut self,
        id: &str,
        content: &str,
        due_time: Option<String>,
        reminder_time: Option<String>,
        now: &String,
    ) -> (r: Result<(), DbError>)
        requires
            old(self).wf(),
        ensures
            r is Ok,
            final(self).wf(),
            todo_views(final(self).todos()) == views_updated(
                old(self).todos(),
                id@,
                todo_edited(content@, opt_seq(due_time), opt_seq(reminder_time)),
            ),
            final(self).matters() == touch_todo_matter(old(self).matters(), old(self).todos(), id@, *now),
            final(self).logs() == old(self).logs(),
            final(self).settings() == old(self).settings(),
    {
        let ghost due_v = opt_seq(due_time);
        let ghost rem_v = opt_seq(reminder_time);
        let clean_due = normalize_time(due_time);
        let clean_reminder = match normalize_time(reminder_time) {
            Some(r) => Some(r),
            None => copy_opt(&clean_due),
        };
        if let Some(i) = self.find_todo(id) {
            let mut t = self.todos[i].copy();
            t.content = String::from_str(content);
            t.due_time = clean_due;
            t.reminder_time = clean_reminder;
            t.is_reminder_sent = false;
            let ghost ts = self.todos@;
            let mid = t.matter_id.clone();
            self.replace_todo(i, t);
            assert(todo_views(self.todos@) =~= todo_views(ts).update(
                i as int,
                todo_edited(content@, due_v, rem_v)(ts[i as int]@),
            ));
            self.touch_matter_updated(mid.as_str(), now);
        }
        Ok(())
    }

    /// Deletes todo `id` at `now`, marking its matter as changed.
    pub fn delete_todo(&mut self, id: &str, now: &String) -> (r: Result<(), DbError>)
        requires
            old(self).wf(),
        ensures
            r is Ok,
            final(self).wf(),
            final(self).todos() == keep(old(self).todos(), todo_other(id@)),
            final(self).matters() == touch_todo_matter(old(self).matters(), old(self).todos(), id@, *now),
            final(self).logs() == old(self).logs(),
            final(self).settings() == old(self).settings(),
    {
        let found = self.find_todo(id);
        let mid = match found {
            Some(i) => Some(self.todos[i].matter_id.clone()),
            None => None,
        };
        let ghost ts = self.todos@;
        let mut new_ts: Vec<TodoItem> = Vec::new();
        let mut k: usize = 0;
        while k < self.todos.len()
            invariant
                k <= self.todos@.len(),
                self.todos@ == ts,
                new_ts@ == keep(ts.take(k as int), todo_other(id@)),
            decreases self.todos.len() - k,
        {
            assert(ts.take(k + 1).drop_last() == ts.take(k as int));
            if !same_text(self.todos[k].id.as_str(), id) {
                new_ts.push(self.todos[k].copy());
            }
            k = k + 1;
        }
        assert(ts.take(ts.len() as int) == ts);
        self.todos = new_ts;
        proof {
            lemma_delete_todo_wf(self.matters@, self.logs@, ts, self.settings@, id@);
        }
        if let Some(m) = mid {
            self.touch_matter_updated(m.as_str(), now);
        }
        Ok(())
    }

    /// Normalises a due or reminder time (see `normalize_time_spec`).
    pub fn normalize_todo_time(time_opt: Option<String>) -> (r: Option<String>)
        ensures
            opt_seq(r) == normalize_time_spec(opt_seq(time_opt)),
    {
        normalize_time(time_opt)
    }
}


/// `"1"` for true, `"0"` for false: how the store orders a flag.
pub open spec fn bool_text(b: bool) -> Seq<char> {
    if b {
        seq!['1']
    } else {
        seq!['0']
    }
}

/// The text of an optional text, empty when absent.
pub open spec fn opt_text(o: Option<Seq<char>>) -> Seq<char> {
    match o {
        Some(t) => t,
        None => Seq::empty(),
    }
}

/// The title of matter `mid`, if it exists.
pub open spec fn title_of(ms: Seq<Matter>, mid: Seq<char>) -> Option<Seq<char>> {
    match matter_pos(ms, mid) {
        Some(i) => Some(ms[i].title@),
        None => None,
    }
}

/// Todo `t` as the store reads it back: with its matter's title.
pub open spec fn rendered_todo(t: TodoItem, ms: Seq<Matter>) -> TodoRowView {
    TodoRowView { matter_title: title_of(ms, t.matter_id@), ..t@ }
}

/// The todos of `ts` read back with their matters' titles.
pub open spec fn rendered_todos(ts: Seq<TodoItem>, ms: Seq<Matter>) -> Seq<TodoRowView> {
    ts.map_values(|t: TodoItem| rendered_todo(t, ms))
}

/// Whether todo `t` belongs to matter `mid`.
pub open spec fn todo_of(mid: Seq<char>) -> spec_fn(TodoItem) -> bool {
    |t: TodoItem| t.matter_id@ == mid
}

/// The order of a matter's todos: focused first, then by status (completed
/// before pending, as text), then those without a due time, then by due
/// time.
pub open spec fn matter_todo_key() -> spec_fn(TodoRowView) -> Seq<Seq<char>> {
    |v: TodoRowView|
        seq![
            bool_text(v.is_focused),
            v.status,
            if v.due_time is None { seq!['0'] } else { seq!['1'] },
            opt_text(v.due_time),
        ]
}

/// Which parts of `matter_todo_key` run downwards.
pub open spec fn matter_todo_desc() -> Seq<bool> {
    seq![true, false, false, false]
}

/// The order of all todos: focused first, then by status, then by due time
/// with the todos without one last, then the latest created first.
pub open spec fn all_todo_key() -> spec_fn(TodoRowView) -> Seq<Seq<char>> {
    |v: TodoRowView|
        seq![
            bool_text(v.is_focused),
            v.status,
            if v.due_time is None { seq!['1'] } else { seq!['0'] },
            opt_text(v.due_time),
            v.created_at,
        ]
}

/// Which parts of `all_todo_key` run downwards.
pub open spec fn all_todo_desc() -> Seq<bool> {
    seq![true, false, false, false, true]
}

/// Whether the views are ordered by `key` with directions `desc`.
pub open spec fn ordered_by(v: Seq<TodoRowView>, key: spec_fn(TodoRowView) -> Seq<Seq<char>>, desc: Seq<bool>) -> bool {
    forall|p: int, q: int| 0 <= p < q < v.len() ==> key_le(key(#[trigger] v[p]), key(#[trigger] v[q]), desc)
}

/// The characters of `"1"` or `"0"`.
fn bool_chars(b: bool) -> (r: Vec<char>)
    ensures
        r@ == bool_text(b),
{
    let mut r: Vec<char> = Vec::new();
    r.push(if b { '1' } else { '0' });
    assert(r@ =~= bool_text(b));
    r
}

/// The characters of an optional text.
fn opt_chars(o: &Option<String>) -> (r: Vec<char>)
    ensures
        r@ == opt_text(opt_seq(*o)),
{
    match o {
        Some(t) => to_chars(t.as_str()),
        None => Vec::new(),
    }
}

/// The sort key of a todo read back: `matter_todo_key`, or `all_todo_key`
/// when `all` holds.
fn todo_key_vec(t: &TodoItem, all: bool) -> (k: SortKey)
    ensures
        k.view_parts() == if all { all_todo_key()(t@) } else { matter_todo_key()(t@) },
        k.parts@.len() == if all { 5nat } else { 4nat },
{
    let mut parts: Vec<Vec<char>> = Vec::new();
    parts.push(bool_chars(t.is_focused));
    parts.push(to_chars(t.status.as_str()));
    let has_due = t.due_time.is_some();
    let flag = if all { !has_due } else { has_due };
    parts.push(bool_chars(flag));
    parts.push(opt_chars(&t.due_time));
    if all {
        parts.push(to_chars(t.created_at.as_str()));
    }
    let k = key_of_parts(parts);
    assert(k.view_parts() =~= if all { all_todo_key()(t@) } else { matter_todo_key()(t@) });
    k
}

impl Database {
    /// Todo `t` read back with its matter's title.
    fn render_todo(&self, t: &TodoItem) -> (r: TodoItem)
        requires
            self.wf(),
        ensures
            r@ == rendered_todo(*t, self.matters()),
    {
        let title = match self.find_matter(t.matter_id.as_str()) {
            Some(i) => Some(self.matters[i].title.clone()),
            None => None,
        };
        TodoItem { matter_title: title, ..t.copy() }
    }

    /// Sorts read-back todos by the matter order, or by the order of all
    /// todos when `all` holds.
    fn sort_todos(rows: Vec<TodoItem>, all: bool) -> (r: Vec<TodoItem>)
        ensures
            is_reordering(todo_views(r@), todo_views(rows@)),
            all ==> ordered_by(todo_views(r@), all_todo_key(), all_todo_desc()),
            !all ==> ordered_by(todo_views(r@), matter_todo_key(), matter_todo_desc()),
    {
        let ghost key_of = if all {
            |t: TodoItem| all_todo_key()(t@)
        } else {
            |t: TodoItem| matter_todo_key()(t@)
        };
        let mut keys: Vec<SortKey> = Vec::new();
        let mut i: usize = 0;
        while i < rows.len()
            invariant
                i <= rows@.len(),
                keys@.len() == i,
                key_of == if all {
                    |t: TodoItem| all_todo_key()(t@)
                } else {
                    |t: TodoItem| matter_todo_key()(t@)
                },
                forall|a: int| 0 <= a < i ==> keys@[a].parts@.len() >= if all { 5nat } else { 4nat },
                forall|a: int| 0 <= a < i ==> #[trigger] keys@[a].view_parts() == key_of(rows@[a]),
            decreases rows.len() - i,
        {
            keys.push(todo_key_vec(&rows[i], all));
            i = i + 1;
        }
        let r = if all {
            let desc: [bool; 5] = [true, false, false, false, true];
            assert(desc@ == all_todo_desc());
            sort_rows(rows, &keys, &desc, Ghost(key_of))
        } else {
            let desc: [bool; 4] = [true, false, false, false];
            assert(desc@ == matter_todo_desc());
            sort_rows(rows, &keys, &desc, Ghost(key_of))
        };
        proof {
            lemma_reordering_map(r@, rows@, |t: TodoItem| t@);
            assert(todo_views(r@) == r@.map_values(|t: TodoItem| t@));
        }
        assert forall|p: int, q: int| 0 <= p < q < todo_views(r@).len() implies (if all {
            key_le(all_todo_key()(#[trigger] todo_views(r@)[p]), all_todo_key()(#[trigger] todo_views(r@)[q]), all_todo_desc())
        } else {
            key_le(matter_todo_key()(todo_views(r@)[p]), matter_todo_key()(todo_views(r@)[q]), matter_todo_desc())
        }) by {
            assert(todo_views(r@)[p] == r@[p]@);
            assert(todo_views(r@)[q] == r@[q]@);
        }
        r
    }

    /// The todos of matter `matter_id`, with its title, in the matter order.
    pub fn get_todos_by_matter(&self, matter_id: &str) -> (r: Result<Vec<TodoItem>, DbError>)
        requires
            self.wf(),
        ensures
            r matches Ok(v) && is_reordering(
                todo_views(v@),
                rendered_todos(keep(self.todos(), todo_of(matter_id@)), self.matters()),
            ) && ordered_by(todo_views(v@), matter_todo_key(), matter_todo_desc()),
    {
        let ghost ts = self.todos@;
        let ghost ms = self.matters@;
        let mut rows: Vec<TodoItem> = Vec::new();
        let mut i: usize = 0;
        while i < self.todos.len()
            invariant
                i <= self.todos@.len(),
                self.todos@ == ts,
                self.matters@ == ms,
                self.wf(),
                todo_views(rows@) == rendered_todos(keep(ts.take(i as int), todo_of(matter_id@)), ms),
            decreases self.todos.len() - i,
        {
            assert(ts.take(i + 1).drop_last() == ts.take(i as int));
            if same_text(self.todos[i].matter_id.as_str(), matter_id) {
                let row = self.render_todo(&self.todos[i]);
                let ghost before = todo_views(rows@);
                let ghost rv = row@;
                rows.push(row);
                assert(todo_views(rows@) =~= before.push(rv));
                assert(rendered_todos(keep(ts.take(i + 1), todo_of(matter_id@)), ms) =~= rendered_todos(
                    keep(ts.take(i as int), todo_of(matter_id@)),
                    ms,
                ).push(rv));
            }
            i = i + 1;
        }
        assert(ts.take(ts.len() as int) == ts);
        Ok(Self::sort_todos(rows, false))
    }
}


/// Whether a row with status `st` passes the filter `f`: no filter, the
/// filter `"all"`, or a filter naming its status.
pub open spec fn passes(f: Option<Seq<char>>, st: Seq<char>) -> bool {
    match f {
        Some(w) => w == all_word() || st == w,
        None => true,
    }
}

/// Whether todo `t` passes the status filter `f`.
pub open spec fn todo_passes(f: Option<Seq<char>>) -> spec_fn(TodoItem) -> bool {
    |t: TodoItem| passes(f, t.status@)
}

/// Whether a row with status `st` passes the filter `f`.
fn passes_exec(f: &Option<String>, st: &str) -> (r: bool)
    ensures
        r == passes(opt_seq(*f), st@),
{
    match f {
        Some(w) => str_is(w.as_str(), &lit_all()) || same_text(st, w.as_str()),
        None => true,
    }
}

/// Whether todo `t` is due for a reminder at `now`: pending, with a
/// reminder at or before `now`, not yet sent.
pub open spec fn reminder_due(now: Seq<char>) -> spec_fn(TodoItem) -> bool {
    |t: TodoItem|
        t.status@ == pending() && t.reminder_time is Some && text_le(t.reminder_time->0@, now)
            && !t.is_reminder_sent
}

impl Database {
    /// All todos that pass the status filter, with their matters' titles,
    /// in the order of all todos.
    pub fn get_all_todos(&self, status_filter: Option<String>) -> (r: Result<Vec<TodoItem>, DbError>)
        requires
            self.wf(),
        ensures
            r matches Ok(v) && is_reordering(
                todo_views(v@),
                rendered_todos(keep(self.todos(), todo_passes(opt_seq(status_filter))), self.matters()),
            ) && ordered_by(todo_views(v@), all_todo_key(), all_todo_desc()),
    {
        let ghost ts = self.todos@;
        let ghost ms = self.matters@;
        let ghost f = opt_seq(status_filter);
        let mut rows: Vec<TodoItem> = Vec::new();
        let mut i: usize = 0;
        while i < self.todos.len()
            invariant
                i <= self.todos@.len(),
                self.todos@ == ts,
                self.matters@ == ms,
                self.wf(),
                f == opt_seq(status_filter),
                todo_views(rows@) == rendered_todos(keep(ts.take(i as int), todo_passes(f)), ms),
            decreases self.todos.len() - i,
        {
            assert(ts.take(i + 1).drop_last() == ts.take(i as int));
            if passes_exec(&status_filter, self.todos[i].status.as_str()) {
                let row = self.render_todo(&self.todos[i]);
                let ghost before = todo_views(rows@);
                let ghost rv = row@;
                rows.push(row);
                assert(todo_views(rows@) =~= before.push(rv));
                assert(rendered_todos(keep(ts.take(i + 1), todo_passes(f)), ms) =~= rendered_todos(
                    keep(ts.take(i as int), todo_passes(f)),
                    ms,
                ).push(rv));
            }
            i = i + 1;
        }
        assert(ts.take(ts.len() as int) == ts);
        Ok(Self::sort_todos(rows, true))
    }

    /// The todos due for a reminder at `now`, with their matters' titles, in
    /// table order.
    pub fn get_due_reminders(&self, now: &str) -> (r: Result<Vec<TodoItem>, DbError>)
        requires
            self.wf(),
        ensures
            r matches Ok(v) && todo_views(v@) == rendered_todos(keep(self.todos(), reminder_due(now@)), self.matters()),
    {
        let ghost ts = self.todos@;
        let ghost ms = self.matters@;
        let mut rows: Vec<TodoItem> = Vec::new();
        let mut i: usize = 0;
        while i < self.todos.len()
            invariant
                i <= self.todos@.len(),
                self.todos@ == ts,
                self.matters@ == ms,
                self.wf(),
                todo_views(rows@) == rendered_todos(keep(ts.take(i as int), reminder_due(now@)), ms),
            decreases self.todos.len() - i,
        {
            assert(ts.take(i + 1).drop_last() == ts.take(i as int));
            let t = &self.todos[i];
            let due = match &t.reminder_time {
                Some(rt) => !str_lt(now, rt.as_str()),
                None => false,
            };
            proof {
                if t.reminder_time is Some {
                    crate::order::lemma_text_trichotomy(t.reminder_time->0@, now@);
                }
            }
            if str_is(t.status.as_str(), &lit_pending()) && due && !t.is_reminder_sent {
                let row = self.render_todo(t);
                let ghost before = todo_views(rows@);
                let ghost rv = row@;
                rows.push(row);
                assert(todo_views(rows@) =~= before.push(rv));
                assert(rendered_todos(keep(ts.take(i + 1), reminder_due(now@)), ms) =~= rendered_todos(
                    keep(ts.take(i as int), reminder_due(now@)),
                    ms,
                ).push(rv));
            }
            i = i + 1;
        }
        assert(ts.take(ts.len() as int) == ts);
        Ok(rows)
    }

}


/// How the matters are ordered: `"priority"` 1, `"importance"` 2,
/// `"created"` 3, otherwise 0 (by time of change).
pub open spec fn sort_mode(o: Option<Seq<char>>) -> int {
    match o {
        Some(w) => if w == seq!['p', 'r', 'i', 'o', 'r', 'i', 't', 'y'] {
            1
        } else if w == seq!['i', 'm', 'p', 'o', 'r', 't', 'a', 'n', 'c', 'e'] {
            2
        } else if w == seq!['c', 'r', 'e', 'a', 't', 'e', 'd'] {
            3
        } else {
            0
        },
        None => 0,
    }
}

/// The rank of a priority: high 1, medium 2, low 3.
pub open spec fn priority_rank(p: Seq<char>) -> Seq<char> {
    if p == high() {
        seq!['1']
    } else if p == medium() {
        seq!['2']
    } else {
        seq!['3']
    }
}

/// The order of the matters for sort mode `mode`: pinned first, then by
/// priority, importance (highest first), creation (latest first) or time of
/// change (latest first); then, for priority and importance, by time of
/// change.
pub open spec fn matter_key(mode: int) -> spec_fn(Matter) -> Seq<Seq<char>> {
    |m: Matter|
        if mode == 1 {
            seq![bool_text(m.is_pinned), priority_rank(m.priority@), m.updated_at@]
        } else if mode == 2 {
            seq![bool_text(m.is_pinned), crate::summary::decimal(m.importance as nat), m.updated_at@]
        } else if mode == 3 {
            seq![bool_text(m.is_pinned), m.created_at@, Seq::<char>::empty()]
        } else {
            seq![bool_text(m.is_pinned), m.updated_at@, Seq::<char>::empty()]
        }
}

/// Which parts of `matter_key(mode)` run downwards.
pub open spec fn matter_desc(mode: int) -> Seq<bool> {
    if mode == 1 {
        seq![true, false, true]
    } else {
        seq![true, true, true]
    }
}

/// Pinned matters come first in every sort mode: in a list ordered by the
/// matter order of any mode, no unpinned matter stands before a pinned one.
pub proof fn lemma_pinned_first(v: Seq<Matter>, mode: int)
    requires
        forall|p: int, q: int|
            0 <= p < q < v.len() ==> key_le(
                matter_key(mode)(#[trigger] v[p]),
                matter_key(mode)(#[trigger] v[q]),
                matter_desc(mode),
            ),
    ensures
        forall|p: int, q: int| 0 <= p < q < v.len() ==> (#[trigger] v[p]).is_pinned || !(#[trigger] v[q]).is_pinned,
{
    assert forall|p: int, q: int| 0 <= p < q < v.len() implies (#[trigger] v[p]).is_pinned || !(
    #[trigger] v[q]).is_pinned by {
        if !v[p].is_pinned && v[q].is_pinned {
            let a = matter_key(mode)(v[q]);
            let b = matter_key(mode)(v[p]);
            assert(a[0] == seq!['1'] && b[0] == seq!['0']);
            assert(text_lt(b[0], a[0]));
            assert(key_lt_from(a, b, matter_desc(mode), 0));
            assert(key_le(b, a, matter_desc(mode)));
        }
    }
}

/// Whether matter `m` passes the status and category filters.
pub open spec fn matter_passes(sf: Option<Seq<char>>, cf: Option<Seq<char>>) -> spec_fn(Matter) -> bool {
    |m: Matter| passes(sf, m.status@) && passes(cf, m.category@)
}

/// The sort mode of `sort_by` (see `sort_mode`).
fn sort_mode_exec(sort_by: &Option<String>) -> (r: u8)
    ensures
        r as int == sort_mode(opt_seq(*sort_by)),
{
    match sort_by {
        Some(w) => {
            let prio: [char; 8] = ['p', 'r', 'i', 'o', 'r', 'i', 't', 'y'];
            let imp: [char; 10] = ['i', 'm', 'p', 'o', 'r', 't', 'a', 'n', 'c', 'e'];
            let created: [char; 7] = ['c', 'r', 'e', 'a', 't', 'e', 'd'];
            assert(prio@ == seq!['p', 'r', 'i', 'o', 'r', 'i', 't', 'y']);
            assert(imp@ == seq!['i', 'm', 'p', 'o', 'r', 't', 'a', 'n', 'c', 'e']);
            assert(created@ == seq!['c', 'r', 'e', 'a', 't', 'e', 'd']);
            if str_is(w.as_str(), &prio) {
                1
            } else if str_is(w.as_str(), &imp) {
                2
            } else if str_is(w.as_str(), &created) {
                3
            } else {
                0
            }
        },
        None => 0,
    }
}

/// The sort key of a valid matter for sort mode `mode`.
fn matter_key_vec(m: &Matter, mode: u8) -> (k: SortKey)
    requires
        valid_matter(*m),
    ensures
        k.view_parts() == matter_key(mode as int)(*m),
        k.parts@.len() == 3,
{
    let mut parts: Vec<Vec<char>> = Vec::new();
    parts.push(bool_chars(m.is_pinned));
    if mode == 1 {
        let rank: char = if str_is(m.priority.as_str(), &lit_high()) {
            '1'
        } else if str_is(m.priority.as_str(), &lit_medium()) {
            '2'
        } else {
            '3'
        };
        let mut rv: Vec<char> = Vec::new();
        rv.push(rank);
        assert(rv@ =~= priority_rank(m.priority@));
        parts.push(rv);
        parts.push(to_chars(m.updated_at.as_str()));
    } else if mode == 2 {
        parts.push(crate::summary::decimal_vec(m.importance as usize));
        parts.push(to_chars(m.updated_at.as_str()));
    } else if mode == 3 {
        parts.push(to_chars(m.created_at.as_str()));
        parts.push(Vec::new());
    } else {
        parts.push(to_chars(m.updated_at.as_str()));
        parts.push(Vec::new());
    }
    let k = key_of_parts(parts);
    assert(k.view_parts() =~= matter_key(mode as int)(*m));
    k
}

impl Database {
    /// The matters that pass the status and category filters, with their
    /// figures, in the order `sort_by` asks for.
    pub fn get_matters(
        &self,
        status_filter: Option<String>,
        category_filter: Option<String>,
        sort_by: Option<String>,
    ) -> (r: Result<Vec<Matter>, DbError>)
        requires
            self.wf(),
        ensures
            r matches Ok(v) && is_reordering(
                v@,
                keep(self.matters(), matter_passes(opt_seq(status_filter), opt_seq(category_filter))).map_values(
                    |m: Matter| rendered(m, self.logs(), self.todos()),
                ),
            ) && forall|p: int, q: int|
                0 <= p < q < v@.len() ==> key_le(
                    matter_key(sort_mode(opt_seq(sort_by)))(#[trigger] v@[p]),
                    matter_key(sort_mode(opt_seq(sort_by)))(#[trigger] v@[q]),
                    matter_desc(sort_mode(opt_seq(sort_by))),
                ),
            r matches Ok(v) && forall|p: int, q: int|
                0 <= p < q < v@.len() ==> (#[trigger] v@[p]).is_pinned || !(#[trigger] v@[q]).is_pinned,
    {
        let ghost ms = self.matters@;
        let ghost ls = self.logs@;
        let ghost ts = self.todos@;
        let ghost pf = matter_passes(opt_seq(status_filter), opt_seq(category_filter));
        let mode = sort_mode_exec(&sort_by);
        let ghost key_of = matter_key(mode as int);
        let mut rows: Vec<Matter> = Vec::new();
        let mut keys: Vec<SortKey> = Vec::new();
        let mut i: usize = 0;
        while i < self.matters.len()
            invariant
                i <= self.matters@.len(),
                self.matters@ == ms,
                self.logs@ == ls,
                self.todos@ == ts,
                self.wf(),
                pf == matter_passes(opt_seq(status_filter), opt_seq(category_filter)),
                key_of == matter_key(mode as int),
                rows@ == keep(ms.take(i as int), pf).map_values(|m: Matter| rendered(m, ls, ts)),
                keys@.len() == rows@.len(),
                forall|a: int| 0 <= a < keys@.len() ==> keys@[a].parts@.len() >= 3,
                forall|a: int| 0 <= a < keys@.len() ==> #[trigger] keys@[a].view_parts() == key_of(rows@[a]),
            decreases self.matters.len() - i,
        {
            assert(ms.take(i + 1).drop_last() == ms.take(i as int));
            let m = &self.matters[i];
            if passes_exec(&status_filter, m.status.as_str()) && passes_exec(&category_filter, m.category.as_str()) {
                assert(valid_matter(ms[i as int]));
                let row = self.render(m);
                let k = matter_key_vec(m, mode);
                assert(key_of(row) == key_of(*m));
                let ghost before = rows@;
                rows.push(row);
                keys.push(k);
                assert(keep(ms.take(i + 1), pf).map_values(|m: Matter| rendered(m, ls, ts)) =~= before.push(
                    rendered(ms[i as int], ls, ts),
                ));
            }
            i = i + 1;
        }
        assert(ms.take(ms.len() as int) == ms);
        let r = if mode == 1 {
            let desc: [bool; 3] = [true, false, true];
            assert(desc@ == matter_desc(mode as int));
            sort_rows(rows, &keys, &desc, Ghost(key_of))
        } else {
            let desc: [bool; 3] = [true, true, true];
            assert(desc@ == matter_desc(mode as int));
            sort_rows(rows, &keys, &desc, Ghost(key_of))
        };
        proof {
            lemma_pinned_first(r@, mode as int);
        }
        Ok(r)
    }
}


/// What the inbox says of log `l`: its matter's title with it.
pub open spec fn log_head(l: LogItem, ms: Seq<Matter>) -> InboxHead {
    InboxHead {
        id: l.id@,
        matter_id: opt_seq(l.matter_id),
        matter_title: match l.matter_id {
            Some(m) => title_of(ms, m@),
            None => None,
        },
        raw_content: l.raw_content@,
        source_app: l.source_app@,
        source_window_title: l.source_window_title@,
        created_at: l.created_at@,
    }
}

/// The heads of inbox entries.
pub open spec fn heads(v: Seq<InboxLogItem>) -> Seq<InboxHead> {
    v.map_values(|it: InboxLogItem| it.head())
}

/// What the inbox says of each log.
pub open spec fn log_heads(ls: Seq<LogItem>, ms: Seq<Matter>) -> Seq<InboxHead> {
    ls.map_values(|l: LogItem| log_head(l, ms))
}

/// Whether todo `t` came from log `lid`.
pub open spec fn todo_from(lid: Seq<char>) -> spec_fn(TodoItem) -> bool {
    |t: TodoItem| opt_is(t.log_id, lid)
}

/// The todos that came from log `lid`, read back.
pub open spec fn log_todos(ts: Seq<TodoItem>, ms: Seq<Matter>, lid: Seq<char>) -> Seq<TodoRowView> {
    rendered_todos(keep(ts, todo_from(lid)), ms)
}

/// Ordering of todos by creation time.
pub open spec fn created_key() -> spec_fn(TodoRowView) -> Seq<Seq<char>> {
    |v: TodoRowView| seq![v.created_at]
}

/// One ascending part.
pub open spec fn asc1() -> Seq<bool> {
    seq![false]
}

/// Ordering of inbox entries by creation time.
pub open spec fn inbox_key() -> spec_fn(InboxLogItem) -> Seq<Seq<char>> {
    |it: InboxLogItem| seq![it.created_at@]
}

/// An inbox entry holds exactly the todos of its log, oldest first.
pub open spec fn entry_ok(it: InboxLogItem, ts: Seq<TodoItem>, ms: Seq<Matter>) -> bool {
    is_reordering(todo_views(it.todos@), log_todos(ts, ms, it.id@)) && ordered_by(
        todo_views(it.todos@),
        created_key(),
        asc1(),
    )
}

impl Database {
    /// The todos that came from log `lid`, read back, oldest first.
    fn todos_of_log(&self, lid: &str) -> (r: Vec<TodoItem>)
        requires
            self.wf(),
        ensures
            is_reordering(todo_views(r@), log_todos(self.todos(), self.matters(), lid@)),
            ordered_by(todo_views(r@), created_key(), asc1()),
    {
        let ghost ts = self.todos@;
        let ghost ms = self.matters@;
        let ghost key_of = |t: TodoItem| created_key()(t@);
        let mut rows: Vec<TodoItem> = Vec::new();
        let mut keys: Vec<SortKey> = Vec::new();
        let mut i: usize = 0;
        while i < self.todos.len()
            invariant
                i <= self.todos@.len(),
                self.todos@ == ts,
                self.matters@ == ms,
                self.wf(),
                key_of == |t: TodoItem| created_key()(t@),
                todo_views(rows@) == rendered_todos(keep(ts.take(i as int), todo_from(lid@)), ms),
                keys@.len() == rows@.len(),
                forall|a: int| 0 <= a < keys@.len() ==> keys@[a].parts@.len() >= 1,
                forall|a: int| 0 <= a < keys@.len() ==> #[trigger] keys@[a].view_parts() == key_of(rows@[a]),
            decreases self.todos.len() - i,
        {
            assert(ts.take(i + 1).drop_last() == ts.take(i as int));
            if opt_same(&self.todos[i].log_id, lid) {
                let row = self.render_todo(&self.todos[i]);
                let mut parts: Vec<Vec<char>> = Vec::new();
                parts.push(to_chars(row.created_at.as_str()));
                let k = key_of_parts(parts);
                assert(k.view_parts() =~= key_of(row));
                let ghost before = todo_views(rows@);
                let ghost rv = row@;
                rows.push(row);
                keys.push(k);
                assert(todo_views(rows@) =~= before.push(rv));
                assert(rendered_todos(keep(ts.take(i + 1), todo_from(lid@)), ms) =~= rendered_todos(
                    keep(ts.take(i as int), todo_from(lid@)),
                    ms,
                ).push(rv));
            }
            i = i + 1;
        }
        assert(ts.take(ts.len() as int) == ts);
        let desc: [bool; 1] = [false];
        assert(desc@ == asc1());
        let r = sort_rows(rows, &keys, &desc, Ghost(key_of));
        proof {
            lemma_reordering_map(r@, rows@, |t: TodoItem| t@);
        }
        assert forall|p: int, q: int| 0 <= p < q < todo_views(r@).len() implies key_le(
            created_key()(#[trigger] todo_views(r@)[p]),
            created_key()(#[trigger] todo_views(r@)[q]),
            asc1(),
        ) by {
            assert(todo_views(r@)[p] == r@[p]@);
            assert(todo_views(r@)[q] == r@[q]@);
        }
        r
    }

    /// Every log with its matter's title and the todos it gave, latest
    /// first.
    pub fn get_all_inbox_logs(&self) -> (r: Result<Vec<InboxLogItem>, DbError>)
        requires
            self.wf(),
        ensures
            r matches Ok(v) && is_reordering(heads(v@), log_heads(self.logs(), self.matters())) && (forall|p: int, q: int|
                0 <= p < q < v@.len() ==> key_le(
                    inbox_key()(#[trigger] v@[p]),
                    inbox_key()(#[trigger] v@[q]),
                    desc1(),
                )) && forall|p: int| 0 <= p < v@.len() ==> entry_ok(#[trigger] v@[p], self.todos(), self.matters()),
    {
        let ghost ls = self.logs@;
        let ghost ms = self.matters@;
        let ghost ts = self.todos@;
        let mut rows: Vec<InboxLogItem> = Vec::new();
        let mut keys: Vec<SortKey> = Vec::new();
        let mut i: usize = 0;
        while i < self.logs.len()
            invariant
                i <= self.logs@.len(),
                self.logs@ == ls,
                self.matters@ == ms,
                self.todos@ == ts,
                self.wf(),
                heads(rows@) == log_heads(ls.take(i as int), ms),
                forall|a: int| 0 <= a < rows@.len() ==> entry_ok(#[trigger] rows@[a], ts, ms),
                keys@.len() == rows@.len(),
                forall|a: int| 0 <= a < keys@.len() ==> keys@[a].parts@.len() >= 1,
                forall|a: int| 0 <= a < keys@.len() ==> #[trigger] keys@[a].view_parts() == inbox_key()(rows@[a]),
            decreases self.logs.len() - i,
        {
            let l = &self.logs[i];
            let title = match &l.matter_id {
                Some(mid) => match self.find_matter(mid.as_str()) {
                    Some(j) => Some(self.matters[j].title.clone()),
                    None => None,
                },
                None => None,
            };
            let todos = self.todos_of_log(l.id.as_str());
            let item = InboxLogItem {
                id: l.id.clone(),
                matter_id: copy_opt(&l.matter_id),
                matter_title: title,
                raw_content: l.raw_content.clone(),
                source_app: l.source_app.clone(),
                source_window_title: l.source_window_title.clone(),
                created_at: l.created_at.clone(),
                todos,
            };
            assert(item.head() == log_head(ls[i as int], ms));
            let mut parts: Vec<Vec<char>> = Vec::new();
            parts.push(to_chars(item.created_at.as_str()));
            let k = key_of_parts(parts);
            assert(k.view_parts() =~= inbox_key()(item));
            let ghost before = rows@;
            let ghost gi = item;
            rows.push(item);
            keys.push(k);
            assert(rows@ == before.push(gi));
            assert(heads(before).len() == before.len());
            assert(log_heads(ls.take(i as int), ms).len() == i);
            assert(before.len() == i);
            assert(ls.take(i + 1) == ls.take(i as int).push(ls[i as int]));
            assert forall|k: int| 0 <= k < i + 1 implies #[trigger] heads(rows@)[k] == log_heads(ls.take(i + 1), ms)[k] by {
                if k < i {
                    assert(heads(before)[k] == log_heads(ls.take(i as int), ms)[k]);
                    assert(rows@[k] == before[k]);
                } else {
                    assert(rows@[k] == gi);
                }
            }
            assert(heads(rows@) =~= log_heads(ls.take(i + 1), ms));
            i = i + 1;
        }
        assert(ls.take(ls.len() as int) == ls);
        let desc: [bool; 1] = [true];
        assert(desc@ == desc1());
        let ghost orig = rows@;
        let r = sort_rows(rows, &keys, &desc, Ghost(inbox_key()));
        proof {
            lemma_reordering_map(r@, orig, |it: InboxLogItem| it.head());
            assert(heads(r@) == r@.map_values(|it: InboxLogItem| it.head()));
            assert(heads(orig) == orig.map_values(|it: InboxLogItem| it.head()));
            assert forall|p: int| 0 <= p < r@.len() implies entry_ok(#[trigger] r@[p], ts, ms) by {
                let order = choose|order: Seq<usize>|
                    #[trigger] crate::order::is_permutation(order, orig.len()) && r@.len() == orig.len() && forall|p: int|
                        0 <= p < r@.len() ==> r@[p] == orig[order[p] as int];
                assert(r@[p] == orig[order[p] as int]);
            }
        }
        Ok(r)
    }
}


/// The facts of a matter with `delta` added: `delta` alone when the facts
/// are blank, else on a line of its own.
pub open spec fn merged_facts(fs: Seq<char>, delta: Seq<char>) -> Seq<char> {
    if trim(fs).len() == 0 {
        delta
    } else {
        fs + seq!['\n'] + delta
    }
}

/// In a table with distinct identifiers, the matter at `i` is the one its
/// identifier finds.
proof fn lemma_matter_at(ms: Seq<Matter>, i: int)
    requires
        0 <= i < ms.len(),
        forall|a: int, b: int| 0 <= a < b < ms.len() ==> ms[a].id@ != ms[b].id@,
    ensures
        matter_pos(ms, ms[i].id@) == Some(i),
{
    let c = choose|c: int| 0 <= c < ms.len() && ms[c].id@ == ms[i].id@;
    if c < i {
        assert(ms[c].id@ != ms[i].id@);
    } else if c > i {
        assert(ms[i].id@ != ms[c].id@);
    }
}

/// The text of an optional string slice.
pub open spec fn str_opt(o: Option<&str>) -> Option<Seq<char>> {
    match o {
        Some(d) => Some(d@),
        None => None,
    }
}

/// Whether the facts delta says something.
pub open spec fn delta_given(delta: Option<Seq<char>>) -> bool {
    delta is Some && trim(delta->0).len() > 0
}

/// Whether some row of `vs` has identifier `id`.
pub open spec fn has_row(vs: Seq<TodoRowView>, id: Seq<char>) -> bool {
    exists|j: int| 0 <= j < vs.len() && #[trigger] vs[j].id == id
}

/// The row kept for an extracted todo filed from log `lid` under matter
/// `mid` at `now` with identifier `id`: pending, reminded at its due time.
pub open spec fn draft_row(d: ExtractedTodo, id: Seq<char>, mid: Seq<char>, lid: Seq<char>, now: Seq<char>) -> TodoRowView {
    stored_view(
        TodoRowView {
            id: id,
            matter_id: mid,
            log_id: Some(lid),
            content: d.content@,
            due_time: opt_seq(d.due_time),
            reminder_time: opt_seq(d.due_time),
            is_reminder_sent: false,
            status: pending(),
            is_focused: false,
            created_at: now,
            completed_at: None,
            matter_title: None,
        },
    )
}

/// The todo rows after filing the first `k` extracted todos: each with
/// text is added under its identifier when the matter and the log exist,
/// the identifier is new and there is room.
pub open spec fn draft_rows(
    vs: Seq<TodoRowView>,
    ok: bool,
    mid: Seq<char>,
    lid: Seq<char>,
    drafts: Seq<ExtractedTodo>,
    ids: Seq<String>,
    now: Seq<char>,
    k: int,
) -> Seq<TodoRowView>
    decreases k,
{
    if k <= 0 {
        vs
    } else {
        let prev = draft_rows(vs, ok, mid, lid, drafts, ids, now, k - 1);
        let d = drafts[k - 1];
        let id = ids[k - 1]@;
        if ok && trim(d.content@).len() > 0 && !has_row(prev, id) && prev.len() + 1 < row_limit() {
            prev.push(draft_row(d, id, mid, lid, now))
        } else {
            prev
        }
    }
}

/// Matter `m` after filing a log under it at `now`: changed at `now`, with
/// the facts delta added when it says something.
pub open spec fn filed_matter(m: Matter, delta: Option<Seq<char>>, now: String) -> (Matter, Seq<char>) {
    (Matter { updated_at: now, ..m }, if delta_given(delta) {
        merged_facts(m.fact_summary@, delta->0)
    } else {
        m.fact_summary@
    })
}

/// Whether two stores hold the same tables.
pub open spec fn same_db(a: Database, b: Database) -> bool {
    &&& a.matters() == b.matters()
    &&& a.logs() == b.logs()
    &&& a.todos() == b.todos()
    &&& a.settings() == b.settings()
}

/// Whether `after` is `before` with log `lid` filed under matter `mid` at
/// `now` (see `categorize_log`), `ok` telling whether it was done.
pub open spec fn log_filed(
    before: Database,
    after: Database,
    lid: Seq<char>,
    mid: Seq<char>,
    delta: Option<Seq<char>>,
    drafts: Seq<ExtractedTodo>,
    now: String,
    ids: Seq<String>,
    ok: bool,
) -> bool {
    &&& !ok <==> (log_pos(before.logs(), lid) is Some && matter_pos(before.matters(), mid) is None)
    &&& !ok ==> same_db(after, before)
    &&& ok ==> after.logs() == match log_pos(before.logs(), lid) {
        Some(i) => before.logs().update(i, LogItem { matter_id: Some(after.logs()[i].matter_id->0), ..before.logs()[i] }),
        None => before.logs(),
    }
    &&& ok ==> (log_pos(before.logs(), lid) matches Some(i) ==> after.logs()[i].matter_id is Some
        && after.logs()[i].matter_id->0@ == mid)
    &&& ok ==> match matter_pos(before.matters(), mid) {
        Some(i) => after.matters() == before.matters().update(
            i,
            Matter { fact_summary: after.matters()[i].fact_summary, ..filed_matter(before.matters()[i], delta, now).0 },
        ) && after.matters()[i].fact_summary@ == filed_matter(before.matters()[i], delta, now).1,
        None => after.matters() == before.matters(),
    }
    &&& ok ==> todo_views(after.todos()) == draft_rows(
        todo_views(before.todos()),
        matter_pos(before.matters(), mid) is Some && log_pos(before.logs(), lid) is Some,
        mid,
        lid,
        drafts,
        ids,
        now@,
        drafts.len() as int,
    )
    &&& after.settings() == before.settings()
}

proof fn lemma_todo_pos_rows(ts: Seq<TodoItem>, id: Seq<char>)
    ensures
        (todo_pos(ts, id) is None) == !has_row(todo_views(ts), id),
{
    if todo_pos(ts, id) is Some {
        let i = choose|i: int| 0 <= i < ts.len() && ts[i].id@ == id;
        assert(todo_views(ts)[i].id == id);
    }
    if has_row(todo_views(ts), id) {
        let j = choose|j: int| 0 <= j < todo_views(ts).len() && #[trigger] todo_views(ts)[j].id == id;
        assert(ts[j].id@ == id);
    }
}

impl Database {
    /// Files log `log_id` under matter `matter_id` at `now`:
    /// binds the log, adds the facts delta to the matter's facts, adds each
    /// extracted todo that has text as a pending todo of the matter from the
    /// log, under the identifier given for it, and marks the matter as
    /// changed. Refused, with nothing changed, when the log exists and the
    /// matter does not.
    pub fn categorize_log(
        &mut self,
        log_id: &str,
        matter_id: &str,
        facts_delta: Option<&str>,
        new_todos: &[ExtractedTodo],
        now: &String,
        ids: &Vec<String>,
    ) -> (r: Result<(), DbError>)
        requires
            old(self).wf(),
            ids@.len() == new_todos@.len(),
        ensures
            final(self).wf(),
            r is Err <==> (log_pos(old(self).logs(), log_id@) is Some && matter_pos(old(self).matters(), matter_id@)
                is None),
            r is Err ==> *final(self) == *old(self),
            r is Ok ==> final(self).logs() == match log_pos(old(self).logs(), log_id@) {
                Some(i) => old(self).logs().update(
                    i,
                    LogItem { matter_id: Some(final(self).logs()[i].matter_id->0), ..old(self).logs()[i] },
                ),
                None => old(self).logs(),
            },
            r is Ok ==> (log_pos(old(self).logs(), log_id@) matches Some(i) ==> final(self).logs()[i].matter_id
                is Some && final(self).logs()[i].matter_id->0@ == matter_id@),
            r is Ok ==> match matter_pos(old(self).matters(), matter_id@) {
                Some(i) => final(self).matters() == old(self).matters().update(
                    i,
                    Matter { fact_summary: final(self).matters()[i].fact_summary, ..filed_matter(old(self).matters()[i], str_opt(facts_delta), *now).0 },
                ) && final(self).matters()[i].fact_summary@ == filed_matter(
                    old(self).matters()[i],
                    str_opt(facts_delta),
                    *now,
                ).1,
                None => final(self).matters() == old(self).matters(),
            },
            r is Ok ==> todo_views(final(self).todos()) == draft_rows(
                todo_views(old(self).todos()),
                matter_pos(old(self).matters(), matter_id@) is Some && log_pos(old(self).logs(), log_id@) is Some,
                matter_id@,
                log_id@,
                new_todos@,
                ids@,
                now@,
                new_todos@.len() as int,
            ),
            final(self).settings() == old(self).settings(),
    {
        let mpos = self.find_matter(matter_id);
        let lpos = self.find_log(log_id);
        let ghost ms0 = self.matters@;
        let ghost ls0 = self.logs@;
        let ghost ts0 = self.todos@;
        // 1. bind the log
        match lpos {
            Some(li) => {
                if mpos.is_none() {
                    return Err(DbError::Constraint);
                }
                let mut l = self.logs[li].copy();
                l.matter_id = Some(String::from_str(matter_id));
                let ghost ls = self.logs@;
                proof {
                    let ls2 = ls.update(li as int, l);
                    assert forall|a: int, b: int| 0 <= a < b < ls2.len() implies ls2[a].id@ != ls2[b].id@ by {
                        assert(ls2[a].id@ == ls[a].id@ && ls2[b].id@ == ls[b].id@);
                    }
                    assert forall|a: int| 0 <= a < ls2.len() && (#[trigger] ls2[a]).matter_id is Some implies matter_pos(
                        self.matters@,
                        ls2[a].matter_id->0@,
                    ) is Some by {
                        if a != li {
                            assert(ls2[a] == ls[a]);
                        }
                    }
                    assert forall|lid: Seq<char>| log_pos(ls, lid) is Some implies log_pos(ls2, lid) is Some by {
                        let b = choose|b: int| 0 <= b < ls.len() && ls[b].id@ == lid;
                        assert(ls2[b].id@ == lid);
                    }
                }
                self.logs.set(li, l);
            },
            None => {},
        }
        // 2. add the facts delta
        if let Some(mi) = mpos {
            let mut m = self.matters[mi].copy();
            let given = match facts_delta {
                Some(d) => {
                    let dv = to_chars(d);
                    let dt = trim_vec(dv.as_slice());
                    dt.len() > 0
                },
                None => false,
            };
            if given {
                let d = facts_delta.unwrap();
                let fv = to_chars(m.fact_summary.as_str());
                let ft = trim_vec(fv.as_slice());
                if ft.len() == 0 {
                    m.fact_summary = String::from_str(d);
                } else {
                    let mut nv = fv;
                    nv.push('\n');
                    let dv = to_chars(d);
                    append_slice(&mut nv, dv.as_slice());
                    m.fact_summary = from_chars(nv.as_slice());
                }
            }
            m.updated_at = now.clone();
            let ghost ms = self.matters@;
            self.matters.set(mi, m);
            proof {
                assert(same_matter_ids(ms, self.matters@));
                lemma_wf_matters_replaced(ms, self.matters@, self.logs@, self.todos@, self.settings@);
            }
        }
        let ghost ms1 = self.matters@;
        let ghost ls1 = self.logs@;
        // 3. add the todos
        let ghost ok = mpos.is_some() && lpos.is_some();
        let mut k: usize = 0;
        while k < new_todos.len()
            invariant
                k <= new_todos@.len(),
                ids@.len() == new_todos@.len(),
                self.wf(),
                self.matters@ == ms1,
                self.logs@ == ls1,
                ok == (matter_pos(ms0, matter_id@) is Some && log_pos(ls0, log_id@) is Some),
                (matter_pos(ms1, matter_id@) is Some) == (matter_pos(ms0, matter_id@) is Some),
                (log_pos(ls1, log_id@) is Some) == (log_pos(ls0, log_id@) is Some),
                mpos matches Some(mi) ==> mi < ms1.len() && ms1[mi as int].updated_at == *now && ms1[mi as int].id@ == matter_id@,
                mpos is None ==> matter_pos(ms0, matter_id@) is None,
                todo_views(self.todos@) == draft_rows(
                    todo_views(ts0),
                    ok,
                    matter_id@,
                    log_id@,
                    new_todos@,
                    ids@,
                    now@,
                    k as int,
                ),
                self.settings@ == old(self).settings@,
            decreases new_todos.len() - k,
        {
            let d = &new_todos[k];
            let cv = to_chars(d.content.as_str());
            let ct = trim_vec(cv.as_slice());
            if ct.len() > 0 {
                let row = TodoItem {
                    id: ids[k].clone(),
                    matter_id: String::from_str(matter_id),
                    log_id: Some(String::from_str(log_id)),
                    content: d.content.clone(),
                    due_time: copy_opt(&d.due_time),
                    reminder_time: copy_opt(&d.due_time),
                    is_reminder_sent: false,
                    status: from_chars(&lit_pending()),
                    is_focused: false,
                    created_at: now.clone(),
                    completed_at: None,
                    matter_title: None,
                };
                proof {
                    lemma_todo_pos_rows(self.todos@, ids@[k as int]@);
                }
                let ghost before = self.todos@;
                let _ = self.create_todo(&row, now);
                proof {
                    if todo_insertable(ms1, ls1, before, row) {
                        let mi = mpos->0;
                        assert(after_touch(ms1, matter_id@, *now) =~= ms1) by {
                            lemma_matter_at(ms1, mi as int);
                        }
                    }
                }
            }
            k = k + 1;
        }
        // 4. mark the matter as changed
        if let Some(mi) = mpos {
            proof {
                assert(after_touch(ms1, matter_id@, *now) =~= ms1) by {
                    lemma_matter_at(ms1, mi as int);
                }
            }
            self.touch_matter_updated(matter_id, now);
        }
        Ok(())
    }
}


impl Database {
}


impl Database {
    /// The value of the settings row with key `k`.
    fn setting(&self, k: &[char]) -> (r: Option<String>)
        requires
            self.wf(),
        ensures
            opt_seq(r) == lookup(row_views(self.settings()), k@),
    {
        let ghost rv = row_views(self.settings@);
        let mut i: usize = 0;
        while i < self.settings.len()
            invariant
                i <= self.settings@.len(),
                rv == row_views(self.settings@),
                self.wf(),
                forall|j: int| 0 <= j < i ==> rv[j].0 != k@,
            decreases self.settings.len() - i,
        {
            let key = to_chars(self.settings[i].0.as_str());
            if crate::lits::chars_are(key.as_slice(), k) {
                proof {
                    let c = choose|c: int| 0 <= c < rv.len() && rv[c].0 == k@;
                    if c != i {
                        assert(rv[c].0 != rv[i as int].0);
                    }
                }
                return Some(self.settings[i].1.clone());
            }
            i = i + 1;
        }
        None
    }

    /// The settings: each from its row, the defaults for
    /// those without one (see `config_from_rows`).
    pub fn get_config(&self) -> (r: Result<AppConfig, DbError>)
        requires
            self.wf(),
        ensures
            r matches Ok(c) && c@ == config_from_rows(row_views(self.settings())),
    {
        let mut c = AppConfig::defaults();
        assert(c.api_key@ =~= Seq::<char>::empty());
        assert(c.user_profile@ =~= Seq::<char>::empty());
        assert(c.theme@ =~= Seq::<char>::empty());
        if let Some(v) = self.setting(crate::settings::key_api_base_url_chars().as_slice()) {
            c.api_base_url = v;
        }
        if let Some(v) = self.setting(crate::settings::key_api_key_chars().as_slice()) {
            c.api_key = v;
        }
        if let Some(v) = self.setting(crate::settings::key_model_name_chars().as_slice()) {
            c.model_name = v;
        }
        if let Some(v) = self.setting(crate::settings::key_capture_shortcut_chars().as_slice()) {
            c.capture_shortcut = v;
        }
        if let Some(v) = self.setting(crate::settings::key_main_window_shortcut_chars().as_slice()) {
            c.main_window_shortcut = v;
        }
        if let Some(v) = self.setting(crate::settings::key_confidence_chars().as_slice()) {
            let t = to_chars(v.as_str());
            if let Some(x) = parse_hundredths_exec(t.as_slice()) {
                c.auto_archive_confidence = x;
            }
        }
        if let Some(v) = self.setting(crate::settings::key_user_profile_chars().as_slice()) {
            c.user_profile = v;
        }
        if let Some(v) = self.setting(crate::settings::key_theme_chars().as_slice()) {
            c.theme = v;
        }
        Ok(c)
    }

    /// Sets the settings row with key `k` to `v`.
    fn put_setting(&mut self, k: Vec<char>, v: String)
        requires
            old(self).wf(),
            old(self).settings().len() + 1 < row_limit(),
        ensures
            final(self).wf(),
            row_views(final(self).settings()) == upsert(row_views(old(self).settings()), k@, v@),
            final(self).settings().len() <= old(self).settings().len() + 1,
            final(self).matters() == old(self).matters(),
            final(self).logs() == old(self).logs(),
            final(self).todos() == old(self).todos(),
    {
        let ghost rv = row_views(self.settings@);
        let mut i: usize = 0;
        while i < self.settings.len()
            invariant
                i <= self.settings@.len(),
                rv == row_views(self.settings@),
                *self == *old(self),
                self.wf(),
                forall|j: int| 0 <= j < i ==> rv[j].0 != k@,
            decreases self.settings.len() - i,
        {
            let key = to_chars(self.settings[i].0.as_str());
            if crate::lits::chars_are(key.as_slice(), k.as_slice()) {
                let ghost ss = self.settings@;
                assert(rv[i as int].0 == k@);
                assert(exists|j: int| 0 <= j < rv.len() && rv[j].0 == k@);
                let kk = self.settings[i].0.clone();
                self.settings.set(i, (kk, v));
                proof {
                    let c = choose|c: int| 0 <= c < rv.len() && rv[c].0 == k@;
                    if c != i {
                        assert(rv[c].0 != rv[i as int].0);
                    }
                    assert(row_views(self.settings@) =~= rv.update(i as int, (k@, v@)));
                    let s2 = self.settings@;
                    assert forall|a: int, b: int| 0 <= a < b < s2.len() implies s2[a].0@ != s2[b].0@ by {
                        assert(s2[a].0@ == ss[a].0@ && s2[b].0@ == ss[b].0@);
                    }
                }
                return;
            }
            i = i + 1;
        }
        let ghost ss = self.settings@;
        let ghost kv = k@;
        let ks = from_chars(k.as_slice());
        self.settings.push((ks, v));
        proof {
            assert(row_views(self.settings@) =~= rv.push((kv, v@)));
            let s2 = self.settings@;
            assert forall|a: int, b: int| 0 <= a < b < s2.len() implies s2[a].0@ != s2[b].0@ by {
                if b == s2.len() - 1 {
                    assert(s2[a] == ss[a]);
                    assert(rv[a].0 != kv);
                }
            }
        }
    }

    /// Saves the settings: each written to its row, added
    /// when missing. Refused only when the table could not take the rows.
    pub fn save_config(&mut self, config: &AppConfig) -> (r: Result<(), DbError>)
        requires
            old(self).wf(),
        ensures
            final(self).wf(),
            r is Err <==> old(self).settings().len() + 8 >= row_limit(),
            r is Ok ==> row_views(final(self).settings()) == upsert_all(row_views(old(self).settings()), config_pairs(config@)),
            r is Err ==> final(self).settings() == old(self).settings(),
            final(self).matters() == old(self).matters(),
            final(self).logs() == old(self).logs(),
            final(self).todos() == old(self).todos(),
    {
        if self.settings.len() + 8 >= 0x7fff_0000 {
            return Err(DbError::Full);
        }
        let ghost r0 = row_views(self.settings@);
        let ghost p = config_pairs(config@);
        let conf = hundredths_text_exec(config.auto_archive_confidence);
        assert(upsert_all(r0, p.take(0)) == r0) by {
            assert(p.take(0) =~= Seq::<(Seq<char>, Seq<char>)>::empty());
        }
        self.put_setting(crate::settings::key_api_base_url_chars(), config.api_base_url.clone());
        assert(row_views(self.settings@) == upsert_all(r0, p.take(1))) by {
            assert(p.take(1).drop_last() =~= p.take(0));
            assert(p.take(1).last() == p[0]);
        }
        self.put_setting(crate::settings::key_api_key_chars(), config.api_key.clone());
        assert(row_views(self.settings@) == upsert_all(r0, p.take(2))) by {
            assert(p.take(2).drop_last() =~= p.take(1));
            assert(p.take(2).last() == p[1]);
        }
        self.put_setting(crate::settings::key_model_name_chars(), config.model_name.clone());
        assert(row_views(self.settings@) == upsert_all(r0, p.take(3))) by {
            assert(p.take(3).drop_last() =~= p.take(2));
            assert(p.take(3).last() == p[2]);
        }
        self.put_setting(crate::settings::key_capture_shortcut_chars(), config.capture_shortcut.clone());
        assert(row_views(self.settings@) == upsert_all(r0, p.take(4))) by {
            assert(p.take(4).drop_last() =~= p.take(3));
            assert(p.take(4).last() == p[3]);
        }
        self.put_setting(crate::settings::key_main_window_shortcut_chars(), config.main_window_shortcut.clone());
        assert(row_views(self.settings@) == upsert_all(r0, p.take(5))) by {
            assert(p.take(5).drop_last() =~= p.take(4));
            assert(p.take(5).last() == p[4]);
        }
        self.put_setting(crate::settings::key_confidence_chars(), from_chars(conf.as_slice()));
        assert(row_views(self.settings@) == upsert_all(r0, p.take(6))) by {
            assert(p.take(6).drop_last() =~= p.take(5));
            assert(p.take(6).last() == p[5]);
        }
        self.put_setting(crate::settings::key_user_profile_chars(), config.user_profile.clone());
        assert(row_views(self.settings@) == upsert_all(r0, p.take(7))) by {
            assert(p.take(7).drop_last() =~= p.take(6));
            assert(p.take(7).last() == p[6]);
        }
        self.put_setting(crate::settings::key_theme_chars(), config.theme.clone());
        assert(row_views(self.settings@) == upsert_all(r0, p.take(8))) by {
            assert(p.take(8).drop_last() =~= p.take(7));
            assert(p.take(8).last() == p[7]);
        }
        assert(p.take(8) =~= p);
        Ok(())
    }
}

/// Saving the settings and reading them back gives them unchanged.
pub proof fn lemma_saved_config_reads_back(before: Database, after: Database, c: AppConfig)
    requires
        before.wf(),
        row_views(after.settings()) == upsert_all(row_views(before.settings()), config_pairs(c@)),
    ensures
        config_from_rows(row_views(after.settings())) == c@,
{
    assert(keys_unique(row_views(before.settings()))) by {
        let rv = row_views(before.settings());
        assert forall|i: int, j: int| 0 <= i < j < rv.len() implies rv[i].0 != rv[j].0 by {
            assert(rv[i].0 == before.settings()[i].0@);
            assert(rv[j].0 == before.settings()[j].0@);
        }
    }
    lemma_config_roundtrip(row_views(before.settings()), c@);
}


/// Position of the todo row with identifier `id`, if any.
pub open spec fn vpos(vs: Seq<TodoRowView>, id: Seq<char>) -> Option<int> {
    if exists|i: int| 0 <= i < vs.len() && vs[i].id == id {
        Some(choose|i: int| 0 <= i < vs.len() && vs[i].id == id)
    } else {
        None
    }
}

/// The rows with row `id` changed by `f`.
pub open spec fn vupdated(vs: Seq<TodoRowView>, id: Seq<char>, f: spec_fn(TodoRowView) -> TodoRowView) -> Seq<
    TodoRowView,
> {
    match vpos(vs, id) {
        Some(i) => vs.update(i, f(vs[i])),
        None => vs,
    }
}

/// The matter table after marking the matter of row `id` as changed.
pub open spec fn vtouch(ms: Seq<Matter>, vs: Seq<TodoRowView>, id: Seq<char>, now: String) -> Seq<Matter> {
    match vpos(vs, id) {
        Some(i) => after_touch(ms, vs[i].matter_id, now),
        None => ms,
    }
}

/// Looking a todo up by its row views finds the same position.
pub proof fn lemma_vpos(ts: Seq<TodoItem>, id: Seq<char>)
    requires
        forall|i: int, j: int| 0 <= i < j < ts.len() ==> ts[i].id@ != ts[j].id@,
    ensures
        vpos(todo_views(ts), id) == todo_pos(ts, id),
        forall|f: spec_fn(TodoRowView) -> TodoRowView| #[trigger] vupdated(todo_views(ts), id, f) == views_updated(ts, id, f),
        forall|ms: Seq<Matter>, now: String| #[trigger] vtouch(ms, todo_views(ts), id, now) == touch_todo_matter(ms, ts, id, now),
{
    let vs = todo_views(ts);
    if todo_pos(ts, id) is Some {
        let a = choose|i: int| 0 <= i < ts.len() && ts[i].id@ == id;
        assert(vs[a].id == id);
        let b = choose|i: int| 0 <= i < vs.len() && vs[i].id == id;
        assert(ts[b].id@ == id);
        if a != b {
            if a < b {
                assert(ts[a].id@ != ts[b].id@);
            } else {
                assert(ts[b].id@ != ts[a].id@);
            }
        }
    } else {
        if exists|i: int| 0 <= i < vs.len() && vs[i].id == id {
            let b = choose|i: int| 0 <= i < vs.len() && vs[i].id == id;
            assert(ts[b].id@ == id);
        }
    }
}


/// Whether no two of `keys` are the same text.
fn keys_distinct(keys: &Vec<String>) -> (r: bool)
    ensures
        r == forall|i: int, j: int| 0 <= i < j < keys@.len() ==> keys@[i]@ != keys@[j]@,
{
    let mut i: usize = 0;
    while i < keys.len()
        invariant
            i <= keys@.len(),
            forall|a: int, b: int| 0 <= a < b < keys@.len() && a < i ==> keys@[a]@ != keys@[b]@,
        decreases keys.len() - i,
    {
        let mut j: usize = i + 1;
        while j < keys.len()
            invariant
                i < keys@.len(),
                i + 1 <= j <= keys@.len(),
                forall|a: int, b: int| 0 <= a < b < keys@.len() && a < i ==> keys@[a]@ != keys@[b]@,
                forall|b: int| i < b < j ==> keys@[i as int]@ != keys@[b]@,
            decreases keys.len() - j,
        {
            if same_text(keys[i].as_str(), keys[j].as_str()) {
                return false;
            }
            j = j + 1;
        }
        i = i + 1;
    }
    true
}

/// Whether some matter of `ms` has identifier `id`.
fn has_matter_id(ms: &Vec<Matter>, id: &str) -> (r: bool)
    ensures
        r == (matter_pos(ms@, id@) is Some),
{
    let mut i: usize = 0;
    while i < ms.len()
        invariant
            i <= ms@.len(),
            forall|k: int| 0 <= k < i ==> ms@[k].id@ != id@,
        decreases ms.len() - i,
    {
        if same_text(ms[i].id.as_str(), id) {
            return true;
        }
        i = i + 1;
    }
    false
}

/// Whether some log of `ls` has identifier `id`.
fn has_log_id(ls: &Vec<LogItem>, id: &str) -> (r: bool)
    ensures
        r == (log_pos(ls@, id@) is Some),
{
    let mut i: usize = 0;
    while i < ls.len()
        invariant
            i <= ls@.len(),
            forall|k: int| 0 <= k < i ==> ls@[k].id@ != id@,
        decreases ls.len() - i,
    {
        if same_text(ls[i].id.as_str(), id) {
            return true;
        }
        i = i + 1;
    }
    false
}

impl Database {
    /// The store holding the tables read back from storage, when they keep
    /// the store's rules (see `tables_wf`); `None` otherwise.
    pub fn from_rows(
        matters: Vec<Matter>,
        logs: Vec<LogItem>,
        todos: Vec<TodoItem>,
        settings: Vec<(String, String)>,
    ) -> (r: Option<Database>)
        ensures
            r is Some <==> tables_wf(matters@, logs@, todos@, settings@),
            r matches Some(db) ==> db.matters() == matters@ && db.logs() == logs@ && db.todos() == todos@
                && db.settings() == settings@,
    {
        let limit: usize = 0x7fff_0000;
        if matters.len() >= limit || logs.len() >= limit || todos.len() >= limit || settings.len() >= limit {
            return None;
        }
        let mut mk: Vec<String> = Vec::new();
        let mut k: usize = 0;
        while k < matters.len()
            invariant
                k <= matters@.len(),
                mk@.len() == k,
                forall|i: int| 0 <= i < k ==> (#[trigger] mk@[i])@ == matters@[i].id@,
                forall|i: int| 0 <= i < k ==> valid_matter(#[trigger] matters@[i]),
            decreases matters.len() - k,
        {
            if !check_matter(&matters[k]) {
                return None;
            }
            mk.push(matters[k].id.clone());
            k = k + 1;
        }
        if !keys_distinct(&mk) {
            assert(!(forall|i: int, j: int| 0 <= i < j < matters@.len() ==> matters@[i].id@ != matters@[j].id@)) by {
                let (a, b) = choose|a: int, b: int| 0 <= a < b < mk@.len() && mk@[a]@ == mk@[b]@;
                assert(mk@[a]@ == matters@[a].id@ && mk@[b]@ == matters@[b].id@);
            }
            return None;
        }
        assert forall|i: int, j: int| 0 <= i < j < matters@.len() implies matters@[i].id@ != matters@[j].id@ by {
            assert(mk@[i]@ == matters@[i].id@ && mk@[j]@ == matters@[j].id@);
        }
        let mut lk: Vec<String> = Vec::new();
        k = 0;
        while k < logs.len()
            invariant
                k <= logs@.len(),
                lk@.len() == k,
                forall|i: int| 0 <= i < k ==> (#[trigger] lk@[i])@ == logs@[i].id@,
                forall|i: int|
                    0 <= i < k ==> (#[trigger] logs@[i]).matter_id is Some ==> matter_pos(
                        matters@,
                        logs@[i].matter_id->0@,
                    ) is Some,
            decreases logs.len() - k,
        {
            match &logs[k].matter_id {
                Some(mid) => {
                    if !has_matter_id(&matters, mid.as_str()) {
                        return None;
                    }
                },
                None => {},
            }
            lk.push(logs[k].id.clone());
            k = k + 1;
        }
        if !keys_distinct(&lk) {
            assert(!(forall|i: int, j: int| 0 <= i < j < logs@.len() ==> logs@[i].id@ != logs@[j].id@)) by {
                let (a, b) = choose|a: int, b: int| 0 <= a < b < lk@.len() && lk@[a]@ == lk@[b]@;
                assert(lk@[a]@ == logs@[a].id@ && lk@[b]@ == logs@[b].id@);
            }
            return None;
        }
        assert forall|i: int, j: int| 0 <= i < j < logs@.len() implies logs@[i].id@ != logs@[j].id@ by {
            assert(lk@[i]@ == logs@[i].id@ && lk@[j]@ == logs@[j].id@);
        }
        let mut tk: Vec<String> = Vec::new();
        k = 0;
        while k < todos.len()
            invariant
                k <= todos@.len(),
                tk@.len() == k,
                forall|i: int| 0 <= i < k ==> (#[trigger] tk@[i])@ == todos@[i].id@,
                forall|i: int| 0 <= i < k ==> matter_pos(matters@, (#[trigger] todos@[i]).matter_id@) is Some,
                forall|i: int|
                    0 <= i < k ==> (#[trigger] todos@[i]).log_id is Some ==> log_pos(logs@, todos@[i].log_id->0@) is Some,
                forall|i: int| 0 <= i < k ==> valid_todo_status((#[trigger] todos@[i]).status@),
            decreases todos.len() - k,
        {
            if !has_matter_id(&matters, todos[k].matter_id.as_str()) || !check_todo_status(todos[k].status.as_str()) {
                return None;
            }
            match &todos[k].log_id {
                Some(lid) => {
                    if !has_log_id(&logs, lid.as_str()) {
                        return None;
                    }
                },
                None => {},
            }
            tk.push(todos[k].id.clone());
            k = k + 1;
        }
        if !keys_distinct(&tk) {
            assert(!(forall|i: int, j: int| 0 <= i < j < todos@.len() ==> todos@[i].id@ != todos@[j].id@)) by {
                let (a, b) = choose|a: int, b: int| 0 <= a < b < tk@.len() && tk@[a]@ == tk@[b]@;
                assert(tk@[a]@ == todos@[a].id@ && tk@[b]@ == todos@[b].id@);
            }
            return None;
        }
        assert forall|i: int, j: int| 0 <= i < j < todos@.len() implies todos@[i].id@ != todos@[j].id@ by {
            assert(tk@[i]@ == todos@[i].id@ && tk@[j]@ == todos@[j].id@);
        }
        let mut sk: Vec<String> = Vec::new();
        k = 0;
        while k < settings.len()
            invariant
                k <= settings@.len(),
                sk@.len() == k,
                forall|i: int| 0 <= i < k ==> (#[trigger] sk@[i])@ == settings@[i].0@,
            decreases settings.len() - k,
        {
            sk.push(settings[k].0.clone());
            k = k + 1;
        }
        if !keys_distinct(&sk) {
            assert(!(forall|i: int, j: int| 0 <= i < j < settings@.len() ==> settings@[i].0@ != settings@[j].0@)) by {
                let (a, b) = choose|a: int, b: int| 0 <= a < b < sk@.len() && sk@[a]@ == sk@[b]@;
                assert(sk@[a]@ == settings@[a].0@ && sk@[b]@ == settings@[b].0@);
            }
            return None;
        }
        assert forall|i: int, j: int| 0 <= i < j < settings@.len() implies settings@[i].0@ != settings@[j].0@ by {
            assert(sk@[i]@ == settings@[i].0@ && sk@[j]@ == settings@[j].0@);
        }
        Some(Database { matters, logs, todos, settings })
    }

    /// Copies of the tables, to be written to storage.
    pub fn rows(&self) -> (r: (Vec<Matter>, Vec<LogItem>, Vec<TodoItem>, Vec<(String, String)>))
        ensures
            r.0@ == self.matters(),
            r.1@ == self.logs(),
            r.2@ == self.todos(),
            r.3@ == self.settings(),
    {
        let mut ms: Vec<Matter> = Vec::new();
        let mut k: usize = 0;
        while k < self.matters.len()
            invariant
                k <= self.matters@.len(),
                ms@ == self.matters@.take(k as int),
            decreases self.matters.len() - k,
        {
            ms.push(self.matters[k].copy());
            assert(ms@ =~= self.matters@.take(k + 1));
            k = k + 1;
        }
        let mut ls: Vec<LogItem> = Vec::new();
        k = 0;
        while k < self.logs.len()
            invariant
                k <= self.logs@.len(),
                ls@ == self.logs@.take(k as int),
            decreases self.logs.len() - k,
        {
            ls.push(self.logs[k].copy());
            assert(ls@ =~= self.logs@.take(k + 1));
            k = k + 1;
        }
        let mut ts: Vec<TodoItem> = Vec::new();
        k = 0;
        while k < self.todos.len()
            invariant
                k <= self.todos@.len(),
                ts@ == self.todos@.take(k as int),
            decreases self.todos.len() - k,
        {
            ts.push(self.todos[k].copy());
            assert(ts@ =~= self.todos@.take(k + 1));
            k = k + 1;
        }
        let mut ss: Vec<(String, String)> = Vec::new();
        k = 0;
        while k < self.settings.len()
            invariant
                k <= self.settings@.len(),
                ss@ == self.settings@.take(k as int),
            decreases self.settings.len() - k,
        {
            let row = (self.settings[k].0.clone(), self.settings[k].1.clone());
            assert(row == self.settings@[k as int]);
            ss.push(row);
            assert(ss@ =~= self.settings@.take(k + 1));
            k = k + 1;
        }
        assert(ms@ =~= self.matters@);
        assert(ls@ =~= self.logs@);
        assert(ts@ =~= self.todos@);
        assert(ss@ =~= self.settings@);
        (ms, ls, ts, ss)
    }
}

} // verus!
