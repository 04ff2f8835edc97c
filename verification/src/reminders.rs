//! The reminder scheduler's step: which todos are due, what each
//! notification says, and marking each reminder as sent.
use vstd::prelude::*;
use crate::models::{Matter, TodoItem, TodoRowView, todo_views};
use crate::lits::pending;
use crate::order::text_le;
use crate::store::{Database, reminder_due, rendered_todos, reminder_sent, vupdated, vpos, lemma_vpos};
use crate::seqs::keep;
use crate::text::{from_chars, opt_seq, append_slice, to_chars};

verus! {

/// Sends the reminders of todos as they fall due.
pub struct ReminderService;

/// A notification to show.
pub struct Notice {
    pub title: String,
    pub body: String,
}

/// The title of a todo's reminder: `"待办提醒: 【"`, its matter's title and
/// `"】"`, or `"待办到期提醒"` when it has no matter title.
pub open spec fn reminder_title(matter_title: Option<Seq<char>>) -> Seq<char> {
    match matter_title {
        Some(t) => seq!['待', '办', '提', '醒', ':', ' ', '【'] + t + seq!['】'],
        None => seq!['待', '办', '到', '期', '提', '醒'],
    }
}

/// The rows with the reminders of the todos `ids` marked as sent, one
/// after the other.
pub open spec fn marked_sent(vs: Seq<TodoRowView>, ids: Seq<Seq<char>>) -> Seq<TodoRowView>
    decreases ids.len(),
{
    if ids.len() == 0 {
        vs
    } else {
        vupdated(marked_sent(vs, ids.drop_last()), ids.last(), reminder_sent())
    }
}

/// The identifiers of a list of rows.
pub open spec fn row_ids(vs: Seq<TodoRowView>) -> Seq<Seq<char>> {
    vs.map_values(|v: TodoRowView| v.id)
}

impl ReminderService {
    /// The notification for todo `todo`: its reminder title and its text.
    pub fn notice_for(todo: &TodoItem) -> (n: Notice)
        ensures
            n.title@ == reminder_title(opt_seq(todo.matter_title)),
            n.body@ == todo.content@,
    {
        let title = match &todo.matter_title {
            Some(t) => {
                let mut v: Vec<char> = Vec::new();
                let a: [char; 7] = ['待', '办', '提', '醒', ':', ' ', '【'];
                let b: [char; 1] = ['】'];
                append_slice(&mut v, &a);
                let tv = to_chars(t.as_str());
                append_slice(&mut v, tv.as_slice());
                append_slice(&mut v, &b);
                assert(v@ =~= seq!['待', '办', '提', '醒', ':', ' ', '【'] + t@ + seq!['】']);
                from_chars(v.as_slice())
            },
            None => {
                let n: [char; 6] = ['待', '办', '到', '期', '提', '醒'];
                from_chars(&n)
            },
        };
        Notice { title, body: todo.content.clone() }
    }

    /// One step of the scheduler at `now`: the todos due for a reminder
    /// (see `reminder_due`), with their matters' titles in table order, are
    /// marked as sent and handed back with their notifications.
    pub fn take_due(db: &mut Database, now: &str) -> (r: (Vec<TodoItem>, Vec<Notice>))
        requires
            old(db).wf(),
        ensures
            final(db).wf(),
            todo_views(r.0@) == rendered_todos(keep(old(db).todos(), reminder_due(now@)), old(db).matters()),
            r.1@.len() == r.0@.len(),
            forall|i: int|
                0 <= i < r.1@.len() ==> (#[trigger] r.1@[i]).title@ == reminder_title(opt_seq(r.0@[i].matter_title))
                    && r.1@[i].body@ == r.0@[i].content@,
            todo_views(final(db).todos()) == marked_sent(todo_views(old(db).todos()), row_ids(todo_views(r.0@))),
            forall|i: int|
                0 <= i < r.0@.len() ==> (#[trigger] r.0@[i]).status@ == pending() && r.0@[i].reminder_time is Some
                    && text_le(r.0@[i].reminder_time->0@, now@) && !r.0@[i].is_reminder_sent && exists|j: int|
                    0 <= j < old(db).todos().len() && old(db).todos()[j].id@ == r.0@[i].id@ && old(db).todos()[j].status@
                        == pending(),
            final(db).matters() == old(db).matters(),
            final(db).logs() == old(db).logs(),
            final(db).settings() == old(db).settings(),
    {
        let due = match db.get_due_reminders(now) {
            Ok(v) => v,
            Err(_) => Vec::new(),
        };
        proof {
            lemma_due_rows_are_pending(db.todos(), db.matters(), now@);
            assert forall|i: int| 0 <= i < due@.len() implies todo_views(due@)[i] == (#[trigger] due@[i])@ by {}
        }
        let ghost v0 = todo_views(db.todos());
        let ghost ids = row_ids(todo_views(due@));
        let ghost m0 = db.matters();
        let ghost l0 = db.logs();
        let ghost s0 = db.settings();
        let mut notices: Vec<Notice> = Vec::new();
        let mut k: usize = 0;
        assert(ids.take(0) =~= Seq::<Seq<char>>::empty());
        while k < due.len()
            invariant
                k <= due@.len(),
                db.wf(),
                ids == row_ids(todo_views(due@)),
                notices@.len() == k,
                forall|i: int|
                    0 <= i < k ==> (#[trigger] notices@[i]).title@ == reminder_title(opt_seq(due@[i].matter_title))
                        && notices@[i].body@ == due@[i].content@,
                todo_views(db.todos()) == marked_sent(v0, ids.take(k as int)),
                db.matters() == m0,
                db.logs() == l0,
                db.settings() == s0,
            decreases due.len() - k,
        {
            let t = &due[k];
            notices.push(Self::notice_for(t));
            assert(ids.take(k + 1).drop_last() =~= ids.take(k as int));
            assert(ids.take(k + 1).last() == t.id@);
            proof {
                lemma_vpos(db.todos(), t.id@);
            }
            let _ = db.mark_reminder_sent(t.id.as_str());
            k = k + 1;
        }
        assert(ids.take(due@.len() as int) =~= ids);
        (due, notices)
    }

}


/// Marking the reminders of `ids` as sent, one after the other, marks each
/// row whose identifier is among them and leaves the others.
proof fn lemma_marked_sent(vs: Seq<TodoRowView>, ids: Seq<Seq<char>>)
    requires
        forall|i: int, j: int| 0 <= i < j < vs.len() ==> vs[i].id != vs[j].id,
    ensures
        marked_sent(vs, ids).len() == vs.len(),
        forall|i: int|
            0 <= i < vs.len() ==> #[trigger] marked_sent(vs, ids)[i] == if ids.contains(vs[i].id) {
                reminder_sent()(vs[i])
            } else {
                vs[i]
            },
    decreases ids.len(),
{
    if ids.len() > 0 {
        let rest = ids.drop_last();
        let id = ids.last();
        lemma_marked_sent(vs, rest);
        let prev = marked_sent(vs, rest);
        assert forall|i: int| 0 <= i < vs.len() implies #[trigger] ids.contains(vs[i].id) == (rest.contains(vs[i].id)
            || vs[i].id == id) by {
            if ids.contains(vs[i].id) {
                let k = choose|k: int| 0 <= k < ids.len() && ids[k] == vs[i].id;
                if k < ids.len() - 1 {
                    assert(rest[k] == vs[i].id);
                }
            }
            if rest.contains(vs[i].id) {
                let k = choose|k: int| 0 <= k < rest.len() && rest[k] == vs[i].id;
                assert(ids[k] == vs[i].id);
            }
            if vs[i].id == id {
                assert(ids[ids.len() - 1] == vs[i].id);
            }
        }
        assert forall|i: int| 0 <= i < vs.len() implies (#[trigger] prev[i]).id == vs[i].id by {
            assert(marked_sent(vs, rest)[i] == if rest.contains(vs[i].id) {
                reminder_sent()(vs[i])
            } else {
                vs[i]
            });
        }
        if vpos(prev, id) is Some {
            let j = choose|j: int| 0 <= j < prev.len() && prev[j].id == id;
            assert(vs[j].id == id);
            assert forall|i: int| 0 <= i < vs.len() && i != j implies vs[i].id != id by {
                if i < j {
                    assert(vs[i].id != vs[j].id);
                } else {
                    assert(vs[j].id != vs[i].id);
                }
            }
        } else {
            assert forall|i: int| 0 <= i < vs.len() implies vs[i].id != id by {
                assert(prev[i].id == vs[i].id);
            }
        }
    }
}

/// After one step of the scheduler at `now`, no todo is due for a reminder
/// at `now` any more, and every todo that was due then is marked as sent, so
/// that no later step, at any time, reminds of it again: each reminder is
/// sent once.
pub proof fn lemma_reminders_sent_once(a: Database, b: Database, due: Seq<TodoItem>, now: Seq<char>)
    requires
        a.wf(),
        todo_views(due) == rendered_todos(keep(a.todos(), reminder_due(now)), a.matters()),
        todo_views(b.todos()) == marked_sent(todo_views(a.todos()), row_ids(todo_views(due))),
    ensures
        forall|i: int| 0 <= i < b.todos().len() ==> !reminder_due(now)(#[trigger] b.todos()[i]),
        b.todos().len() == a.todos().len(),
        forall|i: int|
            0 <= i < a.todos().len() && reminder_due(now)(a.todos()[i]) ==> (#[trigger] b.todos()[i]).is_reminder_sent,
        forall|i: int, later: Seq<char>|
            0 <= i < a.todos().len() && reminder_due(now)(a.todos()[i]) ==> !(#[trigger] reminder_due(later)(
                b.todos()[i],
            )),
{
    let ts = a.todos();
    let vs = todo_views(ts);
    let ids = row_ids(todo_views(due));
    let kept = keep(ts, reminder_due(now));
    assert forall|i: int, j: int| 0 <= i < j < vs.len() implies vs[i].id != vs[j].id by {
        assert(vs[i] == ts[i]@ && vs[j] == ts[j]@);
    }
    lemma_marked_sent(vs, ids);
    crate::seqs::lemma_keep(ts, reminder_due(now));
    assert forall|i: int| 0 <= i < b.todos().len() implies !reminder_due(now)(#[trigger] b.todos()[i]) by {
        assert(todo_views(b.todos())[i] == b.todos()[i]@);
        assert(vs[i] == ts[i]@);
        if reminder_due(now)(ts[i]) {
            let k = choose|k: int| 0 <= k < kept.len() && kept[k] == ts[i];
            assert(rendered_todos(kept, a.matters())[k].id == ts[i].id@);
            assert(todo_views(due)[k].id == ts[i].id@);
            assert(ids[k] == vs[i].id);
            assert(ids.contains(vs[i].id));
        }
    }
    assert(todo_views(b.todos()).len() == b.todos().len());
    assert forall|i: int|
        0 <= i < a.todos().len() && reminder_due(now)(a.todos()[i]) implies (#[trigger] b.todos()[i]).is_reminder_sent by {
        assert(todo_views(b.todos())[i] == b.todos()[i]@);
        assert(vs[i] == ts[i]@);
        let k = choose|k: int| 0 <= k < kept.len() && kept[k] == ts[i];
        assert(rendered_todos(kept, a.matters())[k].id == ts[i].id@);
        assert(todo_views(due)[k].id == ts[i].id@);
        assert(ids[k] == vs[i].id);
        assert(ids.contains(vs[i].id));
    }
}

/// Only pending todos are reminded: every row the scheduler finds due at
/// `now` is a todo of the store whose status is `"pending"`, whose reminder
/// time is set and not after `now`, and whose reminder was not yet sent. A
/// completed todo never yields a notice.
pub proof fn lemma_due_rows_are_pending(ts: Seq<TodoItem>, ms: Seq<Matter>, now: Seq<char>)
    ensures
        forall|i: int|
            0 <= i < rendered_todos(keep(ts, reminder_due(now)), ms).len() ==> {
                let v = #[trigger] rendered_todos(keep(ts, reminder_due(now)), ms)[i];
                &&& v.status == pending()
                &&& v.reminder_time matches Some(rt) && text_le(rt, now)
                &&& !v.is_reminder_sent
                &&& exists|j: int| 0 <= j < ts.len() && ts[j].id@ == v.id && ts[j].status@ == pending()
            },
{
    crate::seqs::lemma_keep(ts, reminder_due(now));
    let k = keep(ts, reminder_due(now));
    assert forall|i: int| 0 <= i < rendered_todos(k, ms).len() implies {
        let v = #[trigger] rendered_todos(k, ms)[i];
        &&& v.status == pending()
        &&& v.reminder_time matches Some(rt) && text_le(rt, now)
        &&& !v.is_reminder_sent
        &&& exists|j: int| 0 <= j < ts.len() && ts[j].id@ == v.id && ts[j].status@ == pending()
    } by {
        assert(reminder_due(now)(k[i]));
        let j = choose|j: int| 0 <= j < ts.len() && ts[j] == k[i];
        assert(ts[j].id@ == rendered_todos(k, ms)[i].id);
    }
}

} // verus!
