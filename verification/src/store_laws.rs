//! Laws that relate several store operations: what one call undoes of
//! another.
use vstd::prelude::*;
use crate::models::{Matter, TodoItem, TodoRowView, todo_views};
use crate::timefmt::{ends_late, lemma_normalized_not_late, lemma_normalize_idempotent, normalize_time_spec};
use crate::store::{
    Database, matter_pos, todo_pos, after_pin, after_touch, views_updated, status_set, stored_view, todo_edited,
};
use crate::lits::pending;

verus! {

/// A matter's position is found again after one of its columns other than
/// the identifier changed.
proof fn lemma_matter_pos_kept(ms: Seq<Matter>, ms2: Seq<Matter>, id: Seq<char>)
    requires
        ms.len() == ms2.len(),
        forall|i: int| 0 <= i < ms.len() ==> (#[trigger] ms2[i]).id@ == ms[i].id@,
        forall|i: int, j: int| 0 <= i < j < ms.len() ==> ms[i].id@ != ms[j].id@,
    ensures
        matter_pos(ms2, id) == matter_pos(ms, id),
{
    if matter_pos(ms, id) is Some {
        let a = choose|i: int| 0 <= i < ms.len() && ms[i].id@ == id;
        assert(ms2[a].id@ == id);
        let b = choose|i: int| 0 <= i < ms2.len() && ms2[i].id@ == id;
        assert(ms[b].id@ == id);
        if a != b {
            if a < b {
                assert(ms[a].id@ != ms[b].id@);
            } else {
                assert(ms[b].id@ != ms[a].id@);
            }
        }
    } else {
        if exists|i: int| 0 <= i < ms2.len() && ms2[i].id@ == id {
            let b = choose|i: int| 0 <= i < ms2.len() && ms2[i].id@ == id;
            assert(ms[b].id@ == id);
        }
    }
}

/// Pinning a matter and then pinning it again gives back the matter as it
/// was, but for its time of change, which is that of the second call.
pub proof fn lemma_pin_twice(a: Database, b: Database, c: Database, id: Seq<char>, t1: String, t2: String)
    requires
        a.wf(),
        b.matters() == after_pin(a.matters(), id, t1),
        c.matters() == after_pin(b.matters(), id, t2),
    ensures
        c.matters() == after_touch(a.matters(), id, t2),
{
    let ms = a.matters();
    let ms2 = b.matters();
    if matter_pos(ms, id) is Some {
        let i = matter_pos(ms, id)->0;
        assert forall|k: int| 0 <= k < ms.len() implies (#[trigger] ms2[k]).id@ == ms[k].id@ by {
            if k != i {
                assert(ms2[k] == ms[k]);
            }
        }
        lemma_matter_pos_kept(ms, ms2, id);
        assert(c.matters() =~= after_touch(ms, id, t2));
    } else {
        lemma_matter_pos_kept(ms, ms2, id);
    }
}

/// A todo's position is found again after one of its columns other than the
/// identifier changed.
proof fn lemma_todo_pos_kept(ts: Seq<TodoItem>, ts2: Seq<TodoItem>, id: Seq<char>)
    requires
        ts.len() == ts2.len(),
        forall|i: int| 0 <= i < ts.len() ==> (#[trigger] ts2[i]).id@ == ts[i].id@,
        forall|i: int, j: int| 0 <= i < j < ts.len() ==> ts[i].id@ != ts[j].id@,
    ensures
        todo_pos(ts2, id) == todo_pos(ts, id),
{
    if todo_pos(ts, id) is Some {
        let a = choose|i: int| 0 <= i < ts.len() && ts[i].id@ == id;
        assert(ts2[a].id@ == id);
        let b = choose|i: int| 0 <= i < ts2.len() && ts2[i].id@ == id;
        assert(ts[b].id@ == id);
        if a != b {
            if a < b {
                assert(ts[a].id@ != ts[b].id@);
            } else {
                assert(ts[b].id@ != ts[a].id@);
            }
        }
    } else {
        if exists|i: int| 0 <= i < ts2.len() && ts2[i].id@ == id {
            let b = choose|i: int| 0 <= i < ts2.len() && ts2[i].id@ == id;
            assert(ts[b].id@ == id);
        }
    }
}

/// Marking an open todo done and then open again gives it back as it was:
/// pending, with no completion time; every other todo is untouched.
pub proof fn lemma_close_then_reopen(a: Database, b: Database, c: Database, id: Seq<char>, t1: Seq<char>, t2: Seq<char>)
    requires
        a.wf(),
        todo_pos(a.todos(), id) matches Some(i) ==> a.todos()[i].status@ == pending() && a.todos()[i].completed_at is None,
        todo_views(b.todos()) == views_updated(a.todos(), id, status_set(true, t1)),
        todo_views(c.todos()) == views_updated(b.todos(), id, status_set(false, t2)),
    ensures
        todo_views(c.todos()) == todo_views(a.todos()),
{
    let ts = a.todos();
    let ts2 = b.todos();
    assert(todo_views(ts2).len() == todo_views(ts).len());
    assert forall|k: int| 0 <= k < ts.len() implies (#[trigger] ts2[k]).id@ == ts[k].id@ by {
        assert(todo_views(ts2)[k] == ts2[k]@);
        assert(todo_views(ts)[k] == ts[k]@);
    }
    lemma_todo_pos_kept(ts, ts2, id);
    if todo_pos(ts, id) is Some {
        let i = todo_pos(ts, id)->0;
        assert(todo_views(ts2)[i] == ts2[i]@);
        assert(todo_views(ts)[i] == ts[i]@);
        assert(todo_views(c.todos()) =~= todo_views(ts));
    }
}


/// A todo is never stored due, or reminded, at 23:59: its times are kept
/// in normal form (see `lemma_normalized_not_late`).
pub proof fn lemma_stored_not_late(v: TodoRowView)
    ensures
        stored_view(v).due_time matches Some(d) ==> !ends_late(d),
        stored_view(v).reminder_time matches Some(r) ==> !ends_late(r),
{
    lemma_normalized_not_late(v.due_time);
    lemma_normalized_not_late(v.reminder_time);
}


/// Editing a todo and then editing it back to its earlier text and due time
/// gives back that text and due time, when the due time was in normal form
/// as the store keeps it; its reminder then follows the due time, and every
/// other todo is untouched.
pub proof fn lemma_update_then_undo(
    a: Database,
    b: Database,
    c: Database,
    id: Seq<char>,
    content: Seq<char>,
    due: Option<Seq<char>>,
)
    requires
        a.wf(),
        todo_pos(a.todos(), id) matches Some(i) ==> normalize_time_spec(a.todos()[i]@.due_time) == a.todos()[i]@.due_time,
        todo_views(b.todos()) == views_updated(a.todos(), id, todo_edited(content, due, None)),
        todo_pos(a.todos(), id) matches Some(i) ==> todo_views(c.todos()) == views_updated(
            b.todos(),
            id,
            todo_edited(a.todos()[i]@.content, a.todos()[i]@.due_time, None),
        ),
    ensures
        todo_pos(a.todos(), id) matches Some(i) ==> {
            &&& todo_views(c.todos()).len() == todo_views(a.todos()).len()
            &&& todo_views(c.todos())[i] == TodoRowView {
                reminder_time: a.todos()[i]@.due_time,
                is_reminder_sent: false,
                ..todo_views(a.todos())[i]
            }
            &&& forall|k: int| 0 <= k < todo_views(a.todos()).len() && k != i ==> #[trigger] todo_views(c.todos())[k] == todo_views(a.todos())[k]
        },
{
    let ts = a.todos();
    let ts2 = b.todos();
    assert(todo_views(ts2).len() == todo_views(ts).len());
    assert forall|k: int| 0 <= k < ts.len() implies (#[trigger] ts2[k]).id@ == ts[k].id@ by {
        assert(todo_views(ts2)[k] == ts2[k]@);
        assert(todo_views(ts)[k] == ts[k]@);
    }
    lemma_todo_pos_kept(ts, ts2, id);
    if todo_pos(ts, id) is Some {
        let i = todo_pos(ts, id)->0;
        assert(todo_views(ts2)[i] == ts2[i]@);
        assert(todo_views(ts)[i] == ts[i]@);
        lemma_normalize_idempotent(ts[i]@.due_time);
    }
}


/// A matter the store took is found again under its identifier, as it was
/// given (reading it back adds its figures, see `rendered`).
pub proof fn lemma_created_matter_found(a: Database, b: Database, m: Matter)
    requires
        a.wf(),
        matter_pos(a.matters(), m.id@) is None,
        b.matters() == a.matters().push(m),
    ensures
        matter_pos(b.matters(), m.id@) == Some(a.matters().len() as int),
        b.matters()[a.matters().len() as int] == m,
{
    let ms = b.matters();
    let n = a.matters().len() as int;
    assert(ms[n].id@ == m.id@);
    let c = choose|i: int| 0 <= i < ms.len() && ms[i].id@ == m.id@;
    if c != n {
        assert(a.matters()[c].id@ == m.id@);
    }
}

} // verus!
