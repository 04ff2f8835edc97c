//! The sample matters and todos a new store starts with.
use vstd::prelude::*;
use crate::models::{Matter, TodoItem, TodoRowView, todo_views};
use crate::store::{Database, same_db, after_touch, stored_view, matter_pos, todo_pos};
use crate::seqs::lemma_keep;
use crate::text::{from_chars, opt_seq};

verus! {

/// A literal as a `String`.
fn text_of(v: &[char]) -> (r: String)
    ensures
        r@ == v@,
{
    from_chars(v)
}

/// Whether `m` is sample matter `k` (0, 1 or 2).
pub open spec fn seed_matter(m: Matter, k: int) -> bool {
    if k == 0 {
        &&& m.id@ == seq!['m', '_', '0', '0', '1']
        &&& m.title@ == seq!['A', '银', '行', '系', '统', '技', '术', '架', '构', '白', '皮', '书', '交', '付']
        &&& m.overview@ == seq!['面', '向', 'A', '银', '行', '核', '心', '业', '务', '系', '统', '升', '级', '重', '构', '的', '技', '术', '白', '皮', '书', '，', '包', '含', '性', '能', '基', '准', '与', '高', '可', '用', '设', '计', '。']
        &&& m.fact_summary@ == seq!['•', ' ', '商', '务', '约', '束', ':', ' ', '本', '周', '提', '交', '审', '定', '版', '本', '\n', '•', ' ', '性', '能', '指', '标', ':', ' ', 'T', 'P', 'S', '必', '须', '大', '于', '5', '0', '0', '0', '，', 'P', '9', '9', '延', '迟', '低', '于', '5', '0', 'm', 's', '\n', '•', ' ', '关', '键', '对', '接', '人', ':', ' ', '客', '户', '侧', '张', '总', '，', '架', '构', '师', '李', '工']
        &&& m.category@ == seq!['w', 'o', 'r', 'k']
        &&& m.priority@ == seq!['h', 'i', 'g', 'h']
        &&& m.importance == 5
        &&& m.status@ == seq!['a', 'c', 't', 'i', 'v', 'e']
        &&& m.is_pinned == true
        &&& m.created_at@ == seq!['2', '0', '2', '6', '-', '0', '9', '-', '2', '0', ' ', '1', '0', ':', '0', '0', ':', '0', '0']
        &&& m.updated_at@ == seq!['2', '0', '2', '6', '-', '0', '9', '-', '2', '0', ' ', '2', '3', ':', '1', '0', ':', '0', '0']
        &&& m.pending_todos_count == 2
        &&& m.total_todos_count == 3
        &&& opt_seq(m.latest_log_snippet) == Some(seq!['张', '总', '在', '微', '信', '群', '强', '调', '周', '三', '上', '午', '1', '0', '点', '前', '提', '交', '白', '皮', '书', '终', '版'])
        &&& opt_seq(m.latest_log_time) == Some(seq!['2', '0', '2', '6', '-', '0', '9', '-', '2', '0', ' ', '2', '3', ':', '1', '0', ':', '0', '0'])
        &&& opt_seq(m.latest_todo_content) == Some(seq!['补', '全', '白', '皮', '书', '性', '能', '指', '标', '与', '基', '准', '压', '测', '数', '据'])
        &&& opt_seq(m.latest_todo_due_time) == Some(seq!['2', '0', '2', '6', '-', '0', '9', '-', '2', '3', ' ', '1', '0', ':', '0', '0', ':', '0', '0'])
        &&& opt_seq(m.latest_todo_status) == Some(seq!['p', 'e', 'n', 'd', 'i', 'n', 'g'])
        &&& m.related_contacts@ == seq!['A', '银', '行', '项', '目', '交', '付', '群', ',', ' ', '张', '总', ',', ' ', '架', '构', '师', '李', '工']
    } else if k == 1 {
        &&& m.id@ == seq!['m', '_', '0', '0', '2']
        &&& m.title@ == seq!['智', '能', '巡', '检', '系', '统', '二', '期', '传', '感', '器', '供', '应', '链', '评', '估']
        &&& m.overview@ == seq!['调', '研', '二', '期', '高', '精', '度', '红', '外', '与', '振', '动', '传', '感', '器', '供', '应', '商', '报', '价', '及', '交', '期', '周', '期', '。']
        &&& m.fact_summary@ == seq!['•', ' ', '第', '一', '期', '硬', '件', '打', '样', '已', '通', '过', '高', '低', '温', '测', '试', '\n', '•', ' ', '待', '供', '应', '商', '提', '供', '第', '二', '批', '次', '阶', '梯', '报', '价', '单']
        &&& m.category@ == seq!['w', 'o', 'r', 'k']
        &&& m.priority@ == seq!['m', 'e', 'd', 'i', 'u', 'm']
        &&& m.importance == 4
        &&& m.status@ == seq!['a', 'c', 't', 'i', 'v', 'e']
        &&& m.is_pinned == false
        &&& m.created_at@ == seq!['2', '0', '2', '6', '-', '0', '9', '-', '1', '8', ' ', '1', '4', ':', '0', '0', ':', '0', '0']
        &&& m.updated_at@ == seq!['2', '0', '2', '6', '-', '0', '9', '-', '1', '9', ' ', '1', '6', ':', '3', '0', ':', '0', '0']
        &&& m.pending_todos_count == 1
        &&& m.total_todos_count == 1
        &&& opt_seq(m.latest_log_snippet) == Some(seq!['企', '微', '收', '到', '供', '应', '商', '技', '术', '选', '型', '参', '数', '手', '册'])
        &&& opt_seq(m.latest_log_time) == Some(seq!['2', '0', '2', '6', '-', '0', '9', '-', '1', '9', ' ', '1', '6', ':', '3', '0', ':', '0', '0'])
        &&& opt_seq(m.latest_todo_content) == Some(seq!['催', '促', '两', '家', '核', '心', '供', '应', '商', '在', '周', '五', '前', '提', '交', '二', '期', '红', '外', '传', '感', '器', '阶', '梯', '报', '价', '单'])
        &&& opt_seq(m.latest_todo_due_time) == Some(seq!['2', '0', '2', '6', '-', '0', '9', '-', '2', '5', ' ', '1', '8', ':', '0', '0', ':', '0', '0'])
        &&& opt_seq(m.latest_todo_status) == Some(seq!['p', 'e', 'n', 'd', 'i', 'n', 'g'])
        &&& m.related_contacts@ == seq!['二', '期', '巡', '检', '硬', '件', '组', ',', ' ', '传', '感', '器', '供', '应', '商', '交', '流', '群', ',', ' ', 'L', 'e', 'o']
    } else if k == 2 {
        &&& m.id@ == seq!['m', '_', '0', '0', '3']
        &&& m.title@ == seq!['家', '庭', '宽', '带', '光', '纤', '升', '兆', '与', '网', '络', '拓', '扑', '升', '级']
        &&& m.overview@ == seq!['联', '系', '运', '营', '商', '完', '成', 'F', 'T', 'T', 'R', '全', '光', '纤', '入', '室', '改', '造', '与', 'N', 'A', 'S', '局', '域', '网', '万', '兆', '升', '级', '。']
        &&& m.fact_summary@ == seq!['•', ' ', '已', '预', '约', '下', '周', '六', '上', '午', '师', '傅', '上', '门', '测', '速']
        &&& m.category@ == seq!['l', 'i', 'f', 'e']
        &&& m.priority@ == seq!['l', 'o', 'w']
        &&& m.importance == 2
        &&& m.status@ == seq!['a', 'c', 't', 'i', 'v', 'e']
        &&& m.is_pinned == false
        &&& m.created_at@ == seq!['2', '0', '2', '6', '-', '0', '9', '-', '1', '7', ' ', '0', '9', ':', '0', '0', ':', '0', '0']
        &&& m.updated_at@ == seq!['2', '0', '2', '6', '-', '0', '9', '-', '1', '8', ' ', '1', '1', ':', '2', '0', ':', '0', '0']
        &&& m.pending_todos_count == 1
        &&& m.total_todos_count == 1
        &&& opt_seq(m.latest_log_snippet) == Some(seq!['联', '通', '短', '信', '通', '知', '套', '餐', '升', '级', '已', '生', '效'])
        &&& opt_seq(m.latest_log_time) == Some(seq!['2', '0', '2', '6', '-', '0', '9', '-', '1', '8', ' ', '1', '1', ':', '2', '0', ':', '0', '0'])
        &&& opt_seq(m.latest_todo_content) == Some(seq!['周', '六', '上', '午', '等', '待', '师', '傅', '上', '门', 'F', 'T', 'T', 'R', '光', '纤', '布', '线', '与', '测', '速', '验', '收'])
        &&& opt_seq(m.latest_todo_due_time) == Some(seq!['2', '0', '2', '6', '-', '0', '9', '-', '2', '6', ' ', '1', '0', ':', '0', '0', ':', '0', '0'])
        &&& opt_seq(m.latest_todo_status) == Some(seq!['p', 'e', 'n', 'd', 'i', 'n', 'g'])
        &&& m.related_contacts@ == seq!['中', '国', '联', '通', '客', '户', '经', '理', ',', ' ', '安', '装', '师', '傅', '小', '周', ',', ' ', '家', '庭', '群']
    } else {
        false
    }
}

/// The sample todos, both under the first sample matter.
pub open spec fn seed_todo_rows() -> Seq<TodoRowView> {
    seq![
        TodoRowView {
            id: seq!['t', '_', '0', '0', '1'],
            matter_id: seq!['m', '_', '0', '0', '1'],
            log_id: None,
            content: seq!['补', '全', '白', '皮', '书', '性', '能', '指', '标', '与', '基', '准', '压', '测', '数', '据'],
            due_time: Some(seq!['2', '0', '2', '6', '-', '0', '9', '-', '2', '3', ' ', '1', '0', ':', '0', '0', ':', '0', '0']),
            reminder_time: Some(seq!['2', '0', '2', '6', '-', '0', '9', '-', '2', '3', ' ', '0', '9', ':', '3', '0', ':', '0', '0']),
            is_reminder_sent: false,
            status: seq!['p', 'e', 'n', 'd', 'i', 'n', 'g'],
            is_focused: true,
            created_at: seq!['2', '0', '2', '6', '-', '0', '9', '-', '2', '0', ' ', '2', '3', ':', '1', '0', ':', '0', '0'],
            completed_at: None,
            matter_title: Some(seq!['A', '银', '行', '系', '统', '技', '术', '架', '构', '白', '皮', '书', '交', '付']),
        },
        TodoRowView {
            id: seq!['t', '_', '0', '0', '2'],
            matter_id: seq!['m', '_', '0', '0', '1'],
            log_id: None,
            content: seq!['向', '张', '总', '邮', '件', '发', '送', '技', '术', '架', '构', '正', '式', '审', '定', '版'],
            due_time: Some(seq!['2', '0', '2', '6', '-', '0', '9', '-', '2', '3', ' ', '1', '7', ':', '0', '0', ':', '0', '0']),
            reminder_time: Some(seq!['2', '0', '2', '6', '-', '0', '9', '-', '2', '3', ' ', '1', '6', ':', '3', '0', ':', '0', '0']),
            is_reminder_sent: false,
            status: seq!['p', 'e', 'n', 'd', 'i', 'n', 'g'],
            is_focused: false,
            created_at: seq!['2', '0', '2', '6', '-', '0', '9', '-', '2', '0', ' ', '2', '3', ':', '1', '0', ':', '0', '0'],
            completed_at: None,
            matter_title: Some(seq!['A', '银', '行', '系', '统', '技', '术', '架', '构', '白', '皮', '书', '交', '付']),
        },
    ]
}

/// The first sample matter's identifier.
pub open spec fn first_seed_id() -> Seq<char> {
    seq!['m', '_', '0', '0', '1']
}

/// Whether `b` is the empty store `a` filled with the samples at `now`: the
/// three matters, then the two todos, each of which marks the first matter
/// as changed.
pub open spec fn seeded(a: Database, b: Database, now: String) -> bool {
    &&& exists|x: Matter, y: Matter, z: Matter|
        #[trigger] seed_matter(x, 0) && #[trigger] seed_matter(y, 1) && #[trigger] seed_matter(z, 2)
            && b.matters() == after_touch(after_touch(seq![x, y, z], first_seed_id(), now), first_seed_id(), now)
    &&& todo_views(b.todos()) == seed_todo_rows().map_values(|v: TodoRowView| stored_view(v))
    &&& b.logs() == a.logs()
    &&& b.settings() == a.settings()
}

/// Fills a store that holds no matter with the samples at `now`; a store
/// with matters is left alone.
pub fn init_seed_data_if_empty(db: &mut Database, now: &String)
    requires
        old(db).wf(),
    ensures
        final(db).wf(),
        old(db).matters().len() == 0 ==> seeded(*old(db), *final(db), *now),
        old(db).matters().len() > 0 ==> same_db(*final(db), *old(db)),
{
    let all = match db.get_matters(None, None, None) {
        Ok(v) => v,
        Err(_) => Vec::new(),
    };
    proof {
        let ms = db.matters();
        let p = crate::store::matter_passes(None, None);
        lemma_keep(ms, p);
        if ms.len() > 0 {
            assert(p(ms[0]));
        }
    }
    if all.len() > 0 {
        return;
    }
    let ghost before = *db;
    proof {
        if db.todos().len() > 0 {
            assert(matter_pos(db.matters(), db.todos()[0].matter_id@) is Some);
        }
    }
    let m0 = Matter {
        id: text_of(&['m', '_', '0', '0', '1']),
        title: text_of(&['A', '银', '行', '系', '统', '技', '术', '架', '构', '白', '皮', '书', '交', '付']),
        overview: text_of(&['面', '向', 'A', '银', '行', '核', '心', '业', '务', '系', '统', '升', '级', '重', '构', '的', '技', '术', '白', '皮', '书', '，', '包', '含', '性', '能', '基', '准', '与', '高', '可', '用', '设', '计', '。']),
        fact_summary: text_of(&['•', ' ', '商', '务', '约', '束', ':', ' ', '本', '周', '提', '交', '审', '定', '版', '本', '\n', '•', ' ', '性', '能', '指', '标', ':', ' ', 'T', 'P', 'S', '必', '须', '大', '于', '5', '0', '0', '0', '，', 'P', '9', '9', '延', '迟', '低', '于', '5', '0', 'm', 's', '\n', '•', ' ', '关', '键', '对', '接', '人', ':', ' ', '客', '户', '侧', '张', '总', '，', '架', '构', '师', '李', '工']),
        category: text_of(&['w', 'o', 'r', 'k']),
        priority: text_of(&['h', 'i', 'g', 'h']),
        importance: 5,
        status: text_of(&['a', 'c', 't', 'i', 'v', 'e']),
        is_pinned: true,
        created_at: text_of(&['2', '0', '2', '6', '-', '0', '9', '-', '2', '0', ' ', '1', '0', ':', '0', '0', ':', '0', '0']),
        updated_at: text_of(&['2', '0', '2', '6', '-', '0', '9', '-', '2', '0', ' ', '2', '3', ':', '1', '0', ':', '0', '0']),
        pending_todos_count: 2,
        total_todos_count: 3,
        latest_log_snippet: Some(text_of(&['张', '总', '在', '微', '信', '群', '强', '调', '周', '三', '上', '午', '1', '0', '点', '前', '提', '交', '白', '皮', '书', '终', '版'])),
        latest_log_time: Some(text_of(&['2', '0', '2', '6', '-', '0', '9', '-', '2', '0', ' ', '2', '3', ':', '1', '0', ':', '0', '0'])),
        latest_todo_content: Some(text_of(&['补', '全', '白', '皮', '书', '性', '能', '指', '标', '与', '基', '准', '压', '测', '数', '据'])),
        latest_todo_due_time: Some(text_of(&['2', '0', '2', '6', '-', '0', '9', '-', '2', '3', ' ', '1', '0', ':', '0', '0', ':', '0', '0'])),
        latest_todo_status: Some(text_of(&['p', 'e', 'n', 'd', 'i', 'n', 'g'])),
        related_contacts: text_of(&['A', '银', '行', '项', '目', '交', '付', '群', ',', ' ', '张', '总', ',', ' ', '架', '构', '师', '李', '工']),
    };
    let m1 = Matter {
        id: text_of(&['m', '_', '0', '0', '2']),
        title: text_of(&['智', '能', '巡', '检', '系', '统', '二', '期', '传', '感', '器', '供', '应', '链', '评', '估']),
        overview: text_of(&['调', '研', '二', '期', '高', '精', '度', '红', '外', '与', '振', '动', '传', '感', '器', '供', '应', '商', '报', '价', '及', '交', '期', '周', '期', '。']),
        fact_summary: text_of(&['•', ' ', '第', '一', '期', '硬', '件', '打', '样', '已', '通', '过', '高', '低', '温', '测', '试', '\n', '•', ' ', '待', '供', '应', '商', '提', '供', '第', '二', '批', '次', '阶', '梯', '报', '价', '单']),
        category: text_of(&['w', 'o', 'r', 'k']),
        priority: text_of(&['m', 'e', 'd', 'i', 'u', 'm']),
        importance: 4,
        status: text_of(&['a', 'c', 't', 'i', 'v', 'e']),
        is_pinned: false,
        created_at: text_of(&['2', '0', '2', '6', '-', '0', '9', '-', '1', '8', ' ', '1', '4', ':', '0', '0', ':', '0', '0']),
        updated_at: text_of(&['2', '0', '2', '6', '-', '0', '9', '-', '1', '9', ' ', '1', '6', ':', '3', '0', ':', '0', '0']),
        pending_todos_count: 1,
        total_todos_count: 1,
        latest_log_snippet: Some(text_of(&['企', '微', '收', '到', '供', '应', '商', '技', '术', '选', '型', '参', '数', '手', '册'])),
        latest_log_time: Some(text_of(&['2', '0', '2', '6', '-', '0', '9', '-', '1', '9', ' ', '1', '6', ':', '3', '0', ':', '0', '0'])),
        latest_todo_content: Some(text_of(&['催', '促', '两', '家', '核', '心', '供', '应', '商', '在', '周', '五', '前', '提', '交', '二', '期', '红', '外', '传', '感', '器', '阶', '梯', '报', '价', '单'])),
        latest_todo_due_time: Some(text_of(&['2', '0', '2', '6', '-', '0', '9', '-', '2', '5', ' ', '1', '8', ':', '0', '0', ':', '0', '0'])),
        latest_todo_status: Some(text_of(&['p', 'e', 'n', 'd', 'i', 'n', 'g'])),
        related_contacts: text_of(&['二', '期', '巡', '检', '硬', '件', '组', ',', ' ', '传', '感', '器', '供', '应', '商', '交', '流', '群', ',', ' ', 'L', 'e', 'o']),
    };
    let m2 = Matter {
        id: text_of(&['m', '_', '0', '0', '3']),
        title: text_of(&['家', '庭', '宽', '带', '光', '纤', '升', '兆', '与', '网', '络', '拓', '扑', '升', '级']),
        overview: text_of(&['联', '系', '运', '营', '商', '完', '成', 'F', 'T', 'T', 'R', '全', '光', '纤', '入', '室', '改', '造', '与', 'N', 'A', 'S', '局', '域', '网', '万', '兆', '升', '级', '。']),
        fact_summary: text_of(&['•', ' ', '已', '预', '约', '下', '周', '六', '上', '午', '师', '傅', '上', '门', '测', '速']),
        category: text_of(&['l', 'i', 'f', 'e']),
        priority: text_of(&['l', 'o', 'w']),
        importance: 2,
        status: text_of(&['a', 'c', 't', 'i', 'v', 'e']),
        is_pinned: false,
        created_at: text_of(&['2', '0', '2', '6', '-', '0', '9', '-', '1', '7', ' ', '0', '9', ':', '0', '0', ':', '0', '0']),
        updated_at: text_of(&['2', '0', '2', '6', '-', '0', '9', '-', '1', '8', ' ', '1', '1', ':', '2', '0', ':', '0', '0']),
        pending_todos_count: 1,
        total_todos_count: 1,
        latest_log_snippet: Some(text_of(&['联', '通', '短', '信', '通', '知', '套', '餐', '升', '级', '已', '生', '效'])),
        latest_log_time: Some(text_of(&['2', '0', '2', '6', '-', '0', '9', '-', '1', '8', ' ', '1', '1', ':', '2', '0', ':', '0', '0'])),
        latest_todo_content: Some(text_of(&['周', '六', '上', '午', '等', '待', '师', '傅', '上', '门', 'F', 'T', 'T', 'R', '光', '纤', '布', '线', '与', '测', '速', '验', '收'])),
        latest_todo_due_time: Some(text_of(&['2', '0', '2', '6', '-', '0', '9', '-', '2', '6', ' ', '1', '0', ':', '0', '0', ':', '0', '0'])),
        latest_todo_status: Some(text_of(&['p', 'e', 'n', 'd', 'i', 'n', 'g'])),
        related_contacts: text_of(&['中', '国', '联', '通', '客', '户', '经', '理', ',', ' ', '安', '装', '师', '傅', '小', '周', ',', ' ', '家', '庭', '群']),
    };
    let _ = db.create_matter(&m0);
    assert(m1.id@[4] != m0.id@[4]);
    let _ = db.create_matter(&m1);
    assert(db.matters() == seq![m0, m1]);
    assert(m2.id@[4] != m0.id@[4] && m2.id@[4] != m1.id@[4]);
    let _ = db.create_matter(&m2);
    assert(db.matters() == seq![m0, m1, m2]);
    let t0 = TodoItem {
        id: text_of(&['t', '_', '0', '0', '1']),
        matter_id: text_of(&['m', '_', '0', '0', '1']),
        log_id: None,
        content: text_of(&['补', '全', '白', '皮', '书', '性', '能', '指', '标', '与', '基', '准', '压', '测', '数', '据']),
        due_time: Some(text_of(&['2', '0', '2', '6', '-', '0', '9', '-', '2', '3', ' ', '1', '0', ':', '0', '0', ':', '0', '0'])),
        reminder_time: Some(text_of(&['2', '0', '2', '6', '-', '0', '9', '-', '2', '3', ' ', '0', '9', ':', '3', '0', ':', '0', '0'])),
        is_reminder_sent: false,
        status: text_of(&['p', 'e', 'n', 'd', 'i', 'n', 'g']),
        is_focused: true,
        created_at: text_of(&['2', '0', '2', '6', '-', '0', '9', '-', '2', '0', ' ', '2', '3', ':', '1', '0', ':', '0', '0']),
        completed_at: None,
        matter_title: Some(text_of(&['A', '银', '行', '系', '统', '技', '术', '架', '构', '白', '皮', '书', '交', '付'])),
    };
    let t1 = TodoItem {
        id: text_of(&['t', '_', '0', '0', '2']),
        matter_id: text_of(&['m', '_', '0', '0', '1']),
        log_id: None,
        content: text_of(&['向', '张', '总', '邮', '件', '发', '送', '技', '术', '架', '构', '正', '式', '审', '定', '版']),
        due_time: Some(text_of(&['2', '0', '2', '6', '-', '0', '9', '-', '2', '3', ' ', '1', '7', ':', '0', '0', ':', '0', '0'])),
        reminder_time: Some(text_of(&['2', '0', '2', '6', '-', '0', '9', '-', '2', '3', ' ', '1', '6', ':', '3', '0', ':', '0', '0'])),
        is_reminder_sent: false,
        status: text_of(&['p', 'e', 'n', 'd', 'i', 'n', 'g']),
        is_focused: false,
        created_at: text_of(&['2', '0', '2', '6', '-', '0', '9', '-', '2', '0', ' ', '2', '3', ':', '1', '0', ':', '0', '0']),
        completed_at: None,
        matter_title: Some(text_of(&['A', '银', '行', '系', '统', '技', '术', '架', '构', '白', '皮', '书', '交', '付'])),
    };
    assert(t0@ == seed_todo_rows()[0]);
    assert(t1@ == seed_todo_rows()[1]);
    assert(matter_pos(seq![m0, m1, m2], first_seed_id()) is Some);
    let _ = db.create_todo(&t0, now);
    assert(todo_views(db.todos()) == seq![stored_view(t0@)]);
    assert(t1.id@[4] != t0.id@[4]);
    assert(db.todos().len() == 1);
    assert(todo_views(db.todos())[0] == db.todos()[0]@);
    assert(db.todos()[0].id@ == t0.id@);
    assert(todo_pos(db.todos(), t1.id@) is None);
    let _ = db.create_todo(&t1, now);
    assert(todo_views(db.todos()) =~= seed_todo_rows().map_values(|v: TodoRowView| stored_view(v)));
    assert(seed_matter(m0, 0) && seed_matter(m1, 1) && seed_matter(m2, 2));
}

} // verus!
