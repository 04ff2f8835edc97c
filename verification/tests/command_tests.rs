use ai2assistant::capture::{auto_archive, record_capture, routing_contexts, CapturedContext};
use ai2assistant::commands::{
    categorize_inbox_log, confirm_route_decision, create_log, create_matter, create_todo,
    undo_todo_update, CategorizePayload, ConfirmRoutePayload, FreshIds,
};
use ai2assistant::models::{AIParseResult, ExtractedTodo, SuggestedMatter, TodoUpdateSuggestion};
use ai2assistant::reminders::ReminderService;
use ai2assistant::seed::init_seed_data_if_empty;
use ai2assistant::store::Database;

const NOW: &str = "2026-09-21 10:00:00";

fn fresh(n: usize) -> FreshIds {
    FreshIds {
        matter_id: "m_new".to_string(),
        log_id: "l_new".to_string(),
        todo_ids: (0..n).map(|k| format!("t_new_{}", k)).collect(),
    }
}

fn store_with_matter() -> Database {
    let mut db = Database::new_empty();
    create_matter(
        &mut db,
        &"项目A".to_string(),
        &None,
        &None,
        &"work".to_string(),
        &"high".to_string(),
        None,
        &Some("A群".to_string()),
        &"m1".to_string(),
        &NOW.to_string(),
    )
    .unwrap();
    db
}

#[test]
fn manual_matter_gets_defaults() {
    let db = store_with_matter();
    let m = db.get_matter_by_id("m1").unwrap().unwrap();
    assert_eq!(m.importance, 3);
    assert_eq!(m.status, "active");
    assert_eq!(m.overview, "");
    assert_eq!(m.related_contacts, "A群");
    assert_eq!(m.created_at, NOW);
    assert!(!m.is_pinned);
}

#[test]
fn manual_matter_with_bad_category_is_refused() {
    let mut db = Database::new_empty();
    let r = create_matter(
        &mut db,
        &"x".to_string(),
        &None,
        &None,
        &"play".to_string(),
        &"high".to_string(),
        Some(4),
        &None,
        &"m9".to_string(),
        &NOW.to_string(),
    );
    assert!(r.is_err());
    assert!(db.get_matters(None, None, None).unwrap().is_empty());
}

#[test]
fn manual_log_defaults_to_hand_entry() {
    let mut db = store_with_matter();
    let l = create_log(&mut db, &Some("m1".to_string()), &"记录".to_string(), &None, &None, &"l1".to_string(), &NOW.to_string()).unwrap();
    assert_eq!(l.source_app, "手动录入");
    assert_eq!(l.source_window_title, "");
    assert_eq!(db.get_logs_by_matter("m1").unwrap().len(), 1);
}

#[test]
fn manual_log_under_missing_matter_is_refused() {
    let mut db = store_with_matter();
    let r = create_log(&mut db, &Some("nope".to_string()), &"记录".to_string(), &None, &None, &"l1".to_string(), &NOW.to_string());
    assert!(r.is_err());
    assert!(db.get_all_inbox_logs().unwrap().is_empty());
}

#[test]
fn manual_todo_reminder_follows_due_time() {
    let mut db = store_with_matter();
    let t = create_todo(
        &mut db,
        &"m1".to_string(),
        &"提交报告".to_string(),
        &Some("2026-09-22".to_string()),
        &None,
        &None,
        &"t1".to_string(),
        &NOW.to_string(),
    )
    .unwrap();
    assert_eq!(t.reminder_time.as_deref(), Some("2026-09-22"));
    let stored = db.get_todos_by_matter("m1").unwrap();
    assert_eq!(stored[0].due_time.as_deref(), Some("2026-09-22 22:00:00"));
    assert_eq!(stored[0].reminder_time.as_deref(), Some("2026-09-22 22:00:00"));
    assert_eq!(stored[0].status, "pending");
}

fn inbox_log(db: &mut Database, id: &str) {
    create_log(db, &None, &"新的一条".to_string(), &Some("微信".to_string()), &Some("A群".to_string()), &id.to_string(), &NOW.to_string()).unwrap();
}

#[test]
fn categorize_existing_files_the_log() {
    let mut db = store_with_matter();
    inbox_log(&mut db, "l1");
    let p = CategorizePayload {
        log_id: "l1".to_string(),
        choice: "EXISTING".to_string(),
        matter_id: Some("m1".to_string()),
        new_matter: None,
        extracted_facts_delta: Some("• 新事实".to_string()),
        new_todos: vec![ExtractedTodo { content: "跟进".to_string(), due_time: None }],
        todo_updates: vec![],
    };
    categorize_inbox_log(&mut db, &p, &NOW.to_string(), &fresh(1)).unwrap();
    let inbox = db.get_all_inbox_logs().unwrap();
    assert_eq!(inbox[0].matter_id.as_deref(), Some("m1"));
    assert_eq!(db.get_todos_by_matter("m1").unwrap()[0].id, "t_new_0");
    assert!(db.get_matter_by_id("m1").unwrap().unwrap().fact_summary.contains("• 新事实"));
}

#[test]
fn categorize_errors_have_their_messages() {
    let mut db = store_with_matter();
    inbox_log(&mut db, "l1");
    let mut p = CategorizePayload {
        log_id: "l1".to_string(),
        choice: "EXISTING".to_string(),
        matter_id: None,
        new_matter: None,
        extracted_facts_delta: None,
        new_todos: vec![],
        todo_updates: vec![],
    };
    assert_eq!(categorize_inbox_log(&mut db, &p, &NOW.to_string(), &fresh(0)), Err("未指定目标事项ID".to_string()));
    p.choice = "CREATE_NEW".to_string();
    assert_eq!(categorize_inbox_log(&mut db, &p, &NOW.to_string(), &fresh(0)), Err("未提供新建事项信息".to_string()));
    p.choice = "MAYBE".to_string();
    assert_eq!(categorize_inbox_log(&mut db, &p, &NOW.to_string(), &fresh(0)), Err("未知的归集选项".to_string()));
    assert!(db.get_all_inbox_logs().unwrap()[0].matter_id.is_none());
}

#[test]
fn categorize_create_new_adds_a_matter() {
    let mut db = Database::new_empty();
    inbox_log(&mut db, "l1");
    let p = CategorizePayload {
        log_id: "l1".to_string(),
        choice: "CREATE_NEW".to_string(),
        matter_id: None,
        new_matter: Some(SuggestedMatter {
            title: "新项目".to_string(),
            category: "life".to_string(),
            priority: "low".to_string(),
            summary: "概述".to_string(),
            related_contacts: None,
        }),
        extracted_facts_delta: None,
        new_todos: vec![],
        todo_updates: vec![],
    };
    categorize_inbox_log(&mut db, &p, &NOW.to_string(), &fresh(0)).unwrap();
    let m = db.get_matter_by_id("m_new").unwrap().unwrap();
    assert_eq!(m.title, "新项目");
    assert_eq!(m.importance, 3);
    assert_eq!(db.get_all_inbox_logs().unwrap()[0].matter_id.as_deref(), Some("m_new"));
}

fn decision(choice: &str) -> ConfirmRoutePayload {
    ConfirmRoutePayload {
        choice: choice.to_string(),
        matter_id: None,
        new_matter: None,
        raw_snippet: "片段".to_string(),
        source_app: "微信".to_string(),
        source_window: "A群".to_string(),
        extracted_facts_delta: None,
        extracted_todos: vec![],
        todo_updates: vec![],
        log_id: None,
    }
}

#[test]
fn discard_changes_nothing() {
    let mut db = store_with_matter();
    assert_eq!(confirm_route_decision(&mut db, &decision("DISCARD"), &NOW.to_string(), &fresh(0)), Ok(()));
    assert!(db.get_all_inbox_logs().unwrap().is_empty());
}

#[test]
fn unknown_decision_is_refused() {
    let mut db = store_with_matter();
    assert_eq!(confirm_route_decision(&mut db, &decision("LATER"), &NOW.to_string(), &fresh(0)), Err("未知的决策选项".to_string()));
    let mut d = decision("EXISTING");
    d.matter_id = None;
    assert_eq!(confirm_route_decision(&mut db, &d, &NOW.to_string(), &fresh(0)), Err("未指定目标事项ID".to_string()));
}

#[test]
fn create_new_decision_uses_default_matter() {
    let mut db = Database::new_empty();
    confirm_route_decision(&mut db, &decision("CREATE_NEW"), &NOW.to_string(), &fresh(0)).unwrap();
    let m = db.get_matter_by_id("m_new").unwrap().unwrap();
    assert_eq!(m.title, "新捕获事项");
    assert_eq!(m.category, "work");
    assert_eq!(m.priority, "medium");
    let logs = db.get_logs_by_matter("m_new").unwrap();
    assert_eq!(logs.len(), 1);
    assert_eq!(logs[0].id, "l_new");
    assert_eq!(logs[0].raw_content, "片段");
}

fn store_with_todo() -> Database {
    let mut db = store_with_matter();
    create_todo(&mut db, &"m1".to_string(), &"写方案".to_string(), &Some("2026-09-22 15:00:00".to_string()), &None, &None, &"t1".to_string(), &NOW.to_string()).unwrap();
    db
}

#[test]
fn existing_decision_applies_updates() {
    let mut db = store_with_todo();
    let mut d = decision("EXISTING");
    d.matter_id = Some("m1".to_string());
    d.todo_updates = vec![TodoUpdateSuggestion {
        todo_id: "t1".to_string(),
        original_content: "写方案".to_string(),
        action: "CLOSE".to_string(),
        reason: "已完成".to_string(),
        updated_content: None,
        updated_due_time: None,
    }];
    confirm_route_decision(&mut db, &d, &NOW.to_string(), &fresh(0)).unwrap();
    let t = &db.get_todos_by_matter("m1").unwrap()[0];
    assert_eq!(t.status, "completed");
    assert_eq!(t.completed_at.as_deref(), Some(NOW));
}

#[test]
fn undo_close_reopens_the_todo() {
    let mut db = store_with_todo();
    db.toggle_todo_status("t1", true, &NOW.to_string()).unwrap();
    undo_todo_update(&mut db, "t1", "CLOSE", None, None, &NOW.to_string()).unwrap();
    let t = &db.get_todos_by_matter("m1").unwrap()[0];
    assert_eq!(t.status, "pending");
    assert!(t.completed_at.is_none());
}

#[test]
fn undo_update_restores_text_and_due_time() {
    let mut db = store_with_todo();
    db.update_todo("t1", "改后的方案", Some("2026-09-25 10:00:00".to_string()), None, &NOW.to_string()).unwrap();
    undo_todo_update(&mut db, "t1", "UPDATE", Some("写方案".to_string()), Some("2026-09-22 15:00:00".to_string()), &NOW.to_string()).unwrap();
    let t = &db.get_todos_by_matter("m1").unwrap()[0];
    assert_eq!(t.content, "写方案");
    assert_eq!(t.due_time.as_deref(), Some("2026-09-22 15:00:00"));
}

#[test]
fn undo_update_without_previous_text_does_nothing() {
    let mut db = store_with_todo();
    undo_todo_update(&mut db, "t1", "UPDATE", None, None, &NOW.to_string()).unwrap();
    assert_eq!(db.get_todos_by_matter("m1").unwrap()[0].content, "写方案");
}

#[test]
fn capture_goes_to_the_inbox() {
    let mut db = store_with_matter();
    let c = CapturedContext { text: "明天交付".to_string(), source_app: "微信".to_string(), source_window: "A群".to_string(), image_base64: None };
    record_capture(&mut db, &c, &"lc".to_string(), &NOW.to_string());
    let inbox = db.get_all_inbox_logs().unwrap();
    assert_eq!(inbox.len(), 1);
    assert!(inbox[0].matter_id.is_none());
    assert_eq!(inbox[0].raw_content, "明天交付");
}

#[test]
fn router_sees_active_matters_with_pending_todos() {
    let mut db = store_with_todo();
    create_todo(&mut db, &"m1".to_string(), &"已完成的".to_string(), &None, &None, &None, &"t2".to_string(), &NOW.to_string()).unwrap();
    db.toggle_todo_status("t2", true, &NOW.to_string()).unwrap();
    let cs = routing_contexts(&db);
    assert_eq!(cs.len(), 1);
    assert_eq!(cs[0].matter.id, "m1");
    assert_eq!(cs[0].pending_todos.len(), 1);
    assert_eq!(cs[0].pending_todos[0].id, "t1");
}

fn answer(action: &str, confidence: u32, matched: Option<&str>) -> AIParseResult {
    AIParseResult {
        action: action.to_string(),
        confidence,
        matched_matter_id: matched.map(|s| s.to_string()),
        matched_matter_title: None,
        candidate_matters: vec![],
        suggested_new_matter: None,
        extracted_facts_delta: Some("• 自动事实".to_string()),
        extracted_todos: vec![],
        todo_updates: vec![],
        raw_snippet: "片段".to_string(),
        source_app: "微信".to_string(),
        source_window: "A群".to_string(),
        log_id: None,
        detected_chat_target: None,
    }
}

#[test]
fn confident_match_is_filed_at_once() {
    let mut db = store_with_matter();
    inbox_log(&mut db, "l1");
    assert!(auto_archive(&mut db, &answer("MATCH_EXISTING", 90, Some("m1")), &"l1".to_string(), 85, &NOW.to_string(), &vec![]));
    assert_eq!(db.get_all_inbox_logs().unwrap()[0].matter_id.as_deref(), Some("m1"));
}

#[test]
fn unsure_match_waits_for_the_user() {
    let mut db = store_with_matter();
    inbox_log(&mut db, "l1");
    assert!(!auto_archive(&mut db, &answer("MATCH_EXISTING", 84, Some("m1")), &"l1".to_string(), 85, &NOW.to_string(), &vec![]));
    assert!(!auto_archive(&mut db, &answer("AMBIGUOUS", 99, Some("m1")), &"l1".to_string(), 85, &NOW.to_string(), &vec![]));
    assert!(!auto_archive(&mut db, &answer("MATCH_EXISTING", 99, None), &"l1".to_string(), 85, &NOW.to_string(), &vec![]));
    assert!(db.get_all_inbox_logs().unwrap()[0].matter_id.is_none());
}

#[test]
fn due_reminders_are_sent_once() {
    let mut db = store_with_matter();
    create_todo(&mut db, &"m1".to_string(), &"开会".to_string(), &None, &Some("2026-09-21 09:00:00".to_string()), &None, &"t1".to_string(), &NOW.to_string()).unwrap();
    create_todo(&mut db, &"m1".to_string(), &"以后".to_string(), &None, &Some("2026-09-30 09:00:00".to_string()), &None, &"t2".to_string(), &NOW.to_string()).unwrap();
    let (due, notices) = ReminderService::take_due(&mut db, NOW);
    assert_eq!(due.len(), 1);
    assert_eq!(due[0].id, "t1");
    assert_eq!(notices[0].title, "待办提醒: 【项目A】");
    assert_eq!(notices[0].body, "开会");
    let (again, _) = ReminderService::take_due(&mut db, NOW);
    assert!(again.is_empty());
}

#[test]
fn empty_store_gets_the_samples_once() {
    let mut db = Database::new_empty();
    init_seed_data_if_empty(&mut db, &NOW.to_string());
    assert_eq!(db.get_matters(None, None, None).unwrap().len(), 3);
    assert_eq!(db.get_todos_by_matter("m_001").unwrap().len(), 2);
    assert_eq!(db.get_matter_by_id("m_001").unwrap().unwrap().updated_at, NOW);
    init_seed_data_if_empty(&mut db, &NOW.to_string());
    assert_eq!(db.get_matters(None, None, None).unwrap().len(), 3);
}

#[test]
fn pin_twice_restores_the_pin() {
    let mut db = store_with_matter();
    assert!(db.toggle_matter_pinned("m1", &"2026-09-21 11:00:00".to_string()).unwrap());
    assert!(!db.toggle_matter_pinned("m1", &"2026-09-21 12:00:00".to_string()).unwrap());
    let m = db.get_matter_by_id("m1").unwrap().unwrap();
    assert!(!m.is_pinned);
    assert_eq!(m.updated_at, "2026-09-21 12:00:00");
}

#[test]
fn deleting_a_matter_removes_its_todos_and_frees_its_logs() {
    let mut db = store_with_todo();
    create_log(&mut db, &Some("m1".to_string()), &"日志".to_string(), &None, &None, &"l1".to_string(), &NOW.to_string()).unwrap();
    db.delete_matter("m1").unwrap();
    assert!(db.get_all_todos(None).unwrap().is_empty());
    let inbox = db.get_all_inbox_logs().unwrap();
    assert_eq!(inbox.len(), 1);
    assert!(inbox[0].matter_id.is_none());
}
