use ai2assistant::ai_service::AIService;
use ai2assistant::models::{AppConfig, ExtractedTodo, LogItem, Matter, MatterContextWithTodos, TodoItem};
use ai2assistant::store::Database;

/// The day number of 2026-09-21 (1 January of year 1 being day 1).
const TODAY: i32 = 739880;

fn now() -> String {
    "2026-09-21 18:30:00".to_string()
}

fn matter(id: &str, title: &str, overview: &str, category: &str, priority: &str, importance: i32) -> Matter {
    Matter {
        id: id.to_string(),
        title: title.to_string(),
        overview: overview.to_string(),
        fact_summary: "".to_string(),
        category: category.to_string(),
        priority: priority.to_string(),
        importance,
        status: "active".to_string(),
        is_pinned: false,
        created_at: "2026-09-21 00:00:00".to_string(),
        updated_at: "2026-09-21 00:00:00".to_string(),
        pending_todos_count: 0,
        total_todos_count: 0,
        latest_log_snippet: None,
        latest_log_time: None,
        latest_todo_content: None,
        latest_todo_due_time: None,
        latest_todo_status: None,
        related_contacts: "".to_string(),
    }
}

#[test]
fn test_matter_crud_and_status() {
    let mut db = Database::new_empty();
    let mut m = matter("m_test_1", "测试事项标题", "测试概述", "work", "high", 4);
    m.fact_summary = "• 关键事实".to_string();

    db.create_matter(&m).unwrap();

    let loaded = db.get_matter_by_id("m_test_1").unwrap().expect("应找到事项");
    assert_eq!(loaded.title, "测试事项标题");
    assert_eq!(loaded.status, "active");

    let is_pinned = db.toggle_matter_pinned("m_test_1", &now()).unwrap();
    assert!(is_pinned);

    db.update_matter_status("m_test_1", &"archived".to_string(), &now()).unwrap();
    let loaded_archived = db.get_matter_by_id("m_test_1").unwrap().unwrap();
    assert_eq!(loaded_archived.status, "archived");

    let active_list = db.get_matters(Some("active".to_string()), None, None).unwrap();
    assert!(active_list.is_empty());

    let archived_list = db.get_matters(Some("archived".to_string()), None, None).unwrap();
    assert_eq!(archived_list.len(), 1);
}

#[test]
fn test_log_and_todo_lifecycle() {
    let mut db = Database::new_empty();
    let m = matter("m_test_2", "日志与待办测试事项", "", "life", "medium", 3);
    db.create_matter(&m).unwrap();

    let log = LogItem {
        id: "l_test_1".to_string(),
        matter_id: Some("m_test_2".to_string()),
        raw_content: "收到微信通知：明天下午准备去超市采购。".to_string(),
        source_app: "微信".to_string(),
        source_window_title: "家庭群".to_string(),
        created_at: "2026-09-21 00:01:00".to_string(),
    };
    db.create_log(&log, &now()).unwrap();

    let logs = db.get_logs_by_matter("m_test_2").unwrap();
    assert_eq!(logs.len(), 1);
    assert_eq!(logs[0].source_app, "微信");

    let todo = TodoItem {
        id: "t_test_1".to_string(),
        matter_id: "m_test_2".to_string(),
        log_id: Some("l_test_1".to_string()),
        content: "去超市采购生鲜".to_string(),
        due_time: Some("2026-09-22 18:00:00".to_string()),
        reminder_time: Some("2026-09-22 17:30:00".to_string()),
        is_reminder_sent: false,
        status: "pending".to_string(),
        is_focused: false,
        created_at: "2026-09-21 00:02:00".to_string(),
        completed_at: None,
        matter_title: None,
    };
    db.create_todo(&todo, &now()).unwrap();

    let todos = db.get_todos_by_matter("m_test_2").unwrap();
    assert_eq!(todos.len(), 1);
    assert_eq!(todos[0].status, "pending");

    db.toggle_todo_status("t_test_1", true, &now()).unwrap();
    let todos_after = db.get_todos_by_matter("m_test_2").unwrap();
    assert_eq!(todos_after[0].status, "completed");
    assert!(todos_after[0].completed_at.is_some());

    let inbox = db.get_all_inbox_logs().unwrap();
    assert_eq!(inbox.len(), 1);
    assert_eq!(inbox[0].matter_title.as_deref(), Some("日志与待办测试事项"));
    assert_eq!(inbox[0].todos.len(), 1);

    let uncat_log = LogItem {
        id: "l_uncat_1".to_string(),
        matter_id: None,
        raw_content: "客户要求下月增加报表导出功能".to_string(),
        source_app: "钉钉".to_string(),
        source_window_title: "需求讨论".to_string(),
        created_at: "2026-09-21 00:03:00".to_string(),
    };
    db.create_log(&uncat_log, &now()).unwrap();
    let inbox_before = db.get_all_inbox_logs().unwrap();
    assert_eq!(inbox_before.len(), 2);
    assert!(inbox_before[0].matter_id.is_none());

    db.categorize_log(
        "l_uncat_1",
        "m_test_2",
        Some("• 客户要求增加报表导出"),
        &[ExtractedTodo { content: "评估报表导出工作量".to_string(), due_time: None }],
        &now(),
        &vec!["t_cat_1".to_string()],
    )
    .unwrap();

    let inbox_after = db.get_all_inbox_logs().unwrap();
    assert_eq!(inbox_after[0].matter_id.as_deref(), Some("m_test_2"));
    assert_eq!(inbox_after[0].todos.len(), 1);
}

#[test]
fn test_app_config_persistence() {
    let mut db = Database::new_empty();
    let custom_config = AppConfig {
        api_base_url: "https://api.deepseek.com/v1".to_string(),
        api_key: "sk-test123456".to_string(),
        model_name: "deepseek-chat".to_string(),
        capture_shortcut: "Alt+X".to_string(),
        main_window_shortcut: "Alt+Space".to_string(),
        auto_archive_confidence: 85,
        user_profile: "测试个人情况".to_string(),
        theme: "dark".to_string(),
    };

    db.save_config(&custom_config).unwrap();
    let loaded = db.get_config().unwrap();

    assert_eq!(loaded.api_base_url, "https://api.deepseek.com/v1");
    assert_eq!(loaded.api_key, "sk-test123456");
    assert_eq!(loaded.model_name, "deepseek-chat");
    assert_eq!(loaded.capture_shortcut, "Alt+X");
    assert_eq!(loaded.auto_archive_confidence, 85);
    assert_eq!(loaded.user_profile, "测试个人情况");
    assert_eq!(loaded.theme, "dark");
}

#[test]
fn test_todo_close_and_undo_lifecycle() {
    let mut db = Database::new_empty();
    let m = matter("m_lang_11", "11国小语种质检与交付", "多语种数据质检项目", "work", "high", 3);
    db.create_matter(&m).unwrap();

    let todo = TodoItem {
        id: "t_afrikaans".to_string(),
        matter_id: "m_lang_11".to_string(),
        log_id: None,
        content: "南非荷兰语我只能自己上了，预计8点左右开始，10点结束".to_string(),
        due_time: Some("2026-09-21 22:00:00".to_string()),
        reminder_time: None,
        is_reminder_sent: false,
        status: "pending".to_string(),
        is_focused: false,
        created_at: "2026-09-21 18:26:00".to_string(),
        completed_at: None,
        matter_title: Some(m.title.clone()),
    };
    db.create_todo(&todo, &now()).unwrap();

    let todos = db.get_todos_by_matter("m_lang_11").unwrap();
    assert_eq!(todos[0].status, "pending");

    let matters_ctx = vec![MatterContextWithTodos { matter: m.copy(), pending_todos: vec![todos[0].copy()] }];
    let parse_res = AIService::local_fallback_parser(&matters_ctx, "21:22 南非荷兰语已返修提交", "微信", "11国小语种质检与交付", TODAY);

    assert!(!parse_res.todo_updates.is_empty(), "本地规则引擎应识别到待办可关闭");
    assert_eq!(parse_res.todo_updates[0].todo_id, "t_afrikaans");
    assert_eq!(parse_res.todo_updates[0].action, "CLOSE");

    db.toggle_todo_status("t_afrikaans", true, &now()).unwrap();
    let todos_after_close = db.get_todos_by_matter("m_lang_11").unwrap();
    assert_eq!(todos_after_close[0].status, "completed");
    assert!(todos_after_close[0].completed_at.is_some());

    db.toggle_todo_status("t_afrikaans", false, &now()).unwrap();
    let todos_after_undo = db.get_todos_by_matter("m_lang_11").unwrap();
    assert_eq!(todos_after_undo[0].status, "pending");
    assert!(todos_after_undo[0].completed_at.is_none());
}

#[test]
fn test_todo_due_time_normalization() {
    assert_eq!(
        Database::normalize_todo_time(Some("2026-09-22 23:59:59".to_string())),
        Some("2026-09-22 22:00:00".to_string())
    );
    assert_eq!(
        Database::normalize_todo_time(Some("2026-09-22 23:59:00".to_string())),
        Some("2026-09-22 22:00:00".to_string())
    );
    assert_eq!(
        Database::normalize_todo_time(Some("2026-09-22 23:59".to_string())),
        Some("2026-09-22 22:00:00".to_string())
    );
    assert_eq!(
        Database::normalize_todo_time(Some("2026-09-22".to_string())),
        Some("2026-09-22 22:00:00".to_string())
    );
    assert_eq!(
        Database::normalize_todo_time(Some("2026-09-22 15:30:00".to_string())),
        Some("2026-09-22 15:30:00".to_string())
    );

    let mut db = Database::new_empty();
    let m = matter("m_norm", "大学城标注基地", "基地建设", "work", "high", 3);
    db.create_matter(&m).unwrap();

    let todo = TodoItem {
        id: "t_wide_due".to_string(),
        matter_id: "m_norm".to_string(),
        log_id: None,
        content: "在离开广州前与丁至安排一次联合基地方案讨论（这两天完成）".to_string(),
        due_time: Some("2026-09-22 23:59:59".to_string()),
        reminder_time: Some("2026-09-22 23:59:59".to_string()),
        is_reminder_sent: false,
        status: "pending".to_string(),
        is_focused: false,
        created_at: "2026-09-21 21:00:00".to_string(),
        completed_at: None,
        matter_title: None,
    };
    db.create_todo(&todo, &now()).unwrap();

    let todos = db.get_todos_by_matter("m_norm").unwrap();
    assert_eq!(todos[0].due_time.as_deref(), Some("2026-09-22 22:00:00"));
    assert_eq!(todos[0].reminder_time.as_deref(), Some("2026-09-22 22:00:00"));
}
