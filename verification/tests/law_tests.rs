use ai2assistant::commands::FreshIds;
use ai2assistant::ids::id_from_random;
use ai2assistant::llm::retry_without_image;
use ai2assistant::models::{LogItem, Matter, TodoItem};
use ai2assistant::prompts::{route_prompt, summary_prompt};
use ai2assistant::reminders::ReminderService;
use ai2assistant::store::Database;
use ai2assistant::wechat::{is_system_keyword, WechatDetector};

fn matter(id: &str) -> Matter {
    Matter {
        id: id.to_string(),
        title: "体检".to_string(),
        overview: "".to_string(),
        fact_summary: "".to_string(),
        category: "life".to_string(),
        priority: "medium".to_string(),
        importance: 3,
        status: "active".to_string(),
        is_pinned: false,
        created_at: "2026-09-21 00:00:00".to_string(),
        updated_at: "2026-09-21 00:00:00".to_string(),
        pending_todos_count: 0,
        total_todos_count: 0,
        latest_log_snippet: None,
        latest_log_time: None,
        latest_todo_content: None,
        latest_todo_due_time: None,
        latest_todo_status: None,
        related_contacts: "".to_string(),
    }
}

fn log(created_at: &str, app: &str, window: &str, text: &str) -> LogItem {
    LogItem {
        id: format!("l_{}", created_at),
        matter_id: None,
        raw_content: text.to_string(),
        source_app: app.to_string(),
        source_window_title: window.to_string(),
        created_at: created_at.to_string(),
    }
}

#[test]
fn a_reminder_is_not_sent_again_later() {
    let mut db = Database::new_empty();
    db.create_matter(&matter("m_1")).unwrap();
    let todo = TodoItem {
        id: "t_1".to_string(),
        matter_id: "m_1".to_string(),
        log_id: None,
        content: "空腹抽血".to_string(),
        due_time: Some("2026-09-22 08:00:00".to_string()),
        reminder_time: Some("2026-09-22 07:30:00".to_string()),
        is_reminder_sent: false,
        status: "pending".to_string(),
        is_focused: false,
        created_at: "2026-09-21 00:00:00".to_string(),
        completed_at: None,
        matter_title: None,
    };
    db.create_todo(&todo, &"2026-09-21 00:00:00".to_string()).unwrap();

    let (early, _) = ReminderService::take_due(&mut db, "2026-09-22 07:00:00");
    assert!(early.is_empty());

    let (due, notices) = ReminderService::take_due(&mut db, "2026-09-22 07:30:00");
    assert_eq!(due.len(), 1);
    assert_eq!(notices[0].title, "待办提醒: 【体检】");
    assert_eq!(notices[0].body, "空腹抽血");

    let (again, _) = ReminderService::take_due(&mut db, "2026-09-22 07:30:00");
    assert!(again.is_empty());
    let (later, _) = ReminderService::take_due(&mut db, "2026-09-25 12:00:00");
    assert!(later.is_empty());
}

#[test]
fn messenger_texts_ignore_surrounding_space() {
    for name in ["微信", "设置", "16:52", "项目交付攻坚群", "张三", " \t"] {
        let padded = format!("  {}\n ", name);
        assert_eq!(is_system_keyword(&padded), is_system_keyword(name));
        assert_eq!(is_system_keyword(padded.trim()), is_system_keyword(&padded));
    }
    assert!(is_system_keyword("   "));
    assert!(is_system_keyword("第一行\n第二行"));
    assert!(is_system_keyword(&"长".repeat(51)));
    assert!(!is_system_keyword(&"长".repeat(50)));
}

#[test]
fn messenger_texts_ignore_ascii_case() {
    assert!(is_system_keyword("WeChat"));
    assert!(is_system_keyword("WECHAT"));
    assert!(is_system_keyword("wechat"));
    assert!(is_system_keyword("CHATWND"));
    assert_eq!(is_system_keyword("Project Alpha"), is_system_keyword("PROJECT ALPHA"));
    assert!(!is_system_keyword("PROJECT ALPHA"));
}

#[test]
fn ocr_scores_follow_their_rules() {
    for text in ["搜索", "华东供应链二期 (11)", "a", "项目交付攻坚群"] {
        let padded = format!(" {}  ", text);
        assert_eq!(WechatDetector::score_ocr_candidate(&padded), WechatDetector::score_ocr_candidate(text));
    }
    assert_eq!(WechatDetector::score_ocr_candidate("搜索"), -100);
    assert_eq!(WechatDetector::score_ocr_candidate("   "), -100);
    assert_eq!(WechatDetector::score_ocr_candidate("a"), -50);
    assert_eq!(WechatDetector::score_ocr_candidate(&"项".repeat(46)), -50);
}

#[test]
fn summary_prompts_are_filled_in() {
    let logs = vec![
        log("2026-09-21 09:00:00", "微信", "家庭群", "周五体检"),
        log("2026-09-21 10:00:00", "钉钉", "行政", "需空腹"),
    ];
    let (system, user) = summary_prompt(
        "现在是{now}；用户：{user_profile_desc}；关联：{matter_related_contacts}",
        "2026-09-21 18:30:00",
        "  律师  ",
        "体检",
        "年度体检",
        "",
        "无",
        &logs,
    );
    assert_eq!(system, "现在是2026-09-21 18:30:00；用户：律师；关联：无");
    assert_eq!(
        user,
        "事项标题: 体检\n事项背景/概述: 年度体检\n关联人/群: 未配置\n参考现有内容: 无\n\n相关碎片日志列表:\n\
         [1] 时间: 2026-09-21 09:00:00, 来源: 微信(家庭群)\n内容: 周五体检\n---\n\
         [2] 时间: 2026-09-21 10:00:00, 来源: 钉钉(行政)\n内容: 需空腹"
    );
    let (system2, user2) = summary_prompt("{user_profile_desc}/{matter_related_contacts}", "", "", "t", "", " 王五 ", "", &[]);
    assert_eq!(system2, "（用户暂未配置个人情况）/王五");
    assert!(user2.ends_with("关联人/群: 王五\n参考现有内容: \n\n相关碎片日志列表:\n"));
}

#[test]
fn a_refused_picture_is_sent_again_without_it() {
    assert!(retry_without_image(true, false));
    assert!(!retry_without_image(true, true));
    assert!(!retry_without_image(false, false));
}

#[test]
fn identifiers_are_version_4_uuids_of_the_bytes() {
    let counting: [u8; 16] = [0, 1, 2, 3, 4, 5, 6, 7, 8, 9, 10, 11, 12, 13, 14, 15];
    assert_eq!(id_from_random(counting), "00010203-0405-4607-8809-0a0b0c0d0e0f");
    assert_eq!(id_from_random([0; 16]), "00000000-0000-4000-8000-000000000000");
    assert_eq!(id_from_random([255; 16]), "ffffffff-ffff-4fff-bfff-ffffffffffff");
    let ids = FreshIds::from_random([0; 16], [255; 16], &[counting, [0; 16]]);
    assert_eq!(ids.matter_id, "00000000-0000-4000-8000-000000000000");
    assert_eq!(ids.log_id, "ffffffff-ffff-4fff-bfff-ffffffffffff");
    assert_eq!(ids.todo_ids, vec![id_from_random(counting), id_from_random([0; 16])]);
}

#[test]
fn route_prompts_are_filled_in() {
    assert_eq!(
        route_prompt("时间：{current_time_str}。用户：{user_profile_desc}。", "2026-09-21 18:30:00 (Monday)", " 产品经理 "),
        "时间：2026-09-21 18:30:00 (Monday)。用户：产品经理。"
    );
    assert_eq!(route_prompt("{user_profile_desc}", "", "  "), "（用户暂未配置个人情况，请从通用办公与生活场景推断）");
}
