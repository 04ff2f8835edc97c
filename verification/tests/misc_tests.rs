use ai2assistant::autostart::AutostartService;
use ai2assistant::capture::ClipboardService;
use ai2assistant::dock::{Bounds, CompactDockEdge, DockControl, MonitorAction, Point, Sight, Size};
use ai2assistant::llm::{chat_completions_url, strip_code_fences};
use ai2assistant::models::TodoItem;
use ai2assistant::reminders::ReminderService;
use ai2assistant::timefmt::normalize_time;

fn screen() -> Bounds {
    Bounds { left: 0, top: 0, right: 1920, bottom: 1040 }
}

fn docked_top() -> DockControl {
    let mut c = DockControl::new();
    let size = Size { width: 300, height: 400 };
    c.enter_compact(Some((Point { x: 100, y: 100 }, Size { width: 1080, height: 720 })), size, screen());
    c
}

#[test]
fn compact_mode_docks_at_the_top_right() {
    let mut c = DockControl::new();
    let (state, home) = c.enter_compact(None, Size { width: 300, height: 400 }, screen());
    assert_eq!(state.edge, CompactDockEdge::Top);
    assert_eq!(home, Point { x: 1920 - 300 - 32, y: 0 });
}

#[test]
fn slide_in_then_out_returns_to_the_same_place() {
    let mut c = docked_top();
    let size = Size { width: 300, height: 400 };
    let open_at = Point { x: 500, y: 0 };
    let (s1, to1) = c.slide_in(open_at, size, screen());
    assert!(s1.is_hidden);
    assert_eq!(to1, Some(Point { x: 500, y: -380 }));
    let (s2, to2) = c.slide_out(Point { x: 500, y: -380 }, size, screen());
    assert!(!s2.is_hidden);
    assert_eq!(to2, Some(open_at));
}

#[test]
fn locked_window_does_not_slide_in() {
    let mut c = docked_top();
    c.toggle_lock();
    let (s, to) = c.slide_in(Point { x: 500, y: 0 }, Size { width: 300, height: 400 }, screen());
    assert!(!s.is_hidden);
    assert_eq!(to, None);
    let sight = Sight {
        cursor: Point { x: 1000, y: 900 },
        win_pos: Point { x: 500, y: 0 },
        win_size: Size { width: 300, height: 400 },
        bounds: screen(),
        left_button_down: false,
        now_ms: 10_000,
    };
    assert_eq!(c.monitor_tick(Some(0), sight).0, MonitorAction::Wait);
    c.toggle_lock();
    assert_eq!(c.monitor_tick(Some(0), sight).0, MonitorAction::SlideIn);
}

#[test]
fn lock_twice_changes_nothing() {
    let mut c = docked_top();
    let before = c.state;
    c.toggle_lock();
    c.toggle_lock();
    assert_eq!(c.state, before);
}

#[test]
fn leaving_compact_mode_gives_back_the_window() {
    let mut c = docked_top();
    let (state, saved) = c.exit_compact();
    assert_eq!(state.edge, CompactDockEdge::NoEdge);
    assert_eq!(saved, Some((Point { x: 100, y: 100 }, Size { width: 1080, height: 720 })));
}

#[test]
fn normalized_times_never_fall_at_23_59() {
    for t in ["2026-09-22 23:59:59", "2026-09-22 23:59:00", "2026-09-22 23:59", "2026-09-22", "  2026-09-22 23:59  "] {
        let n = normalize_time(Some(t.to_string())).unwrap();
        assert!(!n.ends_with("23:59:59") && !n.ends_with("23:59:00") && !n.ends_with("23:59"), "{}", n);
        assert_eq!(n, "2026-09-22 22:00:00");
    }
    assert_eq!(normalize_time(Some("   ".to_string())), None);
}

#[test]
fn app_names_come_from_the_executable() {
    assert_eq!(ClipboardService::app_name_for_path("\\Device\\HarddiskVolume3\\Program Files\\Tencent\\WeChat.exe"), "微信");
    assert_eq!(ClipboardService::app_name_for_path("C:\\x\\WXWork.exe"), "企业微信");
    assert_eq!(ClipboardService::app_name_for_path("C:\\x\\Code.exe"), "VS Code");
    assert_eq!(ClipboardService::app_name_for_path("C:\\x\\Other.EXE"), "other.exe");
}

#[test]
fn empty_selection_is_refused() {
    assert_eq!(ClipboardService::clean_selection("  \n "), Err("未能捕获到选中文本，请确保已划选文字".to_string()));
    assert_eq!(ClipboardService::clean_selection("  明天开会 "), Ok("明天开会".to_string()));
}

#[test]
fn clipboard_is_given_back_only_when_it_changed() {
    assert!(ClipboardService::restores_clipboard(&Some("旧".to_string()), true, "新"));
    assert!(!ClipboardService::restores_clipboard(&Some("旧".to_string()), false, "新"));
    assert!(!ClipboardService::restores_clipboard(&Some("同".to_string()), true, "同"));
    assert!(ClipboardService::restores_clipboard(&None, true, "新"));
    assert!(!ClipboardService::restores_clipboard(&None, false, "新"));
}

#[test]
fn chat_header_only_for_messengers() {
    assert!(ClipboardService::wants_chat_header("微信"));
    assert!(ClipboardService::wants_chat_header("企业微信"));
    assert!(!ClipboardService::wants_chat_header("飞书"));
}

#[test]
fn sample_capture_off_windows() {
    let c = ClipboardService::capture_selected_text_safe().unwrap();
    assert_eq!(c.source_app, "Mock 应用");
    assert_eq!(c.text, "测试划选内容：周三上午10点前需要提交技术白皮书。");
}

#[test]
fn autostart_value_is_quoted() {
    assert_eq!(AutostartService::registry_value("C:\\app\\a.exe"), "\"C:\\app\\a.exe\"");
    assert!(AutostartService::removal_done_anyway("ERROR: The system was unable to find the specified registry key"));
    assert!(AutostartService::removal_done_anyway("错误: 系统找不到指定的注册表项"));
    assert!(!AutostartService::removal_done_anyway("access denied"));
}

#[test]
fn reminder_title_without_matter() {
    let t = TodoItem {
        id: "t".to_string(),
        matter_id: "m".to_string(),
        log_id: None,
        content: "喝水".to_string(),
        due_time: None,
        reminder_time: None,
        is_reminder_sent: false,
        status: "pending".to_string(),
        is_focused: false,
        created_at: "".to_string(),
        completed_at: None,
        matter_title: None,
    };
    let n = ReminderService::notice_for(&t);
    assert_eq!(n.title, "待办到期提醒");
    assert_eq!(n.body, "喝水");
}

#[test]
fn completions_url_is_completed_once() {
    assert_eq!(chat_completions_url("https://api.x.com/v1/"), "https://api.x.com/v1/chat/completions");
    assert_eq!(chat_completions_url("https://api.x.com/v1/chat/completions"), "https://api.x.com/v1/chat/completions");
}

#[test]
fn code_fences_are_stripped() {
    assert_eq!(strip_code_fences("```json\n{\"a\":1}\n```"), "{\"a\":1}");
}

#[test]
fn normalizing_twice_changes_nothing() {
    for t in ["2026-09-22 23:59:59", "2026-09-22", " 2026-09-22 15:30:00 ", "明天下午", "23:5923:59:59"] {
        let once = normalize_time(Some(t.to_string()));
        let twice = normalize_time(once.clone());
        assert_eq!(once, twice);
    }
}

#[test]
fn rule_dates_are_today_and_the_next_three_days() {
    let d = ai2assistant::ai_service::AIService::rule_dates(739880);
    assert_eq!(d.today, "2026-09-21");
    assert_eq!(d.tomorrow, "2026-09-22");
    assert_eq!(d.in_two_days, "2026-09-23");
    assert_eq!(d.in_three_days, "2026-09-24");
}
