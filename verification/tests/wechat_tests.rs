use ai2assistant::wechat::{is_system_keyword, WechatDetector};

#[test]
fn test_system_keywords_filter() {
    assert!(is_system_keyword("微信"));
    assert!(is_system_keyword("设置"));
    assert!(is_system_keyword("ChatWnd"));
    assert!(is_system_keyword("按住鼠标 语音输入文字"));
    assert!(is_system_keyword("16:52"));
    assert!(is_system_keyword("09:49"));
    assert!(!is_system_keyword("华东供应链二期 (11)"));
    assert!(!is_system_keyword("项目交付攻坚群"));
    assert!(!is_system_keyword("张三"));
}

#[test]
fn wechat_detector_test_ocr_candidate_scoring() {
    let s1 = WechatDetector::score_ocr_candidate("【标贝-曦瀚】潮汕话标注对接 (7)");
    assert!(s1 >= 180, "带人数和方括号的群名应获得极高分: {}", s1);

    let s2 = WechatDetector::score_ocr_candidate("陈浩、兰斌、陈祺");
    assert!(s2 >= 90, "多人顿号群名应有高分: {}", s2);

    let s3 = WechatDetector::score_ocr_candidate("梁简微");
    assert!(s3 >= 40, "普通联系人应有及格分: {}", s3);

    let s4 = WechatDetector::score_ocr_candidate("搜索");
    assert!(s4 < 0, "搜索应被严重惩罚淘汰: {}", s4);
}

#[test]
fn test_clean_ocr_candidate() {
    assert_eq!(
        WechatDetector::clean_ocr_candidate("【 标 贝 - 曦 瀚 】 潮 汕 话 标 注 对 接 ( 7 ) ···"),
        "【标贝-曦瀚】潮汕话标注对接 (7)"
    );
    assert_eq!(WechatDetector::clean_ocr_candidate("O 梁 简 微"), "梁简微");
    assert_eq!(WechatDetector::clean_ocr_candidate("007 逆 袭 ( 10 )"), "007逆袭 (10)");
    assert_eq!(WechatDetector::clean_ocr_candidate("王经理..."), "王经理");
    assert_eq!(WechatDetector::clean_ocr_candidate("陈 浩 、 兰 斌 、 陈 祺"), "陈浩、兰斌、陈祺");
}

#[test]
fn test_system_keywords() {
    assert!(is_system_keyword("微信"));
    assert!(is_system_keyword("ChatWnd"));
    assert!(is_system_keyword("按住鼠标 语音输入文字"));
    assert!(is_system_keyword("16:52"));
    assert!(!is_system_keyword("【标贝-曦瀚】潮汕话标注对接 (7)"));
    assert!(!is_system_keyword("华东交付协同群"));
    assert!(!is_system_keyword("陈浩、兰斌、陈祺"));
    assert!(!is_system_keyword("007逆袭 (10)"));
}

#[test]
fn test_clean_candidate() {
    assert_eq!(
        WechatDetector::clean_ocr_candidate("【 标 贝 - 曦 瀚 】 潮 汕 话 标 注 对 接 ( 7 ) ···"),
        "【标贝-曦瀚】潮汕话标注对接 (7)"
    );
    assert_eq!(WechatDetector::clean_ocr_candidate("O 梁 简 微"), "梁简微");
    assert_eq!(WechatDetector::clean_ocr_candidate("007 逆 袭 ( 10 )"), "007逆袭 (10)");
    assert_eq!(WechatDetector::clean_ocr_candidate("陈 浩 、 兰 斌 、 陈 祺"), "陈浩、兰斌、陈祺");
}

#[test]
fn debug_wechat_test_ocr_candidate_scoring() {
    let s1 = WechatDetector::score_ocr_candidate("【标贝-曦瀚】潮汕话标注对接 (7)");
    assert!(s1 >= 180, "带人数和方括号的群名应获得极高分: {}", s1);

    let s2 = WechatDetector::score_ocr_candidate("梁简微");
    assert!(s2 >= 40, "普通联系人应有及格分: {}", s2);

    let s3 = WechatDetector::score_ocr_candidate("搜索");
    assert!(s3 < 0, "系统保留词应严重扣分: {}", s3);

    let s4 = WechatDetector::score_ocr_candidate("陈浩、兰斌、陈祺");
    assert!(s4 >= 90, "多人顿号群名应有高分: {}", s4);
}

#[test]
fn test_multiline_group_name_priority() {
    let sample = "泰语 ~ 标贝 (5)\n兼职团队-泰语文本校对_曦瀚&标贝";
    let lines: Vec<&str> = sample.lines().collect();
    let mut candidates = Vec::new();
    for line in lines {
        let cleaned = WechatDetector::clean_ocr_candidate(line);
        let score = WechatDetector::score_ocr_candidate(&cleaned);
        candidates.push((cleaned, score));
    }
    candidates.sort_by(|a, b| b.1.cmp(&a.1));
    println!("双行群聊评分候选: {:?}", candidates);
    assert_eq!(candidates[0].0, "兼职团队-泰语文本校对_曦瀚&标贝");
}

#[test]
fn bgra_pixels_become_rgb() {
    let bgra = vec![1u8, 2, 3, 255, 10, 20, 30, 0, 9];
    assert_eq!(WechatDetector::bgra_to_rgb(&bgra), vec![3u8, 2, 1, 30, 20, 10]);
}

#[test]
fn chat_header_is_base64_jpeg() {
    let bgra = vec![0u8, 0, 255, 255, 0, 255, 0, 255, 255, 0, 0, 255, 255, 255, 255, 255];
    let text = WechatDetector::encode_chat_header(&bgra, 2, 2).expect("a 2x2 picture encodes");
    // A JPEG file starts with the bytes FF D8 FF, which base64 writes as "/9j/".
    assert!(text.starts_with("/9j/"));
}

#[test]
fn empty_chat_header_is_refused() {
    assert_eq!(WechatDetector::encode_chat_header(&[], 0, 0), None);
}
