use notify_bot_dut::database::Config;
use notify_bot_dut::dates::{Date, DateTime};
use notify_bot_dut::entity::{Category, NoticeSent};
use notify_bot_dut::utils::filter_notice;

fn make_notice(category: Category, title: String) -> NoticeSent {
    NoticeSent {
        id: 1,
        external_id: "ext-1".to_string(),
        published_date: Some(Date::from_ymd_opt(2025, 1, 1).unwrap()),
        title: title,
        body: Some("sdjlsdljf".into()),
        main_category: category,
        sent_at: DateTime::parse_from_str("2023-11-14 22:13:20", "%Y-%m-%d %H:%M:%S").unwrap(),
        sent_ok: 0,
    }
}

fn make_config(filters: Option<Vec<&str>>) -> Config {
    Config {
        database_url: "sqlite::memory:".to_string(),
        teloxide_token: "dummy".to_string(),
        chat_id: 12345,
        filter: filters.map(|fs| fs.into_iter().map(|s| s.to_string()).collect()),
    }
}

#[test]
fn test_non_class_notice_always_true() {
    let notice = make_notice(Category::Tuition, "Any content".into());
    let config = make_config(Some(vec!["abc"]));

    let result = filter_notice(&notice, &config);
    assert_eq!(result, true);
}

#[test]
fn test_class_notice_with_matching_filter() {
    let notice = make_notice(
        Category::ClassNotice,
        "Thầy Trương Ngọc Sơn thông báo đến lớp: Thẩm định dự án nâng cao [21.Nh84]".into(),
    );
    let config = make_config(Some(vec!["21.Nh84"]));

    let result = filter_notice(&notice, &config);
    assert_eq!(result, true);
}

#[test]
fn test_class_notice_without_matching_filter() {
    let notice = make_notice(Category::ClassNotice, "Thông báo môn Toán".into());
    let config = make_config(Some(vec!["Hóa"]));

    let result = filter_notice(&notice, &config);
    assert_eq!(result, false);
}

#[test]
fn test_class_notice_with_no_filter() {
    let notice = make_notice(Category::ClassNotice, "Thông báo bất kỳ".into());
    let config = make_config(None);

    let result = filter_notice(&notice, &config);
    assert_eq!(result, true);
}

#[test]
fn class_notice_with_empty_filter_list_is_kept() {
    let notice = make_notice(Category::ClassNotice, "Thông báo bất kỳ".into());
    let config = make_config(Some(vec![]));
    assert_eq!(filter_notice(&notice, &config), true);
}

#[test]
fn class_notice_matches_any_of_several_patterns() {
    let notice = make_notice(Category::ClassNotice, "Lớp 23.Nh44 nghỉ học".into());
    let config = make_config(Some(vec!["23.Nh16", "23.Nh44"]));
    assert_eq!(filter_notice(&notice, &config), true);
    let other = make_notice(Category::ClassNotice, "Lớp 23.Nh45 nghỉ học".into());
    assert_eq!(filter_notice(&other, &config), false);
}

#[test]
fn filter_pattern_longer_than_title_does_not_match() {
    let notice = make_notice(Category::ClassNotice, "ab".into());
    let config = make_config(Some(vec!["abc"]));
    assert_eq!(filter_notice(&notice, &config), false);
}
