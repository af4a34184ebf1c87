use notify_bot_dut::dates::Date;
use notify_bot_dut::entity::Category;
use notify_bot_dut::fetch::analysis_notice;

#[test]
fn test_analysis_notice() {
    let html = r#"
        <div class="tbBox">
            <div class="tbBoxCaption">2025-09-01: Test Notice</div>
            <div class="tbBoxContent">Hello from test</div>
        </div>
    "#;

    let notices = analysis_notice(html, Category::Training).unwrap();
    assert_eq!(notices.len(), 1);
    assert_eq!(notices[0].title, "Test Notice");
    assert_eq!(
        notices[0].published_date,
        Some(Date::from_ymd_opt(2025, 9, 1).unwrap())
    );
    assert_eq!(notices[0].body.as_deref(), Some("Hello from test"));
}
