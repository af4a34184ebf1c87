use notify_bot_dut::bot::{after_send_failure, notice_message, retry_after_secs, retry_wait_secs, SendStep};
use notify_bot_dut::cli::{service_unit, Cli, SubCommand};
use notify_bot_dut::controller::{
    insert_step, notice_from_row, notice_key, notices_from_rows, parse_sent_at, InsertAction, UnsentRow,
};
use notify_bot_dut::database::{
    config_dir_from, config_file_path_in, config_template, database_url_in, sqlite_path_of_url, Config,
    ConfigError, ConfigFile,
};
use notify_bot_dut::dates::{Date, DateTime};
use notify_bot_dut::entity::{Category, NoticeSent};
use notify_bot_dut::fetch::{
    after_fetch_attempt, analysis_notice, category_url, notices_from_boxes, sort_notices_by_date, FetchStep, HtmlToken,
    ScrapedBox, FETCH_RETRY_SECS,
};
use notify_bot_dut::scheduler::SCHEDULE_PERIOD_SECS;
use notify_bot_dut::utils::{after_connectivity_check, ConnectStep};

fn at(s: &str) -> DateTime {
    DateTime::parse_from_str(s, "%Y-%m-%d %H:%M:%S").unwrap()
}

fn ymd(y: i32, m: u32, d: u32) -> Date {
    Date::from_ymd_opt(y, m, d).unwrap()
}

fn notice(category: Category, date: Option<Date>, title: &str, body: Option<&str>) -> NoticeSent {
    NoticeSent {
        id: 0,
        main_category: category,
        external_id: format!("id-{title}"),
        published_date: date,
        title: title.to_string(),
        body: body.map(|b| b.to_string()),
        sent_at: at("2025-08-31 23:59:59"),
        sent_ok: 0,
    }
}

fn config(filter: Option<Vec<&str>>) -> Config {
    Config {
        database_url: "sqlite::memory:".to_string(),
        teloxide_token: "token".to_string(),
        chat_id: 42,
        filter: filter.map(|f| f.into_iter().map(String::from).collect()),
    }
}

// Categories -----------------------------------------------------------------

#[test]
fn category_names_read_back() {
    for c in [Category::Training, Category::ClassNotice, Category::StudentAffairs, Category::Tuition] {
        let name = c.to_string();
        assert_eq!(Category::parse(&name), Ok(c));
        assert_eq!(name.parse::<Category>(), Ok(c));
        assert_eq!(Category::try_from_string(name.clone()), Ok(c));
    }
    assert_eq!(Category::ClassNotice.name(), "ClassNotice");
    assert_eq!(Category::StudentAffairs.to_string(), "StudentAffairs");
}

#[test]
fn unknown_category_is_refused_with_its_message() {
    assert_eq!(Category::parse("training"), Err("Invalid category: training".to_string()));
    assert_eq!(
        Category::try_from_string("Foo".to_string()),
        Err("Invalid category string: Foo".to_string())
    );
    assert_eq!(Category::from_name(""), None);
}

// Configuration ----------------------------------------------------------------

#[test]
fn overrides_replace_only_what_is_given() {
    let mut c = config(Some(vec!["23.Nh16"]));
    c.apply_overrides(Some("new".to_string()), None, Some(vec![]));
    assert_eq!(c.teloxide_token, "new");
    assert_eq!(c.chat_id, 42);
    assert_eq!(c.filter, Some(vec!["23.Nh16".to_string()]));
    c.apply_overrides(None, Some(-987654321), Some(vec!["23.Nh44".to_string()]));
    assert_eq!(c.teloxide_token, "new");
    assert_eq!(c.chat_id, -987654321);
    assert_eq!(c.filter, Some(vec!["23.Nh44".to_string()]));
    assert_eq!(c.database_url, "sqlite::memory:");
}

#[test]
fn no_overrides_leave_the_config_unchanged() {
    let mut c = config(None);
    c.apply_overrides(None, None, None);
    assert_eq!(c.teloxide_token, "token");
    assert_eq!(c.chat_id, 42);
    assert_eq!(c.filter, None);
}

#[test]
fn cli_filter_override_is_absent_when_no_pattern_is_given() {
    let cli = Cli { command: None, token: None, chat_id: None, filter: vec![] };
    assert_eq!(cli.filter_override(), None);
    let cli = Cli { command: Some(SubCommand::Config), token: None, chat_id: None, filter: vec!["a".to_string()] };
    assert_eq!(cli.filter_override(), Some(vec!["a".to_string()]));
}

#[test]
fn config_paths() {
    assert_eq!(config_dir_from(None), ".config/notify-bot-dut");
    assert_eq!(config_dir_from(Some("/home/a/.config/notify-bot-dut".to_string())), "/home/a/.config/notify-bot-dut");
    assert_eq!(config_file_path_in("/home/a/.config/notify-bot-dut", "/"), "/home/a/.config/notify-bot-dut/config.json");
    assert_eq!(config_file_path_in("/etc/", "/"), "/etc/config.json");
    assert_eq!(config_file_path_in("", "/"), "config.json");
    assert_eq!(database_url_in("/home/a/.config/notify-bot-dut", "/"), "sqlite:///home/a/.config/notify-bot-dut/college.db?mode=rwc");
    // With the Windows separator: `\` is inserted, and a trailing `/` or `\` is kept.
    assert_eq!(config_file_path_in(r"C:\Users\a\notify-bot-dut\config", "\\"), r"C:\Users\a\notify-bot-dut\config\config.json");
    assert_eq!(config_file_path_in(r"C:\x\", "\\"), r"C:\x\config.json");
    assert_eq!(config_file_path_in("C:/x/", "\\"), "C:/x/config.json");
    assert_eq!(database_url_in(r"D:\db", "\\"), r"sqlite://D:\db\college.db?mode=rwc");
    let sep = std::path::MAIN_SEPARATOR_STR;
    let dir = "notify-bot-dut";
    assert_eq!(
        config_file_path_in(dir, sep),
        std::path::Path::new(dir).join("config.json").to_str().unwrap()
    );
    assert!(notify_bot_dut::database::config_file_path().ends_with("config.json"));
    assert!(notify_bot_dut::database::config_file_path().contains("notify-bot-dut"));
    assert!(notify_bot_dut::database::config_dir().contains("notify-bot-dut"));
}

#[test]
fn sqlite_paths() {
    assert_eq!(sqlite_path_of_url("sqlite:///home/a/college.db?mode=rwc"), "/home/a/college.db");
    assert_eq!(sqlite_path_of_url("sqlite://sqlite://a.db"), "a.db");
    assert_eq!(sqlite_path_of_url("sqlite::memory:"), "sqlite::memory:");
    assert_eq!(sqlite_path_of_url("?x"), "");
}

#[test]
fn config_file_checks() {
    let file = |t: Option<&str>, c: Option<i64>| ConfigFile {
        teloxide_token: t.map(String::from),
        chat_id: c,
        filter_notice: Some(vec!["23.Nh16".to_string()]),
    };
    assert_eq!(Config::from_file("u".to_string(), file(None, Some(1))).err(), Some(ConfigError::MissingToken));
    assert_eq!(Config::from_file("u".to_string(), file(Some(""), None)).err(), Some(ConfigError::MissingToken));
    assert_eq!(Config::from_file("u".to_string(), file(Some("t"), Some(0))).err(), Some(ConfigError::MissingChatId));
    assert_eq!(Config::from_file("u".to_string(), file(Some("t"), None)).err(), Some(ConfigError::MissingChatId));
    let c = Config::from_file("u".to_string(), file(Some("t"), Some(-5))).ok().unwrap();
    assert_eq!(c.database_url, "u");
    assert_eq!(c.teloxide_token, "t");
    assert_eq!(c.chat_id, -5);
    assert_eq!(c.filter, Some(vec!["23.Nh16".to_string()]));
    assert!(config_template().contains("\"filter_notice\": [\"23.Nh16\", \"23.Nh44\"]"));
}

// Dates ------------------------------------------------------------------------

#[test]
fn dates_are_checked_and_printed() {
    assert!(Date::from_ymd_opt(2025, 2, 29).is_none());
    assert!(Date::from_ymd_opt(2024, 2, 29).is_some());
    assert!(Date::from_ymd_opt(1900, 2, 29).is_none());
    assert!(Date::from_ymd_opt(2025, 13, 1).is_none());
    assert_eq!(ymd(2025, 9, 1).to_string(), "2025-09-01");
    assert_eq!(ymd(5, 1, 2).to_string(), "0005-01-02");
    assert_eq!(ymd(-5, 1, 2).to_string(), "-0005-01-02");
    assert_eq!(ymd(10000, 12, 31).to_string(), "+10000-12-31");
    assert_eq!(at("2025-08-31 23:59:59").to_seconds_string(), "2025-08-31 23:59:59");
    assert_eq!(DateTime::midnight(ymd(2025, 9, 1)).to_seconds_string(), "2025-09-01 00:00:00");
}

// Notices ------------------------------------------------------------------------

#[test]
fn new_notice_identity_and_date() {
    let n = NoticeSent::new(Some("2025-09-01".to_string()), "Test Notice".to_string(), Some("b".to_string()), Category::Training);
    assert_eq!(n.external_id, "defd38be51ad4497fbc3b2a0867d87fa92590bf553fe2ad9abaf6baa3f485a1c");
    assert_eq!(n.published_date, Some(ymd(2025, 9, 1)));
    assert_eq!(n.id, 0);
    assert_eq!(n.sent_ok, 0);
    assert_eq!(n.body.as_deref(), Some("b"));

    let m = NoticeSent::new(None, "Only title".to_string(), None, Category::Tuition);
    assert_eq!(m.external_id, "e6e97594ab48a82374d59f5e5d75405d4a6786b1cb474b3ae6f23ae71fc70bc0");
    assert_eq!(m.published_date, None);

    let dmy = NoticeSent::new_at(Some("01/09/2025".to_string()), "x".to_string(), None, Category::Training, at("2025-01-01 00:00:00"));
    assert_eq!(dmy.published_date, Some(ymd(2025, 9, 1)));
    let bad = NoticeSent::new_at(Some("soon".to_string()), "x".to_string(), None, Category::Training, at("2025-01-01 00:00:00"));
    assert_eq!(bad.published_date, None);
}

#[test]
fn same_date_and_title_give_the_same_key() {
    let a = NoticeSent::new(Some("2025-09-01".to_string()), "T".to_string(), Some("one".to_string()), Category::Training);
    let b = NoticeSent::new(Some("2025-09-01".to_string()), "T".to_string(), None, Category::Training);
    let c = NoticeSent::new(Some("2025-09-02".to_string()), "T".to_string(), None, Category::Training);
    assert_eq!(a.external_id, b.external_id);
    assert_ne!(a.external_id, c.external_id);
    assert_eq!(a.external_id.len(), 64);
}

#[test]
fn notice_display_and_id_line() {
    let n = notice(Category::Training, Some(ymd(2025, 9, 1)), "Title", Some("Body"));
    assert_eq!(n.to_display_string(), "[2025-09-01] Title\nBody");
    assert_eq!(n.fmt_id(), "[2025-09-01] Title\nid-Title");
    let m = notice(Category::Training, None, "Title", None);
    assert_eq!(m.to_display_string(), "[N/A] Title\n");
}

#[test]
fn message_text_is_escaped_and_complete() {
    let n = notice(Category::Training, Some(ymd(2025, 8, 29)), "A < B & C > D", Some("- xem: <a href=\"u\">Tại đây</a>"));
    assert_eq!(
        notice_message(&n),
        "#Training\n<b>A &lt; B &amp; C &gt; D</b>\n<b>Date:</b> 2025-08-29\n<b>Details:</b>\n- xem: <a href=\"u\">Tại đây</a>\n<i>Sent at: 2025-08-31 23:59:59</i>"
    );
    let m = notice(Category::Tuition, None, "Học phí", None);
    assert_eq!(
        notice_message(&m),
        "#Tuition\n<b>Học phí</b>\n<b>Date:</b> N/A\n<b>Details:</b>\nNo details\n<i>Sent at: 2025-08-31 23:59:59</i>"
    );
}

// Sending ------------------------------------------------------------------------

#[test]
fn retry_after_is_read_from_lowercased_errors() {
    assert_eq!(retry_after_secs("too many requests: retry after 30"), Some(30));
    assert_eq!(retry_after_secs("retry after 12s"), Some(12));
    assert_eq!(retry_after_secs("retry after   +7 seconds"), Some(7));
    assert_eq!(retry_after_secs("retry after 3 retry after 9"), Some(3));
    assert_eq!(retry_after_secs("retry after"), None);
    assert_eq!(retry_after_secs("retry after abc"), None);
    assert_eq!(retry_after_secs("retry after -3"), None);
    assert_eq!(retry_after_secs("no hint here"), None);
    assert_eq!(retry_after_secs("retry after 18446744073709551616"), None);
}

#[test]
fn wait_after_a_refused_send() {
    assert_eq!(retry_wait_secs("A Telegram server says - Too Many Requests: Retry After 30"), Some(31));
    assert_eq!(retry_wait_secs("Network error"), Some(5));
    assert_eq!(retry_wait_secs("RETRY AFTER 0S"), Some(1));
    assert_eq!(retry_wait_secs("retry after 18446744073709551615"), None);
}

#[test]
fn the_fifth_failure_gives_up() {
    assert_eq!(after_send_failure(0, 6), SendStep::Retry { failures: 1, wait_secs: 6 });
    assert_eq!(after_send_failure(3, 5), SendStep::Retry { failures: 4, wait_secs: 5 });
    assert_eq!(after_send_failure(4, 5), SendStep::GiveUp { failures: 5 });
}

// Storage ------------------------------------------------------------------------

#[test]
fn sent_at_values_are_read() {
    assert_eq!(parse_sent_at("2025-09-01 12:30:00").ok().unwrap().to_seconds_string(), "2025-09-01 12:30:00");
    assert_eq!(parse_sent_at("2025-09-01").ok().unwrap().to_seconds_string(), "2025-09-01 00:00:00");
    assert_eq!(parse_sent_at("yesterday").err(), Some("Invalid sent_at: yesterday".to_string()));
}

fn row(id: i64, category: &str, sent_at: &str) -> UnsentRow {
    UnsentRow {
        id,
        main_category: category.to_string(),
        external_id: "e".to_string(),
        published_date: Some(ymd(2025, 9, 1)),
        title: "Title".to_string(),
        body: None,
        sent_at: sent_at.to_string(),
        sent_ok: 0,
    }
}

#[test]
fn stored_rows_read_back_as_notices() {
    let n = notice_from_row(&row(7, "ClassNotice", "2025-09-01 10:20:30")).ok().unwrap();
    assert_eq!(n.id, 7);
    assert_eq!(n.main_category, Category::ClassNotice);
    assert_eq!(n.sent_at.to_seconds_string(), "2025-09-01 10:20:30");
    assert_eq!(n.published_date, Some(ymd(2025, 9, 1)));
    let wide = notice_from_row(&row(4294967297, "Tuition", "2025-09-01")).ok().unwrap();
    assert_eq!(wide.id, 1);
    assert_eq!(notice_from_row(&row(1, "Other", "bad")).err(), Some("Invalid category: Other".to_string()));
    assert_eq!(notice_from_row(&row(1, "Tuition", "bad")).err(), Some("Invalid sent_at: bad".to_string()));

    let rows = vec![row(1, "Training", "2025-09-01"), row(2, "Nope", "2025-09-01"), row(3, "Tuition", "bad")];
    assert_eq!(notices_from_rows(&rows).err(), Some("Invalid category: Nope".to_string()));
    let good = vec![row(1, "Training", "2025-09-01"), row(2, "Tuition", "2025-09-02 01:02:03")];
    let v = notices_from_rows(&good).ok().unwrap();
    assert_eq!(v.len(), 2);
    assert_eq!(v[1].id, 2);
}

#[test]
fn insert_steps() {
    let n = notice(Category::ClassNotice, None, "Lớp 23.Nh16", Some("x"));
    match insert_step(&n, &config(Some(vec!["21.Nh84"])), None) {
        InsertAction::Finish(false) => {}
        _ => panic!("a filtered notice is not stored"),
    }
    match insert_step(&n, &config(Some(vec!["23.Nh16"])), None) {
        InsertAction::LookUp(k) => {
            assert_eq!(k.category, "ClassNotice");
            assert_eq!(k.external_id, "id-Lớp 23.Nh16");
        }
        _ => panic!("a kept notice is looked up"),
    }
    match insert_step(&n, &config(None), Some(true)) {
        InsertAction::Finish(false) => {}
        _ => panic!("a stored notice is not stored again"),
    }
    match insert_step(&n, &config(None), Some(false)) {
        InsertAction::Insert(r) => {
            assert_eq!(r.main_category, "ClassNotice");
            assert_eq!(r.title, "Lớp 23.Nh16");
            assert_eq!(r.body.as_deref(), Some("x"));
        }
        _ => panic!("a new notice is inserted"),
    }
}

#[test]
fn check_and_insert_twice_against_a_table() {
    // The same notice handed twice to the insert steps, against an in-memory table.
    let mut table: Vec<(String, String)> = Vec::new();
    let n = notice(Category::Training, Some(ymd(2025, 9, 1)), "Test Insert", Some("This is a test"));
    let cfg = config(None);
    let mut run = |table: &mut Vec<(String, String)>| -> bool {
        match insert_step(&n, &cfg, None) {
            InsertAction::Finish(b) => b,
            InsertAction::LookUp(k) => {
                let found = table.contains(&(k.category.clone(), k.external_id.clone()));
                match insert_step(&n, &cfg, Some(found)) {
                    InsertAction::Finish(b) => b,
                    InsertAction::Insert(r) => {
                        table.push((r.main_category, r.external_id));
                        true
                    }
                    InsertAction::LookUp(_) => panic!("no second look-up"),
                }
            }
            InsertAction::Insert(_) => panic!("no insert before a look-up"),
        }
    };
    assert!(run(&mut table), "First insert should return true");
    assert!(!run(&mut table), "Second insert should return false");
    let k = notice_key(&n);
    assert_eq!(table, vec![(k.category, k.external_id)]);
}

// Pages --------------------------------------------------------------------------

#[test]
fn links_are_kept_and_captions_split() {
    let html = r#"<html><body>
        <div class="tbBox">
            <div class="tbBoxCaption"><span>29/08/2025</span>: Danh sách thi TOEIC</div>
            <div class="tbBoxContent">- Xem: <a href="https://x/y">Tại <b>đây</b></a> ngay<a>bỏ</a><!-- c --><p> cuối </p></div>
        </div>
        <div class="tbBox">
            <div class="tbBoxCaption">Không có ngày</div>
        </div>
    </body></html>"#;
    let v = analysis_notice(html, Category::StudentAffairs).unwrap();
    assert_eq!(v.len(), 2);
    assert_eq!(v[0].title, "Danh sách thi TOEIC");
    assert_eq!(v[0].published_date, Some(ymd(2025, 8, 29)));
    assert_eq!(v[0].body.as_deref(), Some("- Xem: <a href=\"https://x/y\">Tại  đây</a> ngaycuối"));
    assert_eq!(v[0].main_category, Category::StudentAffairs);
    assert_eq!(v[1].title, "Không có ngày");
    assert_eq!(v[1].published_date, None);
    assert_eq!(v[1].body, None);
}

#[test]
fn a_page_without_boxes_has_no_notices() {
    assert_eq!(analysis_notice("<p>nothing</p>", Category::Training).unwrap().len(), 0);
}

#[test]
fn notices_from_walks() {
    let el = |name: &str| HtmlToken::Open(None, Some((name.to_string(), None)));
    let text = |t: &str| HtmlToken::Open(Some(t.to_string()), None);
    let caption = vec![el("div"), text(" 2025-09-01 : Title "), HtmlToken::Close, HtmlToken::Close];
    let content = vec![
        el("div"),
        text(" Read "),
        HtmlToken::Close,
        HtmlToken::Open(None, Some(("a".to_string(), Some("u".to_string())))),
        text("this"),
        HtmlToken::Close,
        HtmlToken::Close,
        HtmlToken::Close,
    ];
    let boxes = vec![ScrapedBox { caption: Some(caption), content: Some(content) }, ScrapedBox { caption: None, content: None }];
    let v = notices_from_boxes(&boxes, Category::Tuition);
    assert_eq!(v.len(), 2);
    assert_eq!(v[0].title, "Title");
    assert_eq!(v[0].published_date, Some(ymd(2025, 9, 1)));
    assert_eq!(v[0].body.as_deref(), Some("Read <a href=\"u\">this</a>"));
    assert_eq!(v[1].title, "");
    assert_eq!(v[1].body, None);
}

#[test]
fn notices_are_sorted_stably_by_date() {
    let v = vec![
        notice(Category::Training, Some(ymd(2025, 9, 2)), "a", None),
        notice(Category::Training, None, "b", None),
        notice(Category::ClassNotice, Some(ymd(2025, 9, 1)), "c", None),
        notice(Category::Tuition, Some(ymd(2025, 9, 2)), "d", None),
        notice(Category::Tuition, None, "e", None),
        notice(Category::Tuition, Some(ymd(2024, 12, 31)), "f", None),
    ];
    let sorted = sort_notices_by_date(v);
    let titles: Vec<&str> = sorted.iter().map(|n| n.title.as_str()).collect();
    assert_eq!(titles, vec!["b", "e", "f", "c", "a", "d"]);
}

#[test]
fn category_pages() {
    assert_eq!(
        category_url(Category::ClassNotice),
        "https://sv.dut.udn.vn/WebAjax/evLopHP_Load.aspx?E=CTRTBGV&PAGETB=1&COL=TieuDe&NAME=&TAB=1"
    );
    assert!(category_url(Category::Tuition).ends_with("TAB=4"));
}

#[test]
fn service_unit_text() {
    let unit = service_unit("/usr/local/bin/notify-bot-dut");
    assert_eq!(
        unit,
        "[Unit]\nDescription=DUT Notify Bot\nAfter=network-online.target\nWants=network-online.target\n\n[Service]\nType=simple\nExecStart=/usr/local/bin/notify-bot-dut\nRestart=on-failure\nRestartSec=30\n\n[Install]\nWantedBy=default.target\n"
    );
}

// Waiting and retrying ----------------------------------------------------------

#[test]
fn connectivity_check_goes_on_or_waits_the_interval() {
    assert_eq!(after_connectivity_check(true, 5), ConnectStep::Proceed);
    assert_eq!(after_connectivity_check(false, 5), ConnectStep::Wait { secs: 5 });
    assert_eq!(after_connectivity_check(false, 0), ConnectStep::Wait { secs: 0 });
}

#[test]
fn failed_fetch_is_retried_after_ten_seconds() {
    assert_eq!(FETCH_RETRY_SECS, 10);
    assert!(matches!(after_fetch_attempt(None, Category::Tuition), FetchStep::Retry { wait_secs: 10 }));
}

#[test]
fn fetched_page_yields_its_notices() {
    let html = r#"<div class="tbBox"><div class="tbBoxCaption">01/09/2025: Học phí</div><div class="tbBoxContent">Nộp trước 15/09</div></div>"#;
    match after_fetch_attempt(Some(html), Category::Tuition) {
        FetchStep::Done(v) => {
            assert_eq!(v.len(), 1);
            assert_eq!(v[0].title, "Học phí");
            assert_eq!(v[0].published_date, Some(ymd(2025, 9, 1)));
            assert_eq!(v[0].body.as_deref(), Some("Nộp trước 15/09"));
            assert_eq!(v[0].main_category, Category::Tuition);
        }
        FetchStep::Retry { .. } => panic!("a page that was read is not retried"),
    }
    assert!(matches!(after_fetch_attempt(Some(""), Category::Training), FetchStep::Done(v) if v.is_empty()));
}

#[test]
fn rounds_are_an_hour_apart() {
    assert_eq!(SCHEDULE_PERIOD_SECS, 3600);
}
