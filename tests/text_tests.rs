use hntui::config::{Cli, CliError};
use hntui::html::{hn_html_to_plain, plain_lines, strip_markup};
use hntui::input::{Action, KeyCode, KeyInput, KeyState, Modifiers};
use hntui::logging::{format_log_line, log_error, log_info, log_path, Log};
use hntui::text::{collapse_spaces, domain_from_url, format_age, wrap_plain};

#[test]
fn collapse_runs_of_whitespace() {
    assert_eq!(collapse_spaces("a  b\t\n c"), "a b c");
    assert_eq!(collapse_spaces("  x "), " x ");
    assert_eq!(collapse_spaces(""), "");
}

#[test]
fn age_formatting() {
    assert_eq!(format_age(100, 159), "59s");
    assert_eq!(format_age(0, 60), "1m");
    assert_eq!(format_age(0, 3600 * 47), "47h");
    assert_eq!(format_age(0, 3600 * 48), "2d");
    assert_eq!(format_age(0, 86400 * 365), "1y");
    assert_eq!(format_age(500, 100), "0s");
}

#[test]
fn html_markup_and_entities() {
    assert_eq!(strip_markup("a<p>b</p>c<br>d<i>e</i>"), "a\n\nb\n\nc\nde");
    assert_eq!(plain_lines("  a   b \n\n c "), "a b\nc");
    assert_eq!(hn_html_to_plain("It&#x27;s <i>fine</i><p>Next &amp; last"), "It's fine\nNext & last");
}

#[test]
fn log_lines() {
    assert_eq!(format_log_line(12, "INFO", "started"), "12 INFO started\n");
    let mut log = Log::new(Some("/tmp/hntui.log".to_string()));
    log_error(&mut log, 5, "bad");
    log_info(&mut log, 6, "ok");
    assert_eq!(log_path(&log).map(|p| p.as_str()), Some("/tmp/hntui.log"));
    assert_eq!(log.take_pending(), vec!["5 ERROR bad\n".to_string(), "6 INFO ok\n".to_string()]);
    let mut off = Log::new(None);
    log_info(&mut off, 1, "ignored");
    assert!(off.take_pending().is_empty());
    assert!(log_path(&off).is_none());
}

fn cli() -> Cli {
    Cli {
        count: 30,
        page_size: 30,
        cache_size: 500,
        concurrency: 20,
        no_file_cache: false,
        file_cache_dir: None,
        file_cache_ttl_secs: 3600,
        base_url: "https://hacker-news.firebaseio.com/v0".to_string(),
        ui_config: None,
    }
}

#[test]
fn option_validation() {
    assert_eq!(cli().validate(), Ok(()));
    let mut c = cli();
    c.count = 0;
    assert_eq!(c.validate(), Err(CliError::ZeroCount));
    let mut c = cli();
    c.concurrency = 0;
    assert_eq!(c.validate(), Err(CliError::ZeroConcurrency));
    let mut c = cli();
    c.base_url = "   ".to_string();
    assert_eq!(c.validate(), Err(CliError::BlankBaseUrl));
    let mut c = cli();
    c.ui_config = Some(String::new());
    assert_eq!(c.validate(), Err(CliError::EmptyUiConfig));
}

#[test]
fn key_bindings() {
    let key = |code, modifiers| KeyInput { code, modifiers };
    let mut ks = KeyState::new();
    assert_eq!(ks.on_key(key(KeyCode::Char('g'), Modifiers::Plain)), None);
    assert_eq!(ks.on_key(key(KeyCode::Char('g'), Modifiers::Plain)), Some(Action::GoTop));
    assert_eq!(ks.on_key(key(KeyCode::Char('g'), Modifiers::Plain)), None);
    assert_eq!(ks.on_key(key(KeyCode::Char('j'), Modifiers::Plain)), Some(Action::MoveDown));
    assert!(!ks.pending_g);
    assert_eq!(ks.on_key(key(KeyCode::Char('d'), Modifiers::Control)), Some(Action::PageDown));
    assert_eq!(ks.on_key(key(KeyCode::Char('c'), Modifiers::Control)), Some(Action::BackOrQuit));
    assert_eq!(ks.on_key(key(KeyCode::Other, Modifiers::Plain)), None);
}

#[test]
fn domains() {
    assert_eq!(domain_from_url("https://www.example.com/a/b").as_deref(), Some("example.com"));
    assert_eq!(domain_from_url("http://user:pw@host.io:8080/x").as_deref(), Some("host.io:8080"));
    assert_eq!(domain_from_url("plain.org/path").as_deref(), Some("plain.org"));
    assert_eq!(domain_from_url("https://www.www.twice.net").as_deref(), Some("twice.net"));
}

#[test]
fn wrapping() {
    assert_eq!(wrap_plain("aaa bbb ccc", 7, 7, 10), vec!["aaa bbb", "ccc"]);
    assert_eq!(wrap_plain("aaa bbb ccc", 3, 20, 10), vec!["aaa", "bbb ccc"]);
    assert_eq!(wrap_plain("one\n\ntwo", 80, 80, 10), vec!["one", "two"]);
    assert_eq!(wrap_plain("a b c d", 1, 1, 2), vec!["a", "b"]);
    assert_eq!(wrap_plain("", 10, 10, 3), vec![""]);
    assert_eq!(wrap_plain("text", 10, 10, 0), vec![""]);
}
