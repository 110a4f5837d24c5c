//! The configuration of a run.

use pee::args::{parse, OutputFormat};
use pee::config::{quiesce, read_ms, Config, Environment};
use pee::text::OsText;
use pee::time::Duration;

fn osv(v: &[&str]) -> Vec<OsText> {
    v.iter().map(|s| OsText::from_text(s)).collect()
}

fn env() -> Environment {
    Environment {
        wrapper: "tool-pee".to_owned(),
        temp_dir: OsText::from_text("/tmp"),
        char_delay: None,
        quiesce: None,
    }
}

#[test]
fn delays_are_numbers_of_milliseconds() {
    let set = |text: &str| Some(OsText::from_text(text));
    assert_eq!(read_ms(&None), Duration::from_millis(0));
    assert_eq!(read_ms(&set("")), Duration::from_millis(0));
    assert_eq!(read_ms(&set("abc")), Duration::from_millis(0));
    assert_eq!(read_ms(&set("-1")), Duration::from_millis(0));
    assert_eq!(read_ms(&set("50")), Duration::from_millis(50));
}

#[test]
fn quiescence_is_always_on() {
    let set = |text: &str| Some(OsText::from_text(text));
    assert_eq!(quiesce(&None), Duration::from_millis(500));
    assert_eq!(quiesce(&set("0")), Duration::from_millis(500));
    assert_eq!(quiesce(&set("no")), Duration::from_millis(500));
    assert_eq!(quiesce(&set("2000")), Duration::from_millis(2000));
}

#[test]
fn a_run_gets_a_random_session() {
    let one = Config::build(parse(Vec::new()).unwrap(), env());
    let other = Config::build(parse(Vec::new()).unwrap(), env());
    assert_ne!(one.session_id, other.session_id);
    assert_ne!(one.sentinel, other.sentinel);
    for config in [one, other] {
        let id: Vec<char> = config.session_id.chars().collect();
        assert_eq!(id.len(), 36);
        for (i, c) in id.iter().enumerate() {
            match i {
                8 | 13 | 18 | 23 => assert_eq!(*c, '-'),
                14 => assert_eq!(*c, '4'),
                19 => assert!("89ab".contains(*c)),
                _ => assert!("0123456789abcdef".contains(*c)),
            }
        }
    }
}

#[test]
fn the_configuration_is_the_command_line_and_the_environment() {
    let parsed = parse(osv(&["-p", "hi", "--output-format", "json", "--model", "m"])).unwrap();
    let config = Config::for_session(
        parsed,
        "abc".to_owned(),
        Environment {
            wrapper: "tool-pee".to_owned(),
            temp_dir: OsText::from_text("/t"),
            char_delay: Some(OsText::from_text("5")),
            quiesce: Some(OsText::from_text("7")),
        },
    );
    assert_eq!(config.session_id, "abc");
    assert_eq!(config.forwarded, osv(&["--model", "m"]));
    assert_eq!(config.inject_payload.as_deref(), Some("hi"));
    assert_eq!(config.output_format, OutputFormat::Json);
    assert_eq!(config.char_delay, Duration::from_millis(5));
    assert_eq!(config.quiesce, Duration::from_millis(7));
    assert_eq!(config.sentinel, OsText::from_text("/t/tool-pee-abc.done"));
    assert_eq!(
        config.settings_json,
        r#"{"hooks":{"Stop":[{"hooks":[{"command":"touch '/t/tool-pee-abc.done'","type":"command"}]}]}}"#
    );
    assert!(config.second_opinion.is_none());
}

#[test]
fn a_review_is_coordinated_where_all_of_it_is_asked_for() {
    let all = [
        "--second-opinion-run-id",
        "r",
        "--second-opinion-lifecycle",
        "/l",
        "--second-opinion-inference-seconds",
        "3",
    ];
    let config = Config::for_session(parse(osv(&all)).unwrap(), "x".to_owned(), env());
    let policy = config.second_opinion.unwrap();
    assert_eq!(policy.run_id, "r");
    assert_eq!(policy.lifecycle_path, OsText::from_text("/l"));
    assert_eq!(policy.inference, Duration::from_secs(3));
    assert_eq!(policy.normal_cleanup, Duration::from_secs(10));
    assert_eq!(policy.forced_cleanup, Duration::from_secs(5));
    let some = Config::for_session(parse(osv(&all[..4])).unwrap(), "x".to_owned(), env());
    assert!(some.second_opinion.is_none());
}
