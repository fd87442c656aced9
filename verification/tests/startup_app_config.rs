use asp_dot_rust::configuration::StartupAppConfiguration;

fn parse(args: &[&str]) -> StartupAppConfiguration {
    let mut base = StartupAppConfiguration::default();
    base.parse(args.iter().map(|s| s.to_string()).collect())
}

#[test]
fn parses_key_equals_value() {
    let cfg = parse(&["--ip=127.0.0.1"]);
    assert_eq!(cfg.get("ip"), Some("127.0.0.1"));
    assert_eq!(cfg.len(), 1);
}

#[test]
fn splits_at_first_equals_sign() {
    let cfg = parse(&["--conn=a=b"]);
    assert_eq!(cfg.get("conn"), Some("a=b"));
}

#[test]
fn parses_key_space_value() {
    let cfg = parse(&["--http-port", "8080"]);
    assert_eq!(cfg.get("http-port"), Some("8080"));
    assert_eq!(cfg.get_parsed::<u16>("http-port"), Some(8080));
}

#[test]
fn flag_without_value_is_true() {
    let cfg = parse(&["--verbose"]);
    assert_eq!(cfg.get("verbose"), Some("true"));
}

#[test]
fn flag_followed_by_flag_does_not_take_it_as_value() {
    let cfg = parse(&["--verbose", "--debug"]);
    assert_eq!(cfg.get("verbose"), Some("true"));
    assert_eq!(cfg.get("debug"), Some("true"));
    assert_eq!(cfg.len(), 2);
}

#[test]
fn positional_tokens_and_bare_dashes_are_skipped() {
    let cfg = parse(&["serve", "--", "-x", "--name", "app"]);
    assert_eq!(cfg.len(), 1);
    assert_eq!(cfg.get("name"), Some("app"));
    assert!(!cfg.contains("x"));
    assert!(!cfg.contains(""));
}

#[test]
fn later_setting_wins() {
    let cfg = parse(&["--port=1", "--port", "2"]);
    assert_eq!(cfg.get("port"), Some("2"));
    assert_eq!(cfg.len(), 1);
}

#[test]
fn get_parsed_rejects_bad_numbers() {
    let cfg = parse(&["--a=65536", "--b=abc", "--c=+7", "--d=-1", "--e="]);
    assert_eq!(cfg.get_parsed::<u16>("a"), None);
    assert_eq!(cfg.get_parsed::<u32>("a"), Some(65536));
    assert_eq!(cfg.get_parsed::<u16>("b"), None);
    assert_eq!(cfg.get_parsed::<u16>("c"), Some(7));
    assert_eq!(cfg.get_parsed::<u64>("d"), None);
    assert_eq!(cfg.get_parsed::<usize>("e"), None);
    assert_eq!(cfg.get_parsed::<u16>("missing"), None);
}

#[test]
fn empty_configuration() {
    let cfg = parse(&[]);
    assert!(cfg.is_empty());
    assert_eq!(cfg.len(), 0);
    assert_eq!(cfg.get("ip"), None);
}

#[test]
fn parse_leaves_receiver_unchanged() {
    let mut base = parse(&["--keep=1"]);
    let fresh = base.parse(vec!["--other=2".to_string()]);
    assert_eq!(base.get("keep"), Some("1"));
    assert_eq!(fresh.get("keep"), None);
    assert_eq!(fresh.get("other"), Some("2"));
}

#[test]
fn clone_keeps_settings() {
    let cfg = parse(&["--a=1", "--b"]);
    let copy = cfg.clone();
    assert_eq!(copy.get("a"), Some("1"));
    assert_eq!(copy.get("b"), Some("true"));
    assert_eq!(copy.len(), 2);
}
