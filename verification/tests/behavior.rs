use gitp::cmd::dispatch;
use gitp::cmd::git_conf_path;
use gitp::cmd::help_text;
use gitp::cmd::Command;
use gitp::errors::AppErr;
use gitp::profile::parse_profile;
use gitp::profile::swap_report;
use gitp::profile::Profile;
use gitp::text::contains_token;
use gitp::text::extract_value;
use gitp::text::trim_str;

#[test]
fn no_argument_is_rejected() {
    let r = dispatch(None);
    assert!(matches!(r, Err(AppErr::CommandLineArgs)));
}

#[test]
fn help_flag_asks_for_help() {
    let r = dispatch(Some("-h".to_string()));
    assert!(matches!(r, Ok(Command::Help)));
}

#[test]
fn help_flag_is_trimmed() {
    let r = dispatch(Some("  -h \n".to_string()));
    assert!(matches!(r, Ok(Command::Help)));
}

#[test]
fn path_argument_asks_for_swap() {
    let r = dispatch(Some(" work.profile ".to_string()));
    match r {
        Ok(Command::Swap(p)) => assert_eq!(p, "work.profile"),
        _ => panic!("expected a swap command"),
    }
}

#[test]
fn empty_argument_is_a_path() {
    let r = dispatch(Some("".to_string()));
    match r {
        Ok(Command::Swap(p)) => assert_eq!(p, ""),
        _ => panic!("expected a swap command"),
    }
}

#[test]
fn help_text_is_exact() {
    let expected = "gitp is a simple tool to switch between your git profiles.\n\nCommands:\n\n-h            Check all the commands and usage.\n{filename}    Pass the name of that you want to be swapped with your current .gitconfig\n";
    assert_eq!(help_text(), expected);
}

#[test]
fn destination_path_is_fixed() {
    assert_eq!(git_conf_path(), ".gitconfig");
}

#[test]
fn both_keys_in_order_are_found() {
    let lines = vec![
        "name = Alice".to_string(),
        "email = alice@example.com".to_string(),
    ];
    let p = parse_profile(&lines).unwrap();
    assert_eq!(p.name, "Alice");
    assert_eq!(p.email, "alice@example.com");
}

#[test]
fn both_keys_in_reverse_order_are_found() {
    let lines = vec![
        "email = alice@example.com".to_string(),
        "name = Alice".to_string(),
    ];
    let p = parse_profile(&lines).unwrap();
    assert_eq!(p.name, "Alice");
    assert_eq!(p.email, "alice@example.com");
}

#[test]
fn keys_are_found_anywhere_in_the_file() {
    let lines = vec![
        "[user]".to_string(),
        "".to_string(),
        "  name = Alice".to_string(),
        "[core]".to_string(),
        "\temail = alice@example.com".to_string(),
    ];
    let p = parse_profile(&lines).unwrap();
    assert_eq!(p.name, "Alice");
    assert_eq!(p.email, "alice@example.com");
}

#[test]
fn missing_email_is_an_error() {
    let lines = vec!["name = Alice".to_string()];
    let r = parse_profile(&lines);
    assert!(matches!(r, Err(AppErr::FileNameOrEmailMissing)));
}

#[test]
fn missing_name_is_an_error() {
    let lines = vec!["email = alice@example.com".to_string()];
    let r = parse_profile(&lines);
    assert!(matches!(r, Err(AppErr::FileNameOrEmailMissing)));
}

#[test]
fn empty_file_is_an_error() {
    let lines: Vec<String> = Vec::new();
    let r = parse_profile(&lines);
    assert!(matches!(r, Err(AppErr::FileNameOrEmailMissing)));
}

#[test]
fn key_line_without_equals_yields_empty_value() {
    let lines = vec![
        "name".to_string(),
        "email = alice@example.com".to_string(),
    ];
    let p = parse_profile(&lines).unwrap();
    assert_eq!(p.name, "");
    assert_eq!(p.email, "alice@example.com");
}

#[test]
fn values_are_trimmed() {
    let lines = vec![
        "name =   Alice Liddell\t".to_string(),
        "email =\talice@example.com ".to_string(),
    ];
    let p = parse_profile(&lines).unwrap();
    assert_eq!(p.name, "Alice Liddell");
    assert_eq!(p.email, "alice@example.com");
}

#[test]
fn later_key_line_overwrites_until_both_are_found() {
    let lines = vec![
        "name = Alice".to_string(),
        "name = Bob".to_string(),
        "email = bob@example.com".to_string(),
    ];
    let p = parse_profile(&lines).unwrap();
    assert_eq!(p.name, "Bob");
    assert_eq!(p.email, "bob@example.com");
}

#[test]
fn scan_stops_once_both_are_found() {
    let lines = vec![
        "name = Alice".to_string(),
        "email = alice@example.com".to_string(),
        "name = Bob".to_string(),
    ];
    let p = parse_profile(&lines).unwrap();
    assert_eq!(p.name, "Alice");
    assert_eq!(p.email, "alice@example.com");
}

#[test]
fn one_line_can_carry_both_keys() {
    let lines = vec!["username_email = shared".to_string()];
    let p = parse_profile(&lines).unwrap();
    assert_eq!(p.name, "shared");
    assert_eq!(p.email, "shared");
}

#[test]
fn detail_message_is_exact() {
    let p = Profile::new("Alice".to_string(), "alice@example.com".to_string());
    assert_eq!(
        p.detail(),
        "\u{1b}[33musing .gitconfig with name Alice & email alice@example.com\u{1b}[0m"
    );
}

#[test]
fn swap_report_builds_the_detail_message() {
    let lines = vec![
        "name = Alice".to_string(),
        "email = alice@example.com".to_string(),
    ];
    let r = swap_report(&lines).unwrap();
    assert_eq!(
        r,
        "\u{1b}[33musing .gitconfig with name Alice & email alice@example.com\u{1b}[0m"
    );
}

#[test]
fn swap_report_fails_on_missing_key() {
    let lines = vec!["email = alice@example.com".to_string()];
    let r = swap_report(&lines);
    assert!(matches!(r, Err(AppErr::FileNameOrEmailMissing)));
}

#[test]
fn error_messages_are_exact() {
    assert_eq!(
        AppErr::CommandLineArgs.message(),
        "Please provide a valid argument. Use -h to understand more."
    );
    assert_eq!(
        AppErr::FileCopyErr("no such file".to_string()).message(),
        "Error copying file: no such file"
    );
    assert_eq!(
        AppErr::FileOpenErr("denied".to_string()).message(),
        "Error opening file: denied"
    );
    assert_eq!(
        AppErr::FileLineReadErr("bad data".to_string()).message(),
        "Error reading file: bad data"
    );
    assert_eq!(
        AppErr::FileNameOrEmailMissing.message(),
        "Name or email is missing."
    );
}

#[test]
fn trim_removes_surrounding_whitespace() {
    assert_eq!(trim_str("  a b\t\n"), "a b");
    assert_eq!(trim_str("ab"), "ab");
    assert_eq!(trim_str("   "), "");
    assert_eq!(trim_str(""), "");
}

#[test]
fn contains_token_finds_substrings() {
    assert!(contains_token("user name here", "name"));
    assert!(contains_token("name", "name"));
    assert!(!contains_token("nam e", "name"));
    assert!(!contains_token("", "name"));
    assert!(contains_token("anything", ""));
}

#[test]
fn extract_value_takes_text_after_first_equals() {
    assert_eq!(extract_value("name = Alice"), "Alice");
    assert_eq!(extract_value("a = b = c"), "b = c");
    assert_eq!(extract_value("no equals"), "");
    assert_eq!(extract_value("tail ="), "");
}
