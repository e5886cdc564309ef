use sysfetch::error::Error;
use sysfetch::kv::{parse_lines, pretty_name};
use sysfetch::meminfo::mem_info;
use sysfetch::num::parse_u64;
use sysfetch::text::{strip_path, trim};
use sysfetch::uptime::get_uptime;

#[test]
fn key_value_plain() {
    assert_eq!(
        parse_lines("A=B"),
        Some(("A".to_string(), "B".to_string()))
    );
}

#[test]
fn key_value_quoted() {
    assert_eq!(
        parse_lines("A=\"B\""),
        Some(("A".to_string(), "B".to_string()))
    );
}

#[test]
fn key_value_leading_quote_only() {
    assert_eq!(
        parse_lines("A=\"B"),
        Some(("A".to_string(), "B".to_string()))
    );
}

#[test]
fn key_value_trailing_quote_only() {
    assert_eq!(
        parse_lines("A=B\""),
        Some(("A".to_string(), "B".to_string()))
    );
}

#[test]
fn key_value_no_equals() {
    assert_eq!(parse_lines("AB"), None);
    assert_eq!(parse_lines(""), None);
    assert_eq!(parse_lines("no separator here"), None);
}

#[test]
fn key_value_splits_on_first_equals() {
    assert_eq!(
        parse_lines("K=a=b"),
        Some(("K".to_string(), "a=b".to_string()))
    );
}

#[test]
fn key_value_lone_quote_value() {
    // A single quote is stripped once as the leading quote, leaving nothing.
    assert_eq!(
        parse_lines("A=\""),
        Some(("A".to_string(), "".to_string()))
    );
}

#[test]
fn pretty_name_basic() {
    let content = "NAME=Linux\nPRETTY_NAME=\"Some Distro 1.0\"\nID=thing\n";
    assert_eq!(pretty_name(content), "Some Distro 1.0");
}

#[test]
fn pretty_name_last_wins() {
    let content = "PRETTY_NAME=\"First\"\nPRETTY_NAME=\"Second\"\n";
    assert_eq!(pretty_name(content), "Second");
}

#[test]
fn pretty_name_absent_is_empty() {
    let content = "NAME=Linux\nID=thing\n";
    assert_eq!(pretty_name(content), "");
}

#[test]
fn pretty_name_trims_line_whitespace() {
    let content = "  PRETTY_NAME=Plain  \n";
    assert_eq!(pretty_name(content), "Plain");
}

#[test]
fn uptime_first_field_truncated_at_dot() {
    assert_eq!(get_uptime("12345.67 89.1"), Some(12345));
}

#[test]
fn uptime_whole_seconds() {
    assert_eq!(get_uptime("42 10.5"), Some(42));
}

#[test]
fn uptime_garbage_is_none() {
    assert_eq!(get_uptime("abc 1.0"), None);
    assert_eq!(get_uptime(""), None);
}

#[test]
fn parse_u64_bounds() {
    assert_eq!(parse_u64("18446744073709551615"), Some(u64::MAX));
    assert_eq!(parse_u64("18446744073709551616"), None);
    assert_eq!(parse_u64("0"), Some(0));
    assert_eq!(parse_u64("007"), Some(7));
    assert_eq!(parse_u64("1x"), None);
    assert_eq!(parse_u64(""), None);
}

#[test]
fn trim_both_ends() {
    assert_eq!(trim("  hello \n"), "hello");
    assert_eq!(trim("\t\r\n "), "");
    assert_eq!(trim("plain"), "plain");
}

#[test]
fn strip_path_final_segment() {
    assert_eq!(strip_path("/bin/zsh"), "zsh");
    assert_eq!(strip_path("vim"), "vim");
    assert_eq!(strip_path("/usr/bin/vim"), "vim");
}

#[test]
fn meminfo_derivation() {
    let body = "MemTotal: 1000 kB\nMemFree: 200 kB\nBuffers: 100 kB\nCached: 100 kB\nSlab: 100 kB\n";
    let m = mem_info(body).unwrap();
    assert_eq!(m.total, 1_000_000);
    assert_eq!(m.used, 500_000);
}

#[test]
fn meminfo_ignores_extra_tokens_and_lines() {
    let body = "MemTotal: 1000 kB\njunk\nMemFree: 200 kB\nBuffers: 100 kB\nCached: 100 kB\nSlab: 100 kB\nHugePages:\n";
    let m = mem_info(body).unwrap();
    assert_eq!(m.total, 1_000_000);
    assert_eq!(m.used, 500_000);
}

#[test]
fn meminfo_duplicate_label_last_wins() {
    let body = "MemTotal: 500 kB\nMemTotal: 1000 kB\nMemFree: 200 kB\nBuffers: 100 kB\nCached: 100 kB\nSlab: 100 kB\n";
    let m = mem_info(body).unwrap();
    assert_eq!(m.total, 1_000_000);
}

#[test]
fn meminfo_missing_label_is_unknown() {
    let body = "MemTotal: 1000 kB\nMemFree: 200 kB\nBuffers: 100 kB\nCached: 100 kB\n";
    assert_eq!(mem_info(body), Err(Error::Unknown));
}

#[test]
fn meminfo_unparseable_value_is_unknown() {
    let body = "MemTotal: lots kB\nMemFree: 200 kB\nBuffers: 100 kB\nCached: 100 kB\nSlab: 100 kB\n";
    assert_eq!(mem_info(body), Err(Error::Unknown));
}

#[test]
fn meminfo_inconsistent_figures_rejected() {
    let body = "MemTotal: 100 kB\nMemFree: 200 kB\nBuffers: 100 kB\nCached: 100 kB\nSlab: 100 kB\n";
    match mem_info(body) {
        Err(Error::General(msg)) => assert_eq!(msg, "inconsistent memory statistics"),
        other => panic!("expected a general error, got {:?}", other),
    }
}

#[test]
fn error_messages() {
    assert_eq!(Error::Unknown.message(), "An unknown error occurred");
    assert_eq!(
        Error::IO("gone".to_string()).message(),
        "IO error: gone"
    );
    assert_eq!(
        Error::General("bad".to_string()).message(),
        "Error: bad"
    );
    assert_eq!(Error::UnsupportedSystem.message(), "System is not supported");
}
