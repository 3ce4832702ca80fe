use print_server::path::is_entry_of;
use print_server::print::{console_text, is_loggable, is_single_component, plan, plan_persist};
use print_server::text::{base_name_start, char_vec, has_suffix, is_blank};
use print_server::{Persist, PrintReq};

fn req(desc: &str, msg: &str) -> PrintReq {
    PrintReq { desc: desc.to_string(), msg: msg.to_string() }
}

fn written(p: &Persist) -> Option<(String, String)> {
    match p {
        Persist::Write { name, body } => Some((name.clone(), body.clone())),
        _ => None,
    }
}

#[test]
fn console_shows_message_below_description() {
    assert_eq!(console_text(&req("notes", "hi there")), "notes\nhi there");
}

#[test]
fn console_keeps_message_untrimmed() {
    assert_eq!(console_text(&req("d", " x ")), "d\n x ");
}

#[test]
fn console_omits_blank_message() {
    assert_eq!(console_text(&req("notes.txt", "  ")), "notes.txt");
    assert_eq!(console_text(&req("d", "")), "d");
    assert_eq!(console_text(&req("d", "\t\n\r ")), "d");
    assert_eq!(console_text(&req("d", "\u{3000}\u{2028}\u{85}")), "d");
}

#[test]
fn blank_follows_unicode_white_space() {
    assert!(is_blank(""));
    assert!(is_blank(" \t\u{a0}\u{2000}"));
    assert!(!is_blank(" a "));
    assert!(!is_blank("\u{200b}"));
}

#[test]
fn suffix_test() {
    let s = char_vec("out.json");
    assert!(has_suffix(&s, ".json"));
    assert!(has_suffix(&s, ""));
    assert!(!has_suffix(&s, ".log"));
    assert!(!has_suffix(&char_vec("on"), ".json"));
}

#[test]
fn loggable_suffixes_only() {
    assert!(is_loggable("a.txt"));
    assert!(is_loggable("a/b.log"));
    assert!(is_loggable(".json"));
    assert!(!is_loggable("a.md"));
    assert!(!is_loggable("a.TXT"));
    assert!(!is_loggable("a.txt.bak"));
    assert!(!is_loggable(""));
}

#[test]
fn base_name_starts_after_last_separator() {
    assert_eq!(base_name_start(&char_vec("a/b/out.log"), '/'), 4);
    assert_eq!(base_name_start(&char_vec("out.log"), '/'), 0);
    assert_eq!(base_name_start(&char_vec("a/"), '/'), 2);
    assert_eq!(base_name_start(&char_vec(""), '/'), 0);
}

#[test]
fn single_component_names() {
    assert!(is_single_component("_a.txt", '/'));
    assert!(is_single_component("..a", '/'));
    assert!(!is_single_component("", '/'));
    assert!(!is_single_component(".", '/'));
    assert!(!is_single_component("..", '/'));
    assert!(!is_single_component("a/b", '/'));
    assert!(!is_single_component("a/b", '\\'));
    assert!(!is_single_component("a\\b", '\\'));
    assert!(is_single_component("a\\b", '/'));
}

#[test]
fn ineligible_description_writes_nothing() {
    for d in ["notes", "notes.md", "a/b/c", "x.txt/", "report.TXT"] {
        for m in ["", "hello", "  "] {
            assert!(matches!(plan_persist(d, &m.to_string(), '/'), Persist::NotEligible));
        }
    }
}

#[test]
fn eligible_description_writes_message() {
    let p = plan(&req("dir/report.json", "{\"a\": 1}"), '/');
    assert_eq!(written(&p.persist), Some(("_report.json".to_string(), "{\"a\": 1}".to_string())));
    let p = plan(&req("plain.txt", ""), '/');
    assert_eq!(written(&p.persist), Some(("_plain.txt".to_string(), String::new())));
}

#[test]
fn empty_description_writes_nothing() {
    let p = plan(&req("", "hello"), '/');
    assert_eq!(p.console, "\nhello");
    assert!(matches!(p.persist, Persist::NotEligible));
}

#[test]
fn same_request_twice_same_outcome() {
    let r = req("a/x.log", "again");
    let p = plan(&r, '/');
    let q = plan(&r, '/');
    assert_eq!(p.console, q.console);
    assert_eq!(written(&p.persist), written(&q.persist));
    assert_eq!(written(&p.persist), Some(("_x.log".to_string(), "again".to_string())));
}

#[test]
fn round_trip_hello() {
    let p = plan(&req("a/b/out.log", "hello"), '/');
    assert_eq!(p.console, "a/b/out.log\nhello");
    assert_eq!(written(&p.persist), Some(("_out.log".to_string(), "hello".to_string())));
}

#[test]
fn whitespace_message_still_written() {
    let p = plan(&req("notes.txt", "  "), '/');
    assert_eq!(p.console, "notes.txt");
    assert_eq!(written(&p.persist), Some(("_notes.txt".to_string(), "  ".to_string())));
}

#[test]
fn traversal_stays_in_root() {
    let p = plan(&req("../../etc/passwd.txt", "x"), '/');
    let (name, _) = written(&p.persist).unwrap();
    assert_eq!(name, "_passwd.txt");
    let path = format!("/srv/data/{name}");
    assert!(is_entry_of("/srv/data", &path, '/'));
    assert!(!is_entry_of("/srv/data", "/etc/passwd.txt", '/'));
}

#[test]
fn no_file_name_after_separator() {
    // with `t` as separator, nothing follows the last one in "a.txt"
    assert!(matches!(plan_persist("a.txt", &"m".to_string(), 't'), Persist::NoFileName));
}

#[test]
fn name_holding_separator_rejected() {
    assert!(matches!(plan_persist("x.txt", &"m".to_string(), '_'), Persist::Rejected));
}

#[test]
fn slash_in_name_rejected_under_other_separator() {
    let p = plan_persist("a\\b/c.log", &"m".to_string(), '\\');
    assert!(matches!(p, Persist::Rejected));
    let p = plan_persist("a/b\\c.log", &"m".to_string(), '\\');
    assert_eq!(written(&p), Some(("_c.log".to_string(), "m".to_string())));
}

#[test]
fn entries_directly_under_root() {
    assert!(is_entry_of("/srv", "/srv/_a.txt", '/'));
    assert!(is_entry_of("/srv/", "/srv/_a.txt", '/'));
    assert!(is_entry_of("/", "/_a.txt", '/'));
    assert!(!is_entry_of("/srv", "/srv/sub/_a.txt", '/'));
    assert!(!is_entry_of("/srv", "/srvx/_a.txt", '/'));
    assert!(!is_entry_of("/srv", "/srv/..", '/'));
    assert!(!is_entry_of("/srv", "/srv/.", '/'));
    assert!(!is_entry_of("/srv", "/srv/", '/'));
    assert!(!is_entry_of("/srv", "/srv", '/'));
    assert!(!is_entry_of("/srv", "/other/_a.txt", '/'));
}
