use passwd::error::PasswdError;
use passwd::shadow::{ShadowEntry, ShadowFile};

fn entry(line: &str) -> ShadowEntry {
    ShadowEntry::new(line.to_string()).expect("line parses")
}

#[test]
fn alice_nine_fields_parse() {
    let e = entry("alice:$6$abc:18000:0:99999:7:::");
    assert_eq!(e.login_name, "alice");
    assert_eq!(e.password_field, "$6$abc");
    assert_eq!(e.last_change, 18000);
    assert_eq!(e.min_days, 0);
    assert_eq!(e.max_days, 99999);
    assert_eq!(e.warn_days, 7);
    assert_eq!(e.inactive_days, -1);
    assert_eq!(e.expire_days, -1);
    assert_eq!(e.flags, u64::MAX);
    assert_eq!(passwd::status::passwd_lock_type(&e.password_field), "P");
}

#[test]
fn alice_with_trailing_space_parses() {
    let e = entry("alice:$6$abc:18000:0:99999:7::: ");
    assert_eq!(e.login_name, "alice");
    assert_eq!(e.flags, u64::MAX);
}

#[test]
fn wrong_field_count_is_corrupt() {
    for line in ["", "alice", "alice:x:1:2:3:4:5:6", "alice:x:1:2:3:4:5:6:7:8"] {
        match ShadowEntry::new(line.to_string()) {
            Err(PasswdError::CorruptEntry(l)) => assert_eq!(l, line),
            _ => panic!("{line:?} should be corrupt"),
        }
    }
}

#[test]
fn numeric_fields_fall_back_to_sentinels() {
    let e = entry("bob:!:abc:-5:+7:99999999999999999999:x1: :18");
    assert_eq!(e.password_field, "!");
    assert_eq!(e.last_change, -1);
    assert_eq!(e.min_days, -5);
    assert_eq!(e.max_days, 7);
    assert_eq!(e.warn_days, -1);
    assert_eq!(e.inactive_days, -1);
    assert_eq!(e.expire_days, -1);
    assert_eq!(e.flags, 18);
}

#[test]
fn numeric_field_limits() {
    let e = entry("c::-9223372036854775808:9223372036854775807:9223372036854775808:-:+:-0:18446744073709551615");
    assert_eq!(e.password_field, "");
    assert_eq!(e.last_change, i64::MIN);
    assert_eq!(e.min_days, i64::MAX);
    assert_eq!(e.max_days, -1);
    assert_eq!(e.warn_days, -1);
    assert_eq!(e.inactive_days, -1);
    assert_eq!(e.expire_days, 0);
    assert_eq!(e.flags, u64::MAX);
    let f = entry("d:x:1:1:1:1:1:1:-1");
    assert_eq!(f.flags, u64::MAX);
    let g = entry("d:x:1:1:1:1:1:1:+42");
    assert_eq!(g.flags, 42);
}

#[test]
fn name_and_password_kept_verbatim() {
    let e = entry("ü ser:$y$j9T$ä/b=:1:2:3:4:5:6:7");
    assert_eq!(e.login_name, "ü ser");
    assert_eq!(e.password_field, "$y$j9T$ä/b=");
    assert_eq!(e.expire_days, 6);
    assert_eq!(e.flags, 7);
}

#[test]
fn store_from_lines_keeps_order() {
    let lines = vec!["root:*:1:0:99999:7:::".to_string(), "alice:$6$abc:18000:0:99999:7:::".to_string()];
    let f = ShadowFile::from_lines(lines).expect("store loads");
    assert!(!f.modified);
    assert_eq!(f.entries.len(), 2);
    assert_eq!(f.entries[0].login_name, "root");
    assert_eq!(f.entries[1].login_name, "alice");
    let empty = ShadowFile::from_lines(Vec::new()).expect("empty store loads");
    assert!(empty.entries.is_empty());
}

#[test]
fn store_reports_first_corrupt_line() {
    let lines = vec![
        "root:*:1:0:99999:7:::".to_string(),
        "broken:line".to_string(),
        "also:broken".to_string(),
    ];
    match ShadowFile::from_lines(lines) {
        Err(e) => assert_eq!(e, PasswdError::CorruptEntry("broken:line".to_string())),
        Ok(_) => panic!("store with a corrupt line loaded"),
    }
}

#[test]
fn lookup_takes_first_match() {
    let lines = vec![
        "alice:first:1::::::".to_string(),
        "bob:x:2::::::".to_string(),
        "alice:second:3::::::".to_string(),
    ];
    let f = ShadowFile::from_lines(lines).unwrap();
    let e = f.find_by_name("alice").expect("alice is there");
    assert_eq!(e.password_field, "first");
    assert_eq!(f.find_by_name("bob").unwrap().last_change, 2);
}

#[test]
fn lookup_of_absent_name_is_none() {
    let f = ShadowFile::from_lines(vec!["alice:x:1::::::".to_string()]).unwrap();
    assert!(f.find_by_name("mallory").is_none());
    assert!(f.find_by_name("alic").is_none());
    assert!(f.find_by_name("alicex").is_none());
    assert!(f.find_by_name("").is_none());
}
