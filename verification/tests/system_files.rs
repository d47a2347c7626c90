//! Classification of captured command output, string comparison, and
//! file-open mode letters.

use tokenkit::files::open_flags;
use tokenkit::str_utils::str_eq;
use tokenkit::system::SystemResult;

#[test]
fn quiet_stderr_is_success() {
    let r = SystemResult::from_captured("hello\n", "").unwrap();
    assert_eq!(r.stdout, "hello");
    assert_eq!(r.stderr, "");
}

#[test]
fn newline_only_stderr_is_success() {
    let r = SystemResult::from_captured("ok\n", "\n").unwrap();
    assert_eq!(r.stdout, "ok");
    assert_eq!(r.stderr, "");
}

#[test]
fn noisy_stderr_is_failure() {
    let r = SystemResult::from_captured("partial\n", "oops\n").unwrap_err();
    assert_eq!(r.stdout, "partial");
    assert_eq!(r.stderr, "oops");
}

#[test]
fn empty_streams_stay_empty() {
    let r = SystemResult::from_captured("", "").unwrap();
    assert_eq!(r.stdout, "");
    assert_eq!(r.stderr, "");
}

#[test]
fn from_error_message() {
    let r = SystemResult::from(String::from("boom"));
    assert_eq!(r.stdout, "");
    assert_eq!(r.stderr, "Failed to excute process: boom");
}

#[test]
fn str_eq_compares_characters() {
    assert!(str_eq("", ""));
    assert!(str_eq("abc", "abc"));
    assert!(!str_eq("abc", "abd"));
    assert!(!str_eq("abc", "ab"));
}

#[test]
fn open_flags_letters() {
    let f = open_flags("rwca");
    assert!(f.read && f.write && f.create && f.append);
    let f = open_flags("r");
    assert!(f.read && !f.write && !f.create && !f.append);
    let f = open_flags("wc");
    assert!(!f.read && f.write && f.create && !f.append);
    let f = open_flags("");
    assert!(!f.read && !f.write && !f.create && !f.append);
    let f = open_flags("xyz");
    assert!(!f.read && !f.write && !f.create && !f.append);
}
