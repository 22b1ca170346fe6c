use dumpcode::clipboard::{after_attempt, ClipboardStep, MAX_ATTEMPTS, RETRY_DELAY_MS};
use dumpcode::config::{parse_extensions, parse_names, DEFAULT_MAX_FILES, DEFAULT_MAX_SIZE_KB};
use dumpcode::walk::{root_name, ScanConfig};

#[test]
fn extensions_are_trimmed_and_lowered() {
    assert_eq!(parse_extensions(" RS , Py,md"), vec!["rs".to_string(), "py".to_string(), "md".to_string()]);
}

#[test]
fn names_are_trimmed_not_lowered() {
    assert_eq!(parse_names("Target , .git"), vec!["Target".to_string(), ".git".to_string()]);
}

#[test]
fn empty_pieces_are_kept() {
    assert_eq!(parse_names(""), vec!["".to_string()]);
    assert_eq!(parse_names("a,,b,"), vec!["a".to_string(), "".to_string(), "b".to_string(), "".to_string()]);
}

#[test]
fn defaults() {
    let c = ScanConfig::with_defaults();
    assert_eq!(c.max_size_kb, 100);
    assert_eq!(c.max_files, 1000);
    assert_eq!(DEFAULT_MAX_SIZE_KB, 100);
    assert_eq!(DEFAULT_MAX_FILES, 1000);
    assert!(c.extensions.contains(&"rs".to_string()));
    assert!(c.extensions.contains(&"bat".to_string()));
    assert_eq!(c.extensions.len(), 63);
    assert!(c.exclude_dirs.contains(&"node_modules".to_string()));
    assert!(c.exclude_dirs.contains(&".ipynb_checkpoints".to_string()));
}

#[test]
fn root_names() {
    assert_eq!(root_name("/home/me/proj"), "proj");
    assert_eq!(root_name("proj/"), "proj");
    assert_eq!(root_name("."), ".");
    assert_eq!(root_name("/"), "/");
}

#[test]
fn clipboard_retries() {
    assert_eq!(MAX_ATTEMPTS, 3);
    assert_eq!(after_attempt(0, true), ClipboardStep::Done);
    assert_eq!(after_attempt(0, false), ClipboardStep::RetryAfter(RETRY_DELAY_MS));
    assert_eq!(after_attempt(1, false), ClipboardStep::RetryAfter(50));
    assert_eq!(after_attempt(2, false), ClipboardStep::Fail);
    assert_eq!(after_attempt(2, true), ClipboardStep::Done);
}

#[test]
fn unicode_white_space_is_trimmed() {
    assert_eq!(parse_extensions("\u{a0}RS\u{3000},\tpy\n"), vec!["rs".to_string(), "py".to_string()]);
}
