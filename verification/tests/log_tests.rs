use op_loader::command_log::{CommandLog, CommandStatus, MAX_LOG_ENTRIES};

#[test]
fn success_entry_displays_command_and_count() {
    let mut log = CommandLog::new();
    log.log_success("op vault list".to_string(), Some(3));
    assert_eq!(log.entries[0].display(), "\u{2713} op vault list (3 items)");
}

#[test]
fn success_entry_without_count_displays_command_alone() {
    let mut log = CommandLog::new();
    log.log_success("Vars copied".to_string(), None);
    assert_eq!(log.entries[0].display(), "\u{2713} Vars copied");
}

#[test]
fn failure_entry_displays_first_diagnostic_line() {
    let mut log = CommandLog::new();
    log.log_failure(
        "op item list".to_string(),
        "authorization expired\nrun signin again\n".to_string(),
    );
    assert_eq!(
        log.entries[0].display(),
        "\u{2717} op item list: authorization expired"
    );
}

#[test]
fn failure_display_handles_crlf_diagnostics() {
    let mut log = CommandLog::new();
    log.log_failure("cmd".to_string(), "first\r\nsecond".to_string());
    assert_eq!(log.entries[0].display(), "\u{2717} cmd: first");
}

#[test]
fn log_is_bounded() {
    let mut log = CommandLog::new();
    for i in 0..(MAX_LOG_ENTRIES + 7) {
        log.log_success(format!("cmd {i}"), None);
    }
    assert_eq!(log.entries.len(), MAX_LOG_ENTRIES);
    // the oldest entries were dropped
    assert_eq!(log.entries[0].command, "cmd 7");
}

#[test]
fn recent_returns_newest_entries_oldest_first() {
    let mut log = CommandLog::new();
    for i in 0..5 {
        log.log_success(format!("cmd {i}"), None);
    }
    let recent = log.recent(2);
    assert_eq!(recent.len(), 2);
    assert_eq!(recent[0].command, "cmd 3");
    assert_eq!(recent[1].command, "cmd 4");

    let all = log.recent(100);
    assert_eq!(all.len(), 5);
}

#[test]
fn statuses_carry_their_payload() {
    let mut log = CommandLog::new();
    log.log_failure("cmd".to_string(), "stderr text".to_string());
    match &log.entries[0].status {
        CommandStatus::Failed { stderr } => assert_eq!(stderr, "stderr text"),
        _ => panic!("expected a failure entry"),
    }
}
