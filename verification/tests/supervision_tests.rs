use convenient_window::supervision::{
    last_nonempty_line, log_start, log_tail, start_failure, start_step, stop_step, text_lines,
    StartFailure, StartStep, StopStep,
};

#[test]
fn text_lines_split_like_std_lines() {
    for text in [
        "",
        "one",
        "one\n",
        "one\r\ntwo\n\nthree\r",
        "\n\n",
        "a\rb\n",
        "trailing\r\n",
        "  \n  x  \n",
    ] {
        let expected: Vec<String> = text.lines().map(str::to_string).collect();
        assert_eq!(text_lines(text), expected, "{text:?}");
    }
}

#[test]
fn log_tail_keeps_the_last_lines() {
    let log = "first\nsecond\r\nthird\nfourth\n";
    assert_eq!(log_tail(log, 2), vec!["third", "fourth"]);
    assert_eq!(log_tail(log, 10), vec!["first", "second", "third", "fourth"]);
    assert!(log_tail(log, 0).is_empty());
    assert!(log_tail("", 5).is_empty());
}

#[test]
fn last_nonempty_line_skips_blank_lines() {
    assert_eq!(last_nonempty_line("start\nfailed: port in use\n  \n\n"), Some("failed: port in use".to_string()));
    assert_eq!(last_nonempty_line(" \n\t\n"), None);
    assert_eq!(last_nonempty_line(""), None);
}

#[test]
fn an_instance_conflict_is_told_apart_from_an_early_exit() {
    assert_eq!(
        start_failure("booting\nHELPER_INSTANCE_CONFLICT: port held\n"),
        StartFailure::InstanceConflict
    );
    assert_eq!(
        start_failure("booting\nconfig broken\n"),
        StartFailure::Exited(Some("config broken".to_string()))
    );
    assert_eq!(start_failure(""), StartFailure::Exited(None));
}

#[test]
fn log_reading_restarts_when_the_log_was_replaced() {
    assert_eq!(log_start(100, 40), 40);
    assert_eq!(log_start(40, 40), 40);
    assert_eq!(log_start(10, 40), 0);
}

#[test]
fn start_checks_exit_then_answer_then_deadline() {
    assert_eq!(start_step(true, true, 0, 100), StartStep::Exited);
    assert_eq!(start_step(false, true, 500, 100), StartStep::Ready);
    assert_eq!(start_step(false, false, 100, 100), StartStep::TimedOut);
    assert_eq!(start_step(false, false, 99, 100), StartStep::Wait);
}

#[test]
fn stop_kills_after_the_deadline_and_reports_graceful_exits() {
    assert_eq!(stop_step(true, true, 10, 100), StopStep::Stopped { graceful: true });
    assert_eq!(stop_step(true, false, 10, 100), StopStep::Stopped { graceful: false });
    assert_eq!(stop_step(false, true, 10, 100), StopStep::Wait);
    assert_eq!(stop_step(true, true, 100, 100), StopStep::Kill);
}
