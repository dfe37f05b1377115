use popmgr::runner::{
    append_stream_lines, command_result, merge, push_log, stream_drain, stream_push, trim_log, CmdResult,
    StreamBuf,
};

#[test]
fn merge_is_empty_when_both_streams_are_blank() {
    assert_eq!(merge("  \n".to_string(), "\t".to_string()), "");
}

#[test]
fn merge_keeps_the_only_non_blank_stream() {
    assert_eq!(merge("out\n".to_string(), " ".to_string()), "out\n");
    assert_eq!(merge("".to_string(), "err".to_string()), "err");
}

#[test]
fn merge_puts_standard_output_first() {
    assert_eq!(merge("out".to_string(), "err".to_string()), "out\nerr");
}

#[test]
fn command_result_keeps_the_status() {
    let r = command_result(false, "a".to_string(), "b".to_string());
    assert!(!r.success);
    assert_eq!(r.output, "a\nb");
}

#[test]
fn trim_log_keeps_only_the_last_lines() {
    let mut log = "1\n2\n3\n4\n".to_string();
    trim_log(&mut log, 2);
    assert_eq!(log, "3\n4\n");
}

#[test]
fn trim_log_leaves_a_short_log_alone() {
    let mut log = "1\n2".to_string();
    trim_log(&mut log, 2);
    assert_eq!(log, "1\n2");
}

#[test]
fn push_log_marks_success_and_failure() {
    let mut log = String::new();
    push_log(&mut log, CmdResult { success: true, output: "  done \n".into() });
    push_log(&mut log, CmdResult { success: false, output: "bad".into() });
    assert_eq!(log, "[OK] done\n[ERR] bad\n");
}

#[test]
fn push_log_keeps_three_hundred_lines() {
    let mut log = String::new();
    for i in 0..310 {
        push_log(&mut log, CmdResult { success: true, output: format!("line {i}") });
    }
    assert_eq!(log.lines().count(), 300);
    assert!(log.starts_with("[OK] line 10\n"));
    assert!(log.ends_with("[OK] line 309\n"));
}

#[test]
fn stream_buffer_drains_in_push_order_and_empties() {
    let mut b = StreamBuf::new();
    stream_push(&mut b, "a".to_string());
    stream_push(&mut b, "b".to_string());
    assert_eq!(stream_drain(&mut b), vec!["a".to_string(), "b".to_string()]);
    assert!(stream_drain(&mut b).is_empty());
}

#[test]
fn streamed_lines_are_appended_each_on_its_own_line() {
    let mut log = "x\n".to_string();
    append_stream_lines(&mut log, &vec!["a".to_string(), "b".to_string()]);
    assert_eq!(log, "x\na\nb\n");
    append_stream_lines(&mut log, &vec![]);
    assert_eq!(log, "x\na\nb\n");
}
