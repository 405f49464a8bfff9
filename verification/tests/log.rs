use atom_board::action_log::ActionLog;

#[test]
fn new_log_is_empty() {
    let log = ActionLog::default();
    assert_eq!(log.Length(), 0);
    assert_eq!(log.Line(0), None);
}

#[test]
fn log_keeps_lines_in_order() {
    let mut log = ActionLog::default();
    log.PushAction(String::from("first"), false);
    log.PushAction(String::from("second"), true);
    assert_eq!(log.Length(), 2);
    assert_eq!(log.Line(0), Some((String::from("first"), false)));
    assert_eq!(log.Line(1), Some((String::from("second"), true)));
    assert_eq!(log.Line(2), None);
}

#[test]
fn log_keeps_the_last_five_lines() {
    let mut log = ActionLog::default();
    for i in 0..7 {
        log.PushAction(format!("line {}", i), i % 2 == 0);
        assert_eq!(log.Length(), if i < 5 { i + 1 } else { 5 });
    }
    assert_eq!(log.Line(0), Some((String::from("line 2"), true)));
    assert_eq!(log.Line(1), Some((String::from("line 3"), false)));
    assert_eq!(log.Line(4), Some((String::from("line 6"), true)));
    assert_eq!(log.Line(5), None);
}
