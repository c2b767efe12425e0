use hcnetsdk_rust_demo::mainwindow::logalarm::{AlarmEntry, LogAlarmState, LogEntry, MAX_ROWS};

#[test]
fn log_entries_carry_their_fields() {
    let ok = LogEntry::success("Login", "10.0.0.1", "uid=1");
    assert_eq!(ok.interface, "Login");
    assert_eq!(ok.device_ip, "10.0.0.1");
    assert_eq!(ok.info, "uid=1");
    assert!(ok.success);
    assert_eq!(ok.time.len(), 19);
    let bad = LogEntry::failure("Login", "10.0.0.1", "err 7");
    assert!(!bad.success);
    let at = LogEntry::stamped("2024-01-02 03:04:05".into(), "A", "B", "C", true);
    assert_eq!(at.time, "2024-01-02 03:04:05");
}

#[test]
fn alarm_entry_names_the_device() {
    let a = AlarmEntry::from("Motion detect", "192.168.0.5", "Gate");
    assert_eq!(a.device, "192.168.0.5_Gate");
    assert_eq!(a.alarm_type, "Motion detect");
    assert_eq!(a.info, "Motion detect");
    let b = AlarmEntry::stamped("t".into(), "x", "", "");
    assert_eq!(b.device, "_");
    assert_eq!(b.time, "t");
}

#[test]
fn tables_keep_the_newest_rows() {
    let mut st = LogAlarmState::default();
    assert!(!st.show_log);
    for i in 0..(MAX_ROWS + 5) {
        st.add_log(LogEntry::stamped(String::new(), &i.to_string(), "", "", true));
    }
    assert_eq!(st.logs.len(), MAX_ROWS);
    assert_eq!(st.logs[0].interface, "5");
    assert_eq!(st.logs[MAX_ROWS - 1].interface, (MAX_ROWS + 4).to_string());
    for i in 0..3 {
        st.add_alarm(AlarmEntry::stamped(String::new(), &i.to_string(), "", ""));
    }
    assert_eq!(st.alarms.len(), 3);
    assert_eq!(st.logs.len(), MAX_ROWS);
    st.clear_logs();
    assert!(st.logs.is_empty());
    assert_eq!(st.alarms.len(), 3);
    st.clear_alarms();
    assert!(st.alarms.is_empty());
}

#[test]
fn an_overfull_table_is_cut_at_once() {
    let mut st = LogAlarmState::default();
    for i in 0..(MAX_ROWS * 2) {
        st.logs.push(LogEntry::stamped(String::new(), &i.to_string(), "", "", true));
    }
    st.add_log(LogEntry::stamped(String::new(), "last", "", "", false));
    assert_eq!(st.logs.len(), MAX_ROWS);
    assert_eq!(st.logs[MAX_ROWS - 1].interface, "last");
    assert_eq!(st.logs[0].interface, (MAX_ROWS + 1).to_string());
}
