//! The log and alarm tables at the bottom of the main window: one list of
//! SDK interface calls and one of device alarms, each kept to its newest
//! `MAX_ROWS` rows so the view stays quick.

use vstd::prelude::*;

verus! {

broadcast use vstd::string::group_string_axioms;

/// How many rows each table keeps.
pub const MAX_ROWS: usize = 1024;

/// The local wall-clock time now, as chrono's `Local::now()` gives it,
/// formatted as `%Y-%m-%d %H:%M:%S`. It depends on the clock and the time
/// zone, so nothing is stated of the text.
#[verifier::external_body]
fn local_timestamp() -> (t: String) {
    chrono::Local::now().format("%Y-%m-%d %H:%M:%S").to_string()
}

/// One row of the log table: an SDK interface call and how it went.
#[derive(Debug, Clone)]
pub struct LogEntry {
    pub time: String,
    pub interface: String,
    pub device_ip: String,
    pub info: String,
    pub success: bool,
}

impl LogEntry {
    /// A row with the given time stamp.
    pub fn stamped(time: String, interface: &str, device_ip: &str, info: &str, success: bool) -> (e:
        Self)
        ensures
            e.time@ == time@,
            e.interface@ == interface@,
            e.device_ip@ == device_ip@,
            e.info@ == info@,
            e.success == success,
    {
        LogEntry {
            time,
            interface: interface.to_owned(),
            device_ip: device_ip.to_owned(),
            info: info.to_owned(),
            success,
        }
    }

    /// A row for a call that succeeded, stamped with the local time now.
    pub fn success(interface: &str, device_ip: &str, info: &str) -> (e: Self)
        ensures
            e.interface@ == interface@,
            e.device_ip@ == device_ip@,
            e.info@ == info@,
            e.success,
    {
        LogEntry::stamped(local_timestamp(), interface, device_ip, info, true)
    }

    /// A row for a call that failed, stamped with the local time now.
    pub fn failure(interface: &str, device_ip: &str, info: &str) -> (e: Self)
        ensures
            e.interface@ == interface@,
            e.device_ip@ == device_ip@,
            e.info@ == info@,
            !e.success,
    {
        LogEntry::stamped(local_timestamp(), interface, device_ip, info, false)
    }
}

/// One row of the alarm table.
#[derive(Debug, Clone)]
pub struct AlarmEntry {
    pub time: String,
    pub alarm_type: String,
    pub device: String,
    pub info: String,
}

/// How a device is named in the alarm table: its ip, `_`, its name.
pub open spec fn alarm_device(device_ip: Seq<char>, device_name: Seq<char>) -> Seq<char> {
    device_ip + "_"@ + device_name
}

impl AlarmEntry {
    /// A row with the given time stamp.
    pub fn stamped(time: String, alarm_type: &str, device_ip: &str, device_name: &str) -> (e: Self)
        ensures
            e.time@ == time@,
            e.alarm_type@ == alarm_type@,
            e.device@ == alarm_device(device_ip@, device_name@),
            e.info@ == alarm_type@,
    {
        let mut device = device_ip.to_owned();
        device.append("_");
        device.append(device_name);
        AlarmEntry { time, alarm_type: alarm_type.to_owned(), device, info: alarm_type.to_owned() }
    }

    /// A row for an alarm, stamped with the local time now.
    pub fn from(alarm_type: &str, device_ip: &str, device_name: &str) -> (e: Self)
        ensures
            e.alarm_type@ == alarm_type@,
            e.device@ == alarm_device(device_ip@, device_name@),
            e.info@ == alarm_type@,
    {
        AlarmEntry::stamped(local_timestamp(), alarm_type, device_ip, device_name)
    }
}

/// The newest `MAX_ROWS` rows of `rows`, oldest first.
pub open spec fn capped<T>(rows: Seq<T>) -> Seq<T> {
    if rows.len() > MAX_ROWS {
        rows.subrange(rows.len() - MAX_ROWS, rows.len() as int)
    } else {
        rows
    }
}

/// The log and alarm tables.
pub struct LogAlarmState {
    pub logs: Vec<LogEntry>,
    pub alarms: Vec<AlarmEntry>,
    pub show_log: bool,
}

impl Default for LogAlarmState {
    fn default() -> (s: Self)
        ensures
            s.logs@.len() == 0,
            s.alarms@.len() == 0,
            !s.show_log,
    {
        LogAlarmState { logs: Vec::new(), alarms: Vec::new(), show_log: false }
    }
}

/// Keeps the newest `MAX_ROWS` rows of `rows`.
fn cap_rows<T>(rows: &mut Vec<T>)
    ensures
        final(rows)@ == capped(old(rows)@),
{
    if rows.len() > MAX_ROWS {
        let drop = rows.len() - MAX_ROWS;
        let kept = rows.split_off(drop);
        *rows = kept;
    }
}

impl LogAlarmState {
    /// Appends a log row, dropping the oldest ones past `MAX_ROWS`.
    pub fn add_log(&mut self, entry: LogEntry)
        ensures
            final(self).logs@ == capped(old(self).logs@.push(entry)),
            final(self).alarms@ == old(self).alarms@,
            final(self).show_log == old(self).show_log,
    {
        self.logs.push(entry);
        cap_rows(&mut self.logs);
    }

    /// Appends an alarm row, dropping the oldest ones past `MAX_ROWS`.
    pub fn add_alarm(&mut self, entry: AlarmEntry)
        ensures
            final(self).alarms@ == capped(old(self).alarms@.push(entry)),
            final(self).logs@ == old(self).logs@,
            final(self).show_log == old(self).show_log,
    {
        self.alarms.push(entry);
        cap_rows(&mut self.alarms);
    }

    pub fn clear_logs(&mut self)
        ensures
            final(self).logs@.len() == 0,
            final(self).alarms@ == old(self).alarms@,
            final(self).show_log == old(self).show_log,
    {
        self.logs.clear();
    }

    pub fn clear_alarms(&mut self)
        ensures
            final(self).alarms@.len() == 0,
            final(self).logs@ == old(self).logs@,
            final(self).show_log == old(self).show_log,
    {
        self.alarms.clear();
    }
}


/// A table keeps at most `MAX_ROWS` rows, the newest ones in their order:
/// what it keeps ends the list, and a list that fits stays whole.
pub proof fn lemma_capped<T>(rows: Seq<T>)
    ensures
        capped(rows).len() <= MAX_ROWS,
        capped(rows).len() == if rows.len() > MAX_ROWS {
            MAX_ROWS as int
        } else {
            rows.len() as int
        },
        capped(rows) == rows.subrange(rows.len() - capped(rows).len(), rows.len() as int),
{
    if rows.len() <= MAX_ROWS {
        assert(rows.subrange(0, rows.len() as int) =~= rows);
    }
}

/// After adding a row, the table ends with it and keeps at most `MAX_ROWS`
/// rows, if it kept at most that many before; none of the rows before it
/// is lost until the table is full.
pub proof fn lemma_add_keeps_newest<T>(rows: Seq<T>, entry: T)
    requires
        rows.len() <= MAX_ROWS,
    ensures
        capped(rows.push(entry)).len() <= MAX_ROWS,
        capped(rows.push(entry)).last() == entry,
        rows.len() < MAX_ROWS ==> capped(rows.push(entry)) == rows.push(entry),
        rows.len() == MAX_ROWS ==> capped(rows.push(entry)) == rows.drop_first().push(entry),
{
    lemma_capped(rows.push(entry));
    if rows.len() == MAX_ROWS {
        assert(rows.push(entry).subrange(1, rows.len() as int + 1) =~= rows.drop_first().push(entry));
    }
}

} // verus!
