//! The events that the SDK's C callbacks report, decoded into Rust values.
//! The callbacks themselves and the queue that carries the events to the
//! UI thread belong to the application; here stands what an event is and
//! how a callback's arguments decide it.

use vstd::prelude::*;

use crate::sdk::hcnetsdk::{
    ALARM_RECONNECTSUCCESS, COMM_ALARM, COMM_ALARM_V30, EXCEPTION_ALARM, EXCEPTION_ALARMRECONNECT,
    EXCEPTION_AUDIOEXCHANGE, EXCEPTION_EXCHANGE, EXCEPTION_PREVIEW, EXCEPTION_RECONNECT,
    EXCEPTION_SERIAL, EXCEPTION_SERIAL_RECONNECT, EXCEPTION_VOICETALK, EXCEPTION_VOICETALK_RECONNECT,
    PREVIEW_RECONNECTSUCCESS, SERIAL_RECONNECTSUCCESS, VOICETALK_RECONNECTSUCCESS,
};

verus! {

/// One event coming from the SDK, polled by the main thread.
#[derive(Debug, Clone)]
#[allow(inconsistent_fields)]
pub enum SdkEvent {
    Alarm { kind: AlarmKind, device_ip: String, device_name: String },
    Exception { kind: ExceptionKind, device_ip: String },
}

#[derive(Debug, Clone, Copy, PartialEq, Eq, Structural)]
pub enum AlarmKind {
    SignalInput,
    DiskFull,
    SignalLost,
    MotionDetect,
    DiskFormat,
    DiskReadWriteErr,
    NetDisconnect,
    IpConflict,
    IllegalAccess,
    VideoSignalAbnormal,
    RecordAbnormal,
    Unknown(u32),
}

/// The alarm kind that a `dwAlarmType` value stands for.
pub open spec fn alarm_kind_of(t: u32) -> AlarmKind {
    if t == 0 {
        AlarmKind::SignalInput
    } else if t == 1 {
        AlarmKind::DiskFull
    } else if t == 2 {
        AlarmKind::SignalLost
    } else if t == 3 {
        AlarmKind::MotionDetect
    } else if t == 4 {
        AlarmKind::DiskFormat
    } else if t == 5 {
        AlarmKind::DiskReadWriteErr
    } else if t == 6 {
        AlarmKind::NetDisconnect
    } else if t == 7 {
        AlarmKind::IpConflict
    } else if t == 8 {
        AlarmKind::IllegalAccess
    } else if t == 9 {
        AlarmKind::VideoSignalAbnormal
    } else if t == 10 {
        AlarmKind::RecordAbnormal
    } else {
        AlarmKind::Unknown(t)
    }
}

pub open spec fn alarm_label(k: AlarmKind) -> Seq<char> {
    match k {
        AlarmKind::SignalInput => "Signal input alarm"@,
        AlarmKind::DiskFull => "Hard disk full"@,
        AlarmKind::SignalLost => "Signal lost"@,
        AlarmKind::MotionDetect => "Motion detect"@,
        AlarmKind::DiskFormat => "Hard disk format"@,
        AlarmKind::DiskReadWriteErr => "Disk R/W error"@,
        AlarmKind::NetDisconnect => "Network disconnect"@,
        AlarmKind::IpConflict => "IP conflict"@,
        AlarmKind::IllegalAccess => "Illegal access"@,
        AlarmKind::VideoSignalAbnormal => "Video signal abnormal"@,
        AlarmKind::RecordAbnormal => "Record abnormal"@,
        AlarmKind::Unknown(_) => "Unknown alarm"@,
    }
}

impl AlarmKind {
    pub fn from_v30(t: u32) -> (k: Self)
        ensures
            k == alarm_kind_of(t),
    {
        match t {
            0 => AlarmKind::SignalInput,
            1 => AlarmKind::DiskFull,
            2 => AlarmKind::SignalLost,
            3 => AlarmKind::MotionDetect,
            4 => AlarmKind::DiskFormat,
            5 => AlarmKind::DiskReadWriteErr,
            6 => AlarmKind::NetDisconnect,
            7 => AlarmKind::IpConflict,
            8 => AlarmKind::IllegalAccess,
            9 => AlarmKind::VideoSignalAbnormal,
            10 => AlarmKind::RecordAbnormal,
            other => AlarmKind::Unknown(other),
        }
    }

    pub fn label(self) -> (s: &'static str)
        ensures
            s@ == alarm_label(self),
    {
        match self {
            AlarmKind::SignalInput => "Signal input alarm",
            AlarmKind::DiskFull => "Hard disk full",
            AlarmKind::SignalLost => "Signal lost",
            AlarmKind::MotionDetect => "Motion detect",
            AlarmKind::DiskFormat => "Hard disk format",
            AlarmKind::DiskReadWriteErr => "Disk R/W error",
            AlarmKind::NetDisconnect => "Network disconnect",
            AlarmKind::IpConflict => "IP conflict",
            AlarmKind::IllegalAccess => "Illegal access",
            AlarmKind::VideoSignalAbnormal => "Video signal abnormal",
            AlarmKind::RecordAbnormal => "Record abnormal",
            AlarmKind::Unknown(_) => "Unknown alarm",
        }
    }
}

#[derive(Debug, Clone, Copy, PartialEq, Eq, Structural)]
pub enum ExceptionKind {
    Network,
    AudioExchange,
    Alarm,
    AlarmReconnect,
    AlarmReconnectSuccess,
    Serial,
    Preview,
    PreviewReconnect,
    PreviewReconnectSuccess,
    SerialReconnect,
    SerialReconnectSuccess,
    VoiceTalk,
    VoiceTalkReconnect,
    VoiceTalkReconnectSuccess,
    Other(u32),
}

/// The exception kind that an exception code stands for.
pub open spec fn exception_kind_of(c: u32) -> ExceptionKind {
    if c == 0x8000 {
        ExceptionKind::Network
    } else if c == 0x8001 {
        ExceptionKind::AudioExchange
    } else if c == 0x8002 {
        ExceptionKind::Alarm
    } else if c == 0x8003 {
        ExceptionKind::AlarmReconnect
    } else if c == 0x8004 {
        ExceptionKind::AlarmReconnectSuccess
    } else if c == 0x8005 {
        ExceptionKind::Serial
    } else if c == 0x8006 {
        ExceptionKind::Preview
    } else if c == 0x8007 {
        ExceptionKind::PreviewReconnect
    } else if c == 0x8008 {
        ExceptionKind::PreviewReconnectSuccess
    } else if c == 0x8009 {
        ExceptionKind::SerialReconnect
    } else if c == 0x800A {
        ExceptionKind::SerialReconnectSuccess
    } else if c == 0x800B {
        ExceptionKind::VoiceTalk
    } else if c == 0x800C {
        ExceptionKind::VoiceTalkReconnect
    } else if c == 0x800D {
        ExceptionKind::VoiceTalkReconnectSuccess
    } else {
        ExceptionKind::Other(c)
    }
}

pub open spec fn exception_label(k: ExceptionKind) -> Seq<char> {
    match k {
        ExceptionKind::Network => "Network exception"@,
        ExceptionKind::AudioExchange => "Audio exchange exception"@,
        ExceptionKind::Alarm => "Alarm exception"@,
        ExceptionKind::AlarmReconnect => "Alarm reconnecting"@,
        ExceptionKind::AlarmReconnectSuccess => "Alarm reconnect success"@,
        ExceptionKind::Serial => "Serial exception"@,
        ExceptionKind::Preview => "Preview exception"@,
        ExceptionKind::PreviewReconnect => "Preview reconnecting"@,
        ExceptionKind::PreviewReconnectSuccess => "Preview reconnect success"@,
        ExceptionKind::SerialReconnect => "Serial reconnecting"@,
        ExceptionKind::SerialReconnectSuccess => "Serial reconnect success"@,
        ExceptionKind::VoiceTalk => "Voice talk exception"@,
        ExceptionKind::VoiceTalkReconnect => "Voice talk reconnecting"@,
        ExceptionKind::VoiceTalkReconnectSuccess => "Voice talk reconnect success"@,
        ExceptionKind::Other(_) => "Unknown exception"@,
    }
}

impl ExceptionKind {
    pub fn from_code(c: u32) -> (k: Self)
        ensures
            k == exception_kind_of(c),
    {
        match c {
            EXCEPTION_EXCHANGE => ExceptionKind::Network,
            EXCEPTION_AUDIOEXCHANGE => ExceptionKind::AudioExchange,
            EXCEPTION_ALARM => ExceptionKind::Alarm,
            EXCEPTION_ALARMRECONNECT => ExceptionKind::AlarmReconnect,
            ALARM_RECONNECTSUCCESS => ExceptionKind::AlarmReconnectSuccess,
            EXCEPTION_SERIAL => ExceptionKind::Serial,
            EXCEPTION_PREVIEW => ExceptionKind::Preview,
            EXCEPTION_RECONNECT => ExceptionKind::PreviewReconnect,
            PREVIEW_RECONNECTSUCCESS => ExceptionKind::PreviewReconnectSuccess,
            0x8009 => ExceptionKind::SerialReconnect,
            0x800A => ExceptionKind::SerialReconnectSuccess,
            EXCEPTION_VOICETALK => ExceptionKind::VoiceTalk,
            EXCEPTION_VOICETALK_RECONNECT => ExceptionKind::VoiceTalkReconnect,
            VOICETALK_RECONNECTSUCCESS => ExceptionKind::VoiceTalkReconnectSuccess,
            other => ExceptionKind::Other(other),
        }
    }

    pub fn label(self) -> (s: &'static str)
        ensures
            s@ == exception_label(self),
    {
        match self {
            ExceptionKind::Network => "Network exception",
            ExceptionKind::AudioExchange => "Audio exchange exception",
            ExceptionKind::Alarm => "Alarm exception",
            ExceptionKind::AlarmReconnect => "Alarm reconnecting",
            ExceptionKind::AlarmReconnectSuccess => "Alarm reconnect success",
            ExceptionKind::Serial => "Serial exception",
            ExceptionKind::Preview => "Preview exception",
            ExceptionKind::PreviewReconnect => "Preview reconnecting",
            ExceptionKind::PreviewReconnectSuccess => "Preview reconnect success",
            ExceptionKind::SerialReconnect => "Serial reconnecting",
            ExceptionKind::SerialReconnectSuccess => "Serial reconnect success",
            ExceptionKind::VoiceTalk => "Voice talk exception",
            ExceptionKind::VoiceTalkReconnect => "Voice talk reconnecting",
            ExceptionKind::VoiceTalkReconnectSuccess => "Voice talk reconnect success",
            ExceptionKind::Other(_) => "Unknown exception",
        }
    }
}

/// The event that the exception callback reports for an exception code:
/// its kind, with no device address.
pub fn exception_event(code: u32) -> (e: SdkEvent)
    ensures
        (e matches SdkEvent::Exception { kind, device_ip } && kind == exception_kind_of(code)
            && device_ip@.len() == 0),
{
    SdkEvent::Exception { kind: ExceptionKind::from_code(code), device_ip: String::new() }
}

/// Whether a message command is an alarm (old or V30 layout).
pub open spec fn is_alarm_command(command: i32) -> bool {
    command == 0x1100 || command == 0x4000
}

/// Whether a message command reads, as an unsigned code, as an exception
/// (0x8000 or more; a negative command does).
pub open spec fn is_exception_command(command: i32) -> bool {
    command < 0 || command >= 0x8000
}

/// The event that the message callback reports. `alarm_type` is the
/// `dwAlarmType` of the alarm record, `None` when the SDK passed none.
/// An alarm command with a record is an alarm of that type; other commands
/// from 0x8000 up (unsigned) are exceptions; anything else reports nothing.
pub fn message_event(
    command: i32,
    alarm_type: Option<u32>,
    device_ip: String,
    device_name: String,
) -> (e: Option<SdkEvent>)
    ensures
        is_alarm_command(command) ==> match alarm_type {
            None => e is None,
            Some(t) => (e matches Some(SdkEvent::Alarm { kind, device_ip: ip, device_name: name })
                && kind == alarm_kind_of(t) && ip@ == device_ip@ && name@ == device_name@),
        },
        !is_alarm_command(command) && is_exception_command(command) ==> (e matches Some(
            SdkEvent::Exception { kind, device_ip: ip },
        ) && kind == exception_kind_of(command as u32) && ip@ == device_ip@),
        !is_alarm_command(command) && !is_exception_command(command) ==> e is None,
{
    if command == COMM_ALARM || command == COMM_ALARM_V30 {
        match alarm_type {
            None => None,
            Some(t) => Some(
                SdkEvent::Alarm { kind: AlarmKind::from_v30(t), device_ip, device_name },
            ),
        }
    } else if command < 0 || command >= 0x8000 {
        Some(
            SdkEvent::Exception { kind: ExceptionKind::from_code(command as u32), device_ip },
        )
    } else {
        None
    }
}


/// Each `dwAlarmType` code of a V30 alarm names its own alarm, as the SDK
/// numbers them: 0 signal input, 1 hard disk full, 2 signal lost, 3 motion
/// detection, 4 hard disk format, 5 disk read/write error, 6 network
/// disconnect, 7 IP conflict, 8 illegal access, 9 video signal abnormal,
/// 10 record abnormal; any other code is kept as an unknown
/// alarm of that code. No two codes decode alike, and the alarm table
/// shows each code under its own description.
pub proof fn lemma_alarm_codes(t: u32, u: u32)
    ensures
        alarm_kind_of(0) == AlarmKind::SignalInput,
        alarm_kind_of(1) == AlarmKind::DiskFull,
        alarm_kind_of(2) == AlarmKind::SignalLost,
        alarm_kind_of(3) == AlarmKind::MotionDetect,
        alarm_kind_of(4) == AlarmKind::DiskFormat,
        alarm_kind_of(5) == AlarmKind::DiskReadWriteErr,
        alarm_kind_of(6) == AlarmKind::NetDisconnect,
        alarm_kind_of(7) == AlarmKind::IpConflict,
        alarm_kind_of(8) == AlarmKind::IllegalAccess,
        alarm_kind_of(9) == AlarmKind::VideoSignalAbnormal,
        alarm_kind_of(10) == AlarmKind::RecordAbnormal,
        t > 10 ==> alarm_kind_of(t) == AlarmKind::Unknown(t),
        alarm_kind_of(t) == alarm_kind_of(u) ==> t == u,
        alarm_label(alarm_kind_of(0)) == "Signal input alarm"@,
        alarm_label(alarm_kind_of(1)) == "Hard disk full"@,
        alarm_label(alarm_kind_of(2)) == "Signal lost"@,
        alarm_label(alarm_kind_of(3)) == "Motion detect"@,
        alarm_label(alarm_kind_of(4)) == "Hard disk format"@,
        alarm_label(alarm_kind_of(5)) == "Disk R/W error"@,
        alarm_label(alarm_kind_of(6)) == "Network disconnect"@,
        alarm_label(alarm_kind_of(7)) == "IP conflict"@,
        alarm_label(alarm_kind_of(8)) == "Illegal access"@,
        alarm_label(alarm_kind_of(9)) == "Video signal abnormal"@,
        alarm_label(alarm_kind_of(10)) == "Record abnormal"@,
        t > 10 ==> alarm_label(alarm_kind_of(t)) == "Unknown alarm"@,
{
}

/// Each exception code of the SDK's header decodes as the exception that
/// the header names it for, and is shown under its description; no two
/// codes decode alike, and a code that the header does not name is kept as
/// it came.
pub proof fn lemma_exception_codes(c: u32, d: u32)
    ensures
        exception_kind_of(EXCEPTION_EXCHANGE) == ExceptionKind::Network,
        exception_kind_of(EXCEPTION_AUDIOEXCHANGE) == ExceptionKind::AudioExchange,
        exception_kind_of(EXCEPTION_ALARM) == ExceptionKind::Alarm,
        exception_kind_of(EXCEPTION_ALARMRECONNECT) == ExceptionKind::AlarmReconnect,
        exception_kind_of(ALARM_RECONNECTSUCCESS) == ExceptionKind::AlarmReconnectSuccess,
        exception_kind_of(EXCEPTION_SERIAL) == ExceptionKind::Serial,
        exception_kind_of(EXCEPTION_PREVIEW) == ExceptionKind::Preview,
        exception_kind_of(EXCEPTION_RECONNECT) == ExceptionKind::PreviewReconnect,
        exception_kind_of(PREVIEW_RECONNECTSUCCESS) == ExceptionKind::PreviewReconnectSuccess,
        exception_kind_of(EXCEPTION_SERIAL_RECONNECT) == ExceptionKind::SerialReconnect,
        exception_kind_of(SERIAL_RECONNECTSUCCESS) == ExceptionKind::SerialReconnectSuccess,
        exception_kind_of(EXCEPTION_VOICETALK) == ExceptionKind::VoiceTalk,
        exception_kind_of(EXCEPTION_VOICETALK_RECONNECT) == ExceptionKind::VoiceTalkReconnect,
        exception_kind_of(VOICETALK_RECONNECTSUCCESS) == ExceptionKind::VoiceTalkReconnectSuccess,
        !(0x8000 <= c <= 0x800D) ==> exception_kind_of(c) == ExceptionKind::Other(c),
        exception_kind_of(c) == exception_kind_of(d) ==> c == d,
        exception_label(exception_kind_of(EXCEPTION_EXCHANGE)) == "Network exception"@,
        exception_label(exception_kind_of(EXCEPTION_AUDIOEXCHANGE)) == "Audio exchange exception"@,
        exception_label(exception_kind_of(EXCEPTION_ALARM)) == "Alarm exception"@,
        exception_label(exception_kind_of(EXCEPTION_ALARMRECONNECT)) == "Alarm reconnecting"@,
        exception_label(exception_kind_of(ALARM_RECONNECTSUCCESS)) == "Alarm reconnect success"@,
        exception_label(exception_kind_of(EXCEPTION_SERIAL)) == "Serial exception"@,
        exception_label(exception_kind_of(EXCEPTION_PREVIEW)) == "Preview exception"@,
        exception_label(exception_kind_of(EXCEPTION_RECONNECT)) == "Preview reconnecting"@,
        exception_label(exception_kind_of(PREVIEW_RECONNECTSUCCESS)) == "Preview reconnect success"@,
        exception_label(exception_kind_of(EXCEPTION_SERIAL_RECONNECT)) == "Serial reconnecting"@,
        exception_label(exception_kind_of(SERIAL_RECONNECTSUCCESS)) == "Serial reconnect success"@,
        exception_label(exception_kind_of(EXCEPTION_VOICETALK)) == "Voice talk exception"@,
        exception_label(exception_kind_of(EXCEPTION_VOICETALK_RECONNECT))
            == "Voice talk reconnecting"@,
        exception_label(exception_kind_of(VOICETALK_RECONNECTSUCCESS))
            == "Voice talk reconnect success"@,
        !(0x8000 <= c <= 0x800D) ==> exception_label(exception_kind_of(c)) == "Unknown exception"@,
{
}
} // verus!
