//! The HCNetSDK's numeric codes and C-string fields as plain Rust values.
//! The C declarations themselves (structs and functions) live with the
//! application that links the SDK.

use vstd::prelude::*;

use crate::text::{trim, trim_str};
use vstd::utf8::{decode_utf8, valid_utf8};

verus! {

pub const BOOL_TRUE: i32 = 1;
pub const BOOL_FALSE: i32 = 0;
pub const NET_DVR_NOERROR: i32 = 0;

// Return values
pub const NET_DVR_USERID_INVALID: i32 = -1;
pub const NET_DVR_CHANNEL_ERROR: i32 = 4;
pub const NET_DVR_NETWORK_FAIL_CONNECT: i32 = 7;
pub const NET_DVR_LOGIN_ERROR_PASSWORD: i32 = 1;
pub const NET_DVR_PASSWORD_FORMAT_ERROR: i32 = 26;
pub const NET_DVR_ERROR_DEVICE_NOT_ACTIVATED: i32 = 250;

// Alarm / exception command codes
pub const COMM_ALARM: i32 = 0x1100;
pub const COMM_ALARM_V30: i32 = 0x4000;
pub const COMM_TRADEINFO: i32 = 0x1500;
pub const COMM_IPCCFG: i32 = 0x4002;

pub const EXCEPTION_EXCHANGE: u32 = 0x8000;
pub const EXCEPTION_AUDIOEXCHANGE: u32 = 0x8001;
pub const EXCEPTION_ALARM: u32 = 0x8002;
pub const EXCEPTION_ALARMRECONNECT: u32 = 0x8003;
pub const ALARM_RECONNECTSUCCESS: u32 = 0x8004;
pub const EXCEPTION_SERIAL: u32 = 0x8005;
pub const EXCEPTION_PREVIEW: u32 = 0x8006;
pub const EXCEPTION_RECONNECT: u32 = 0x8007;
pub const PREVIEW_RECONNECTSUCCESS: u32 = 0x8008;
pub const EXCEPTION_SERIAL_RECONNECT: u32 = 0x8009;
pub const SERIAL_RECONNECTSUCCESS: u32 = 0x800A;
pub const EXCEPTION_VOICETALK: u32 = 0x800B;
pub const EXCEPTION_VOICETALK_RECONNECT: u32 = 0x800C;
pub const VOICETALK_RECONNECTSUCCESS: u32 = 0x800D;

// String length constants
pub const NAME_LEN: usize = 32;
pub const SERIALNO_LEN: usize = 48;
pub const MACADDR_LEN: usize = 6;
pub const NET_DVR_DEV_ADDRESS_MAX_LEN: usize = 129;
pub const NET_DVR_LOGIN_USERNAME_MAX_LEN: usize = 64;
pub const NET_DVR_LOGIN_PASSWD_MAX_LEN: usize = 64;
pub const NET_DVR_SECRET_KEY_LEN: usize = 128;

// PlayCtrl frame types and stream modes
pub const T_YV12: i32 = 3;
pub const T_UYVY: i32 = 1;
pub const T_RGB32: i32 = 7;
pub const T_AUDIO16: i32 = 101;
pub const T_AUDIO8: i32 = 100;
pub const STREAME_REALTIME: u32 = 0;
pub const STREAME_FILE: u32 = 1;

// PlayCtrl error codes
pub const PLAYM4_NOERROR: i32 = 0;
pub const PLAYM4_DEC_VIDEO_ERROR: i32 = 4;
pub const PLAYM4_DEC_AUDIO_ERROR: i32 = 5;
pub const PLAYM4_ALLOC_MEMORY_ERROR: i32 = 6;

/// std's `str::from_utf8`, made owned: as its documentation says, the
/// text when the bytes are well-formed UTF-8, and an error (here `None`)
/// otherwise.
#[verifier::external_body]
fn utf8_text(bytes: &[u8]) -> (r: Option<String>)
    ensures
        r is Some <==> valid_utf8(bytes@),
        r matches Some(s) ==> s@ == decode_utf8(bytes@),
{
    match std::str::from_utf8(bytes) {
        Ok(s) => Some(s.to_owned()),
        Err(_) => None,
    }
}

/// std's `String::push`: appends one character.
#[verifier::external_body]
fn push_char(s: &mut String, c: char)
    ensures
        final(s)@ == old(s)@.push(c),
{
    s.push(c)
}

/// The Latin-1 reading of a byte string: each byte is the character with
/// that code (U+0000 to U+00FF).
pub open spec fn latin1(bytes: Seq<u8>) -> Seq<char> {
    bytes.map_values(|b: u8| b as char)
}

/// What GB18030 decoding makes of a byte string: its text, or `None` where
/// it holds a malformed sequence.
pub uninterp spec fn gb18030_text(bytes: Seq<u8>) -> Option<Seq<char>>;

/// encoding_rs's `GB18030.decode_without_bom_handling_and_without_replacement`,
/// made owned: the GB18030 (WHATWG) decoding of the whole input, with a
/// malformed sequence fatal. Its result is named `gb18030_text`; the
/// decoding tables are left to the name. The input is bounded because the
/// decoder reserves up to three bytes of output per input byte and panics
/// when that size overflows.
#[verifier::external_body]
fn decode_gb18030(bytes: &[u8]) -> (r: Option<String>)
    requires
        3 * bytes@.len() + 1 <= isize::MAX,
    ensures
        gb18030_text(bytes@) == match r {
            Some(t) => Some(t@),
            None => None::<Seq<char>>,
        },
{
    match encoding_rs::GB18030.decode_without_bom_handling_and_without_replacement(bytes) {
        Some(text) => Some(text.into_owned()),
        None => None,
    }
}

/// How the SDK's text fields are read, given what GB18030 decoding made of
/// the bytes: as UTF-8 where they are well-formed UTF-8 (plain ASCII among
/// them), else as GB18030 where that decoding succeeded, else byte by byte
/// as Latin-1.
pub open spec fn sdk_text_with(bytes: Seq<u8>, gb18030: Option<Seq<char>>) -> Seq<char> {
    if valid_utf8(bytes) {
        decode_utf8(bytes)
    } else {
        match gb18030 {
            Some(t) => t,
            None => latin1(bytes),
        }
    }
}

/// How the SDK's text fields are read (see `sdk_text_with`).
pub open spec fn sdk_text(bytes: Seq<u8>) -> Seq<char> {
    sdk_text_with(bytes, gb18030_text(bytes))
}

/// The view of a decoding's result.
pub open spec fn text_view(t: Option<String>) -> Option<Seq<char>> {
    match t {
        Some(s) => Some(s@),
        None => None,
    }
}

/// The trimmed text of the bytes of a C string, given what GB18030
/// decoding made of them (see `sdk_text_with`).
pub fn c_text_from(bytes: &[u8], gb18030: Option<String>) -> (s: String)
    ensures
        s@ == trim(sdk_text_with(bytes@, text_view(gb18030))),
{
    let decoded = match utf8_text(bytes) {
        Some(t) => t,
        None => match gb18030 {
            Some(t) => t,
            None => latin1_text(bytes),
        },
    };
    trim_str(decoded.as_str())
}

/// The Latin-1 text of `bytes`.
fn latin1_text(bytes: &[u8]) -> (s: String)
    ensures
        s@ == latin1(bytes@),
{
    let mut s = String::new();
    let mut i: usize = 0;
    while i < bytes.len()
        invariant
            0 <= i <= bytes@.len(),
            s@ == latin1(bytes@.take(i as int)),
        decreases bytes@.len() - i,
    {
        let b: u8 = bytes[i];
        push_char(&mut s, b as char);
        assert(latin1(bytes@.take(i + 1)) =~= latin1(bytes@.take(i as int)).push(b as char));
        i = i + 1;
    }
    assert(bytes@.take(bytes@.len() as int) =~= bytes@);
    s
}

/// The bytes of a C string held in a fixed-size buffer: those before the
/// first NUL, or all of them when there is none.
pub open spec fn until_nul(buf: Seq<u8>) -> Seq<u8>
    decreases buf.len(),
{
    if buf.len() == 0 {
        buf
    } else if buf[0] == 0 {
        Seq::empty()
    } else {
        seq![buf[0]] + until_nul(buf.drop_first())
    }
}

proof fn lemma_until_nul_at(buf: Seq<u8>, i: int)
    requires
        0 <= i <= buf.len(),
        forall|j: int| 0 <= j < i ==> #[trigger] buf[j] != 0,
        i == buf.len() || buf[i] == 0,
    ensures
        until_nul(buf) == buf.take(i),
    decreases i,
{
    if i > 0 {
        let t = buf.drop_first();
        assert forall|j: int| 0 <= j < i - 1 implies #[trigger] t[j] != 0 by {
            assert(t[j] == buf[j + 1]);
        }
        if i < buf.len() {
            assert(t[i - 1] == buf[i]);
        }
        assert(buf[0] != 0);
        lemma_until_nul_at(t, i - 1);
        assert(seq![buf[0]] + t.take(i - 1) =~= buf.take(i));
    } else {
        assert(buf.take(0) =~= Seq::<u8>::empty());
    }
}

/// Whatever follows the first NUL of a C string buffer is ignored.
pub proof fn lemma_after_nul_ignored(text: Seq<u8>, rest: Seq<u8>)
    requires
        forall|j: int| 0 <= j < text.len() ==> #[trigger] text[j] != 0,
    ensures
        until_nul(text + seq![0u8] + rest) == text,
        until_nul(text) == text,
{
    let b = text + seq![0u8] + rest;
    assert forall|j: int| 0 <= j < text.len() implies #[trigger] b[j] != 0 by {
        assert(b[j] == text[j]);
    }
    assert(b[text.len() as int] == 0);
    lemma_until_nul_at(b, text.len() as int);
    assert(b.take(text.len() as int) =~= text);
    lemma_until_nul_at(text, text.len() as int);
    assert(text.take(text.len() as int) =~= text);
}

/// The text of a NUL-terminated byte string held in a C `BYTE` array:
/// the bytes before the first NUL, read as UTF-8, else as GB18030, else as
/// Latin-1 (the SDK stores mixed Chinese and ASCII text in some fields),
/// then trimmed.
pub fn c_bytes_to_string(buf: &[u8]) -> (s: String)
    requires
        3 * buf@.len() + 1 <= isize::MAX,
    ensures
        s@ == trim(sdk_text(until_nul(buf@))),
        valid_utf8(until_nul(buf@)) ==> s@ == trim(decode_utf8(until_nul(buf@))),
{
    let mut len: usize = 0;
    while len < buf.len() && buf[len] != 0
        invariant
            0 <= len <= buf@.len(),
            forall|j: int| 0 <= j < len ==> #[trigger] buf@[j] != 0,
        decreases buf@.len() - len,
    {
        len = len + 1;
    }
    proof {
        lemma_until_nul_at(buf@, len as int);
    }
    let head = vstd::slice::slice_subrange(buf, 0, len);
    assert(head@ =~= buf@.take(len as int));
    let gb = decode_gb18030(head);
    c_text_from(head, gb)
}

} // verus!
