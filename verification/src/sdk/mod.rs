//! The SDK-facing part of the demo as plain values: codes, events, the
//! device record that a login returns, the login buffers, the version text
//! and where the SDK's libraries are looked for. The calls into the SDK
//! belong to the application.

pub mod callbacks;
pub mod hcnetsdk;
pub mod loader;

use vstd::prelude::*;

pub use crate::sdk::callbacks::SdkEvent;

use crate::sdk::hcnetsdk::{c_bytes_to_string, sdk_text, until_nul};
use vstd::utf8::{decode_utf8, valid_utf8};
use crate::text::{nat_decimal, push_nat, trim};
use vstd::string::StringSliceAdditionalSpecFns;

verus! {

broadcast use vstd::string::group_string_axioms;

/// What a login tells of a device.
#[derive(Debug, Clone)]
pub struct DeviceInfo {
    pub serial: String,
    pub by_chan_num: u8,
    pub by_ip_chan_num: u8,
    pub by_start_chan: u8,
    pub by_zero_chan_num: u8,
}

impl DeviceInfo {
    /// The record of a login's `NET_DVR_DEVICEINFO_V40`, from its serial
    /// number buffer and channel counts.
    pub fn from_fields(
        serial_number: &[u8],
        chan_num: u8,
        ip_chan_num: u8,
        start_chan: u8,
        zero_chan_num: u8,
    ) -> (d: Self)
        requires
            3 * serial_number@.len() + 1 <= isize::MAX,
        ensures
            d.serial@ == trim(sdk_text(until_nul(serial_number@))),
            valid_utf8(until_nul(serial_number@)) ==> d.serial@ == trim(
                decode_utf8(until_nul(serial_number@)),
            ),
            d.by_chan_num == chan_num,
            d.by_ip_chan_num == ip_chan_num,
            d.by_start_chan == start_chan,
            d.by_zero_chan_num == zero_chan_num,
    {
        DeviceInfo {
            serial: c_bytes_to_string(serial_number),
            by_chan_num: chan_num,
            by_ip_chan_num: ip_chan_num,
            by_start_chan: start_chan,
            by_zero_chan_num: zero_chan_num,
        }
    }
}

/// The bytes of `s` that fit a NUL-terminated C buffer of `capacity`
/// bytes: at most `capacity - 1` of them, the rest cut.
pub open spec fn c_field(s: Seq<u8>, capacity: nat) -> Seq<u8> {
    if s.len() < capacity {
        s
    } else {
        s.take(capacity - 1)
    }
}

/// The bytes that a login copies into a zeroed buffer of `capacity` bytes
/// (address, user name, password): the text's UTF-8 bytes, cut to leave
/// room for the final NUL.
pub fn login_field_bytes(text: &str, capacity: usize) -> (b: Vec<u8>)
    requires
        capacity >= 1,
    ensures
        b@ == c_field(text.spec_bytes(), capacity as nat),
{
    let bytes = text.as_bytes();
    let n = if bytes.len() < capacity {
        bytes.len()
    } else {
        capacity - 1
    };
    let head = vstd::slice::slice_subrange(bytes, 0, n);
    let v = vstd::slice::slice_to_vec(head);
    assert(v@ =~= c_field(text.spec_bytes(), capacity as nat));
    v
}

/// The message of a refused login, with the SDK's last error code.
pub open spec fn login_error(code: u32) -> Seq<char> {
    "Login failed: error code "@ + nat_decimal(code as nat)
}

/// What a login comes to, from the user id that `NET_DVR_Login_V40`
/// returned and the SDK's last error code: a negative id is a refusal,
/// with its message; otherwise the session, and whether the device's
/// secret key has to be handed to the SDK (only a key that is set).
pub fn login_outcome(user_id: i32, error_code: u32, secret_key: &str) -> (r: Result<(i32, bool), String>)
    ensures
        user_id < 0 ==> (r matches Err(e) && e@ == login_error(error_code)),
        user_id >= 0 ==> r == Ok::<(i32, bool), String>((user_id, secret_key@.len() > 0)),
{
    if user_id < 0 {
        let mut e = "Login failed: error code ".to_owned();
        push_nat(&mut e, error_code);
        return Err(e);
    }
    Ok((user_id, !secret_key.is_empty()))
}

/// The version text of a `NET_DVR_GetSDKBuildVersion` value: its four
/// bytes, high to low, as `HCNetSDK Va.b.c.d`.
pub open spec fn sdk_version_of(v: u32) -> Seq<char> {
    "HCNetSDK V"@ + nat_decimal((v / 0x100_0000 % 0x100) as nat) + "."@ + nat_decimal(
        (v / 0x1_0000 % 0x100) as nat,
    ) + "."@ + nat_decimal((v / 0x100 % 0x100) as nat) + "."@ + nat_decimal((v % 0x100) as nat)
}

pub fn sdk_version_text(v: u32) -> (s: String)
    ensures
        s@ == sdk_version_of(v),
{
    let b3 = (v >> 24) & 0xff;
    let b2 = (v >> 16) & 0xff;
    let b1 = (v >> 8) & 0xff;
    let b0 = v & 0xff;
    assert(b3 == v / 0x100_0000 % 0x100) by (bit_vector)
        requires
            b3 == (v >> 24) & 0xff,
    ;
    assert(b2 == v / 0x1_0000 % 0x100) by (bit_vector)
        requires
            b2 == (v >> 16) & 0xff,
    ;
    assert(b1 == v / 0x100 % 0x100) by (bit_vector)
        requires
            b1 == (v >> 8) & 0xff,
    ;
    assert(b0 == v % 0x100) by (bit_vector)
        requires
            b0 == v & 0xff,
    ;
    let mut s = "HCNetSDK V".to_owned();
    push_nat(&mut s, b3);
    s.append(".");
    push_nat(&mut s, b2);
    s.append(".");
    push_nat(&mut s, b1);
    s.append(".");
    push_nat(&mut s, b0);
    s
}

/// The directory to which the SDK writes its logs (relative to the working
/// directory).
pub fn sdk_log_dir() -> (d: &'static str)
    ensures
        d@ == "sdkLog"@,
{
    "sdkLog"
}

} // verus!
