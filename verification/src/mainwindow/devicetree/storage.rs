//! The text form of the device tree, as `device_tree.txt` holds it:
//!
//! ```text
//! <device>
//! name
//! ip
//! port
//! user
//! password
//! secret_key
//! <channel>
//! name
//! number
//! protocol
//! stream
//! </channel>
//! ...
//! </device>
//! ```
//!
//! Lines are trimmed and blank lines skipped; the n-th other line inside a
//! block fills the n-th field.

use vstd::prelude::*;

use crate::mainwindow::devicetree::data::{
    channel_models, default_channel, default_device, device_models, protocol_code, stream_code,
    ChannelData, ChannelModel, DeviceData, DeviceModel, ProtocolType, StreamType, protocol_label,
    stream_label,
};
use crate::mainwindow::window::{link_mode_of, stream_type_of};
use crate::text::{
    chars_of, has_no_newline, int_decimal, is_space, lemma_int_decimal_plain, lemma_split_unlines,
    lemma_trim_of_trimmed, lemma_u16_round_trip, lemma_i32_round_trip,
    line_tail, lines_done, nat_decimal, parse_i32, parse_i32_at, parse_u16, parse_u16_at, push_i32,
    split_lines, trim, trim_range, unlines, is_digit,
};

verus! {

broadcast use vstd::string::group_string_axioms;

/// Name of the file that holds the device tree.
pub const FILE_NAME: &'static str = "device_tree.txt";

/// The path at which the device tree is kept (relative to the working
/// directory).
pub fn default_path() -> (p: String)
    ensures
        p@ == FILE_NAME@,
{
    FILE_NAME.to_owned()
}

// ---------------------------------------------------------------------------
// The grammar
// ---------------------------------------------------------------------------

pub open spec fn tag_device() -> Seq<char> {
    "<device>"@
}

pub open spec fn tag_device_end() -> Seq<char> {
    "</device>"@
}

pub open spec fn tag_channel() -> Seq<char> {
    "<channel>"@
}

pub open spec fn tag_channel_end() -> Seq<char> {
    "</channel>"@
}

pub open spec fn is_tag(l: Seq<char>) -> bool {
    l == tag_device() || l == tag_device_end() || l == tag_channel() || l == tag_channel_end()
}

/// The protocol that a number in the file stands for.
pub open spec fn protocol_of(n: i32) -> ProtocolType {
    if n == 0 {
        ProtocolType::Tcp
    } else if n == 1 {
        ProtocolType::Udp
    } else if n == 2 {
        ProtocolType::Mcast
    } else if n == 3 {
        ProtocolType::Rtp
    } else if n == 4 {
        ProtocolType::Rtsp
    } else if n == 5 {
        ProtocolType::Https
    } else {
        ProtocolType::Unknown
    }
}

/// The stream that a number in the file stands for (main when unknown).
pub open spec fn stream_of(n: i32) -> StreamType {
    if n == 1 {
        StreamType::Sub
    } else if n == 2 {
        StreamType::Third
    } else if n == 3 {
        StreamType::Trans
    } else if n == 4 {
        StreamType::Fourth
    } else {
        StreamType::Main
    }
}

pub fn num_to_protocol(n: i32) -> (p: ProtocolType)
    ensures
        p == protocol_of(n),
{
    match n {
        0 => ProtocolType::Tcp,
        1 => ProtocolType::Udp,
        2 => ProtocolType::Mcast,
        3 => ProtocolType::Rtp,
        4 => ProtocolType::Rtsp,
        5 => ProtocolType::Https,
        _ => ProtocolType::Unknown,
    }
}

pub fn num_to_stream(n: i32) -> (s: StreamType)
    ensures
        s == stream_of(n),
{
    match n {
        0 => StreamType::Main,
        1 => StreamType::Sub,
        2 => StreamType::Third,
        3 => StreamType::Trans,
        4 => StreamType::Fourth,
        _ => StreamType::Main,
    }
}

/// The number on a line, 0 when it is none.
pub open spec fn number_or_zero(line: Seq<char>) -> i32 {
    match parse_i32(line) {
        Some(n) => n,
        None => 0,
    }
}

/// A device after one more field line: the name, ip, port (8000 when the
/// line is no port number), user, password and secret key in turn; lines
/// past the sixth change nothing but the count.
pub open spec fn device_after_line(d: DeviceModel, line: Seq<char>) -> DeviceModel {
    let idx = d.field_idx;
    let e = if idx == 0 {
        DeviceModel { name: line, ..d }
    } else if idx == 1 {
        DeviceModel { ip: line, ..d }
    } else if idx == 2 {
        DeviceModel {
            port: match parse_u16(line) {
                Some(p) => p,
                None => 8000,
            },
            ..d
        }
    } else if idx == 3 {
        DeviceModel { user: line, ..d }
    } else if idx == 4 {
        DeviceModel { password: line, ..d }
    } else if idx == 5 {
        DeviceModel { secret_key: line, ..d }
    } else {
        d
    };
    DeviceModel { field_idx: (idx + 1) as u8, ..e }
}

/// A channel after one more field line: the name, number, protocol number
/// and stream number in turn (a line that is no number counts as 0).
pub open spec fn channel_after_line(c: ChannelModel, line: Seq<char>) -> ChannelModel {
    let idx = c.field_idx;
    let e = if idx == 0 {
        ChannelModel { name: line, ..c }
    } else if idx == 1 {
        ChannelModel { number: number_or_zero(line), ..c }
    } else if idx == 2 {
        ChannelModel { protocol: protocol_of(number_or_zero(line)), ..c }
    } else if idx == 3 {
        ChannelModel { stream: stream_of(number_or_zero(line)), ..c }
    } else {
        c
    };
    ChannelModel { field_idx: (idx + 1) as u8, ..e }
}

/// Fills the next field of a device from a line.
pub fn apply_device_line(d: &mut DeviceData, line: &str)
    requires
        old(d)._field_idx < 255,
    ensures
        final(d)@ == device_after_line(old(d)@, line@),
{
    let idx = d._field_idx;
    if idx == 0 {
        d.name = line.to_owned();
    } else if idx == 1 {
        d.ip = line.to_owned();
    } else if idx == 2 {
        let v = chars_of(line);
        assert(v@.subrange(0, v@.len() as int) =~= v@);
        d.port = match parse_u16_at(&v, 0, v.len()) {
            Some(p) => p,
            None => 8000,
        };
    } else if idx == 3 {
        d.user = line.to_owned();
    } else if idx == 4 {
        d.password = line.to_owned();
    } else if idx == 5 {
        d.secret_key = line.to_owned();
    }
    d._field_idx = idx + 1;
}

/// The number on a line, 0 when it is none.
fn number_on(line: &str) -> (n: i32)
    ensures
        n == number_or_zero(line@),
{
    let v = chars_of(line);
    assert(v@.subrange(0, v@.len() as int) =~= v@);
    match parse_i32_at(&v, 0, v.len()) {
        Some(n) => n,
        None => 0,
    }
}

/// Fills the next field of a channel from a line.
pub fn apply_channel_line(c: &mut ChannelData, line: &str)
    requires
        old(c)._field_idx < 255,
    ensures
        final(c)@ == channel_after_line(old(c)@, line@),
{
    let idx = c._field_idx;
    if idx == 0 {
        c.name = line.to_owned();
    } else if idx == 1 {
        c.number = number_on(line);
    } else if idx == 2 {
        c.protocol = num_to_protocol(number_on(line));
    } else if idx == 3 {
        c.stream = num_to_stream(number_on(line));
    }
    c._field_idx = idx + 1;
}


// ---------------------------------------------------------------------------
// Reading
// ---------------------------------------------------------------------------

/// Where reading stands between two lines: the devices read so far, the
/// open device and channel, and whether field lines go to the channel.
pub struct ParseState {
    pub devices: Seq<DeviceModel>,
    pub device: Option<DeviceModel>,
    pub channel: Option<ChannelModel>,
    pub in_channel: bool,
}

pub open spec fn initial_state() -> ParseState {
    ParseState { devices: Seq::empty(), device: None, channel: None, in_channel: false }
}

/// Reading one raw line (before trimming).
pub open spec fn parse_step(st: ParseState, raw: Seq<char>) -> ParseState {
    let line = trim(raw);
    if line.len() == 0 {
        st
    } else if line == tag_device() {
        ParseState { device: Some(default_device()), in_channel: false, ..st }
    } else if line == tag_device_end() {
        ParseState {
            devices: match st.device {
                Some(d) => st.devices.push(d),
                None => st.devices,
            },
            device: None,
            in_channel: false,
            ..st
        }
    } else if line == tag_channel() {
        ParseState { channel: Some(default_channel()), in_channel: true, ..st }
    } else if line == tag_channel_end() {
        ParseState {
            device: match (st.channel, st.device) {
                (Some(c), Some(d)) => Some(DeviceModel { channels: d.channels.push(c), ..d }),
                _ => st.device,
            },
            channel: None,
            in_channel: false,
            ..st
        }
    } else if st.in_channel {
        match st.channel {
            Some(c) => ParseState { channel: Some(channel_after_line(c, line)), ..st },
            None => st,
        }
    } else {
        match st.device {
            Some(d) => ParseState { device: Some(device_after_line(d, line)), ..st },
            None => st,
        }
    }
}

/// The field line of a block past its 255th would overflow the block's
/// `u8` field counter; every other line reads fine.
pub open spec fn step_fits(st: ParseState, raw: Seq<char>) -> bool {
    let line = trim(raw);
    if line.len() == 0 || is_tag(line) {
        true
    } else if st.in_channel {
        match st.channel {
            Some(c) => c.field_idx < 255,
            None => true,
        }
    } else {
        match st.device {
            Some(d) => d.field_idx < 255,
            None => true,
        }
    }
}

/// Reading a sequence of raw lines from a state.
pub open spec fn parse_lines(st: ParseState, ls: Seq<Seq<char>>) -> ParseState
    decreases ls.len(),
{
    if ls.len() == 0 {
        st
    } else {
        parse_step(parse_lines(st, ls.drop_last()), ls.last())
    }
}

/// No line of `ls` overflows a field counter when read from `st`.
pub open spec fn lines_fit(st: ParseState, ls: Seq<Seq<char>>) -> bool
    decreases ls.len(),
{
    if ls.len() == 0 {
        true
    } else {
        lines_fit(st, ls.drop_last()) && step_fits(parse_lines(st, ls.drop_last()), ls.last())
    }
}

/// The devices that a text holds.
pub open spec fn parse_text(t: Seq<char>) -> Seq<DeviceModel> {
    parse_lines(initial_state(), split_lines(t)).devices
}

/// The text can be read without overflowing a field counter.
pub open spec fn text_fits(t: Seq<char>) -> bool {
    lines_fit(initial_state(), split_lines(t))
}

pub proof fn lemma_lines_push(st: ParseState, ls: Seq<Seq<char>>, x: Seq<char>)
    ensures
        parse_lines(st, ls.push(x)) == parse_step(parse_lines(st, ls), x),
        lines_fit(st, ls.push(x)) == (lines_fit(st, ls) && step_fits(parse_lines(st, ls), x)),
{
    assert(ls.push(x).drop_last() =~= ls);
}

/// Reading `a + b` is reading `a`, then `b`.
pub proof fn lemma_lines_append(st: ParseState, a: Seq<Seq<char>>, b: Seq<Seq<char>>)
    ensures
        parse_lines(st, a + b) == parse_lines(parse_lines(st, a), b),
        lines_fit(st, a + b) == (lines_fit(st, a) && lines_fit(parse_lines(st, a), b)),
    decreases b.len(),
{
    if b.len() == 0 {
        assert(a + b =~= a);
    } else {
        lemma_lines_append(st, a, b.drop_last());
        assert((a + b).drop_last() =~= a + b.drop_last());
        assert((a + b).last() == b.last());
    }
}

proof fn lemma_fit_prefix(st: ParseState, ps: Seq<Seq<char>>, ls: Seq<Seq<char>>)
    requires
        ps.is_prefix_of(ls),
        lines_fit(st, ls),
    ensures
        lines_fit(st, ps),
    decreases ls.len(),
{
    if ps.len() == ls.len() {
        assert(ps =~= ls);
    } else {
        assert(ps.is_prefix_of(ls.drop_last()));
        lemma_fit_prefix(st, ps, ls.drop_last());
    }
}

proof fn lemma_lines_done_prefix(s: Seq<char>, i: int)
    requires
        0 <= i <= s.len(),
    ensures
        lines_done(s.take(i)).is_prefix_of(lines_done(s)),
    decreases s.len(),
{
    if i == s.len() {
        assert(s.take(i) =~= s);
    } else {
        let t = s.drop_last();
        lemma_lines_done_prefix(t, i);
        assert(t.take(i) =~= s.take(i));
        assert(lines_done(t).is_prefix_of(lines_done(s)));
    }
}

/// The reader's state in executable form.
struct Reader {
    devices: Vec<DeviceData>,
    device: Option<DeviceData>,
    channel: Option<ChannelData>,
    in_channel: bool,
}

impl Reader {
    spec fn model(&self) -> ParseState {
        ParseState {
            devices: device_models(self.devices@),
            device: match self.device {
                Some(d) => Some(d@),
                None => None,
            },
            channel: match self.channel {
                Some(c) => Some(c@),
                None => None,
            },
            in_channel: self.in_channel,
        }
    }

    fn new() -> (r: Reader)
        ensures
            r.model() == initial_state(),
    {
        let r = Reader { devices: Vec::new(), device: None, channel: None, in_channel: false };
        assert(device_models(r.devices@) =~= Seq::<DeviceModel>::empty());
        r
    }

    /// Reads the line `v[lo..hi]`; false where the line would overflow a
    /// field counter.
    fn feed(&mut self, text: &str, v: &Vec<char>, lo: usize, hi: usize) -> (ok: bool)
        requires
            v@ == text@,
            lo <= hi <= v@.len(),
        ensures
            ok == step_fits(old(self).model(), v@.subrange(lo as int, hi as int)),
            ok ==> final(self).model() == parse_step(
                old(self).model(),
                v@.subrange(lo as int, hi as int),
            ),
    {
        let ghost raw = v@.subrange(lo as int, hi as int);
        let (a, b) = trim_range(v, lo, hi);
        let ghost line = v@.subrange(a as int, b as int);
        assert(line == trim(raw));
        if a == b {
            return true;
        }
        if range_equals(v, a, b, "<device>") {
            self.device = Some(DeviceData::default());
            self.in_channel = false;
            return true;
        }
        if range_equals(v, a, b, "</device>") {
            let taken = self.device.take();
            match taken {
                Some(d) => {
                    self.devices.push(d);
                    assert(device_models(self.devices@) =~= device_models(old(self).devices@).push(d@));
                },
                None => {},
            }
            self.in_channel = false;
            return true;
        }
        if range_equals(v, a, b, "<channel>") {
            self.channel = Some(ChannelData::default());
            self.in_channel = true;
            return true;
        }
        if range_equals(v, a, b, "</channel>") {
            let c_taken = self.channel.take();
            let d_taken = self.device.take();
            match (c_taken, d_taken) {
                (Some(c), Some(mut d)) => {
                    let ghost c_model = c@;
                    let ghost d_model = d@;
                    d.channels.push(c);
                    assert(channel_models(d.channels@) =~= d_model.channels.push(c_model));
                    self.device = Some(d);
                },
                (None, Some(d)) => {
                    self.device = Some(d);
                },
                (_, None) => {},
            }
            self.in_channel = false;
            return true;
        }
        let line_str = text.substring_char(a, b);
        assert(line_str@ == line);
        if self.in_channel {
            let taken = self.channel.take();
            match taken {
                Some(mut c) => {
                    if c._field_idx == 255 {
                        self.channel = Some(c);
                        return false;
                    }
                    apply_channel_line(&mut c, line_str);
                    self.channel = Some(c);
                },
                None => {},
            }
        } else {
            let taken = self.device.take();
            match taken {
                Some(mut d) => {
                    if d._field_idx == 255 {
                        self.device = Some(d);
                        return false;
                    }
                    apply_device_line(&mut d, line_str);
                    self.device = Some(d);
                },
                None => {},
            }
        }
        true
    }
}

/// Whether `v[a..b]` spells `t`.
fn range_equals(v: &Vec<char>, a: usize, b: usize, t: &str) -> (r: bool)
    requires
        a <= b <= v@.len(),
    ensures
        r == (v@.subrange(a as int, b as int) == t@),
{
    let n = t.unicode_len();
    if b - a != n {
        return false;
    }
    let mut i: usize = 0;
    while i < n
        invariant
            a <= b <= v@.len(),
            b - a == n,
            n == t@.len(),
            0 <= i <= n,
            forall|j: int| 0 <= j < i ==> v@[a + j] == t@[j],
        decreases n - i,
    {
        if v[a + i] != t.get_char(i) {
            assert(v@.subrange(a as int, b as int)[i as int] != t@[i as int]);
            return false;
        }
        i = i + 1;
    }
    assert(v@.subrange(a as int, b as int) =~= t@);
    true
}

/// The devices in a device-tree text; `None` where a block holds more
/// field lines than its `u8` counter can count (see `parse`).
pub fn try_parse(text: &str) -> (r: Option<Vec<DeviceData>>)
    ensures
        r is Some <==> text_fits(text@),
        r matches Some(ds) ==> device_models(ds@) == parse_text(text@),
{
    let v = chars_of(text);
    let n = v.len();
    let mut reader = Reader::new();
    let mut start: usize = 0;
    let mut i: usize = 0;
    assert(v@.take(0) =~= Seq::<char>::empty());
    assert(v@.subrange(0, 0) =~= Seq::<char>::empty());
    while i < n
        invariant
            v@ == text@,
            n == v@.len(),
            0 <= start <= i <= n,
            reader.model() == parse_lines(initial_state(), lines_done(v@.take(i as int))),
            lines_fit(initial_state(), lines_done(v@.take(i as int))),
            line_tail(v@.take(i as int)) == v@.subrange(start as int, i as int),
        decreases n - i,
    {
        let ghost pre = v@.take(i as int);
        let ghost post = v@.take(i + 1);
        assert(post.drop_last() =~= pre);
        assert(post.last() == v@[i as int]);
        if v[i] == '\n' {
            proof {
                lemma_lines_push(initial_state(), lines_done(pre), line_tail(pre));
            }
            if !reader.feed(text, &v, start, i) {
                proof {
                    lemma_lines_done_prefix(v@, i + 1);
                    assert(lines_done(v@).is_prefix_of(split_lines(v@)));
                    assert(lines_done(post).is_prefix_of(split_lines(v@)));
                    if text_fits(text@) {
                        lemma_fit_prefix(initial_state(), lines_done(post), split_lines(v@));
                    }
                }
                return None;
            }
            start = i + 1;
            assert(v@.subrange(start as int, i + 1) =~= Seq::<char>::empty());
        } else {
            assert(v@.subrange(start as int, i + 1) =~= v@.subrange(start as int, i as int).push(
                v@[i as int],
            ));
        }
        i = i + 1;
    }
    assert(v@.take(n as int) =~= v@);
    proof {
        lemma_lines_push(initial_state(), lines_done(v@), line_tail(v@));
    }
    if !reader.feed(text, &v, start, n) {
        return None;
    }
    Some(reader.devices)
}

/// The devices in a device-tree text. A block with more than 255 field
/// lines would overflow its `u8` field counter; such texts are left out
/// (`try_parse` tells them apart).
pub fn parse(text: &str) -> (r: Vec<DeviceData>)
    requires
        text_fits(text@),
    ensures
        device_models(r@) == parse_text(text@),
{
    match try_parse(text) {
        Some(ds) => ds,
        None => Vec::new(),
    }
}


// ---------------------------------------------------------------------------
// Writing
// ---------------------------------------------------------------------------

/// The lines of a channel's block.
pub open spec fn channel_lines(c: ChannelModel) -> Seq<Seq<char>> {
    seq![
        tag_channel(),
        c.name,
        int_decimal(c.number as int),
        int_decimal(protocol_code(c.protocol) as int),
        int_decimal(stream_code(c.stream) as int),
        tag_channel_end(),
    ]
}

pub open spec fn channels_lines(cs: Seq<ChannelModel>) -> Seq<Seq<char>>
    decreases cs.len(),
{
    if cs.len() == 0 {
        Seq::empty()
    } else {
        channels_lines(cs.drop_last()) + channel_lines(cs.last())
    }
}

/// The first lines of a device's block: the tag and the six fields.
pub open spec fn device_head(d: DeviceModel) -> Seq<Seq<char>> {
    seq![tag_device(), d.name, d.ip, nat_decimal(d.port as nat), d.user, d.password, d.secret_key]
}

/// The lines of a device's block.
pub open spec fn device_lines(d: DeviceModel) -> Seq<Seq<char>> {
    device_head(d) + channels_lines(d.channels) + seq![tag_device_end()]
}

pub open spec fn devices_lines(ds: Seq<DeviceModel>) -> Seq<Seq<char>>
    decreases ds.len(),
{
    if ds.len() == 0 {
        Seq::empty()
    } else {
        devices_lines(ds.drop_last()) + device_lines(ds.last())
    }
}

/// The text that `save` writes for a device list.
pub open spec fn tree_text(ds: Seq<DeviceModel>) -> Seq<char> {
    unlines(devices_lines(ds))
}

/// Appends a line and its `'\n'`.
fn push_line(out: &mut String, l: &str, Ghost(ls): Ghost<Seq<Seq<char>>>)
    requires
        old(out)@ == unlines(ls),
    ensures
        final(out)@ == unlines(ls.push(l@)),
{
    out.append(l);
    proof {
        reveal_strlit("\n");
    }
    out.append("\n");
    assert(ls.push(l@).drop_last() =~= ls);
}

/// Appends a number's line and its `'\n'`.
fn push_number_line(out: &mut String, n: i32, Ghost(ls): Ghost<Seq<Seq<char>>>)
    requires
        old(out)@ == unlines(ls),
    ensures
        final(out)@ == unlines(ls.push(int_decimal(n as int))),
{
    push_i32(out, n);
    proof {
        reveal_strlit("\n");
    }
    out.append("\n");
    assert(ls.push(int_decimal(n as int)).drop_last() =~= ls);
}

/// The device-tree text of `devices`, as `save` writes it to the file.
pub fn serialize(devices: &[DeviceData]) -> (s: String)
    ensures
        s@ == tree_text(device_models(devices@)),
{
    let ghost ds = device_models(devices@);
    let mut out = String::new();
    let ghost mut ls: Seq<Seq<char>> = Seq::empty();
    proof {
        reveal_strlit("<device>");
        reveal_strlit("</device>");
        reveal_strlit("<channel>");
        reveal_strlit("</channel>");
    }
    assert(ds.take(0) =~= Seq::<DeviceModel>::empty());
    for i in 0..devices.len()
        invariant
            ds == device_models(devices@),
            ls == devices_lines(ds.take(i as int)),
            out@ == unlines(ls),
    {
        let dev = &devices[i];
        let ghost d = dev@;
        assert(d == ds[i as int]);
        let ghost base = ls;
        push_line(&mut out, "<device>", Ghost(ls));
        proof { ls = ls.push(tag_device()); }
        push_line(&mut out, dev.name.as_str(), Ghost(ls));
        proof { ls = ls.push(d.name); }
        push_line(&mut out, dev.ip.as_str(), Ghost(ls));
        proof { ls = ls.push(d.ip); }
        push_number_line(&mut out, dev.port as i32, Ghost(ls));
        proof {
            assert(int_decimal(dev.port as int) == nat_decimal(dev.port as nat));
            ls = ls.push(nat_decimal(dev.port as nat));
        }
        push_line(&mut out, dev.user.as_str(), Ghost(ls));
        proof { ls = ls.push(d.user); }
        push_line(&mut out, dev.password.as_str(), Ghost(ls));
        proof { ls = ls.push(d.password); }
        push_line(&mut out, dev.secret_key.as_str(), Ghost(ls));
        proof { ls = ls.push(d.secret_key); }
        assert(ls =~= base + device_head(d));
        let ghost head = ls;
        let ghost cs = d.channels;
        assert(cs.take(0) =~= Seq::<ChannelModel>::empty());
        assert(head + channels_lines(cs.take(0)) =~= head);
        for j in 0..dev.channels.len()
            invariant
                cs == channel_models(dev.channels@),
                ls == head + channels_lines(cs.take(j as int)),
                out@ == unlines(ls),
        {
            let ch = &dev.channels[j];
            let ghost c = ch@;
            assert(c == cs[j as int]);
            push_line(&mut out, "<channel>", Ghost(ls));
            proof { ls = ls.push(tag_channel()); }
            push_line(&mut out, ch.name.as_str(), Ghost(ls));
            proof { ls = ls.push(c.name); }
            push_number_line(&mut out, ch.number, Ghost(ls));
            proof { ls = ls.push(int_decimal(ch.number as int)); }
            push_number_line(&mut out, ch.protocol.code(), Ghost(ls));
            proof { ls = ls.push(int_decimal(protocol_code(ch.protocol) as int)); }
            push_number_line(&mut out, ch.stream.code(), Ghost(ls));
            proof { ls = ls.push(int_decimal(stream_code(ch.stream) as int)); }
            push_line(&mut out, "</channel>", Ghost(ls));
            proof {
                ls = ls.push(tag_channel_end());
                assert(cs.take(j + 1).drop_last() =~= cs.take(j as int));
                assert(cs.take(j + 1).last() == c);
                assert(ls =~= head + channels_lines(cs.take(j + 1)));
            }
        }
        assert(cs.take(dev.channels@.len() as int) =~= cs);
        push_line(&mut out, "</device>", Ghost(ls));
        proof {
            ls = ls.push(tag_device_end());
            assert(ds.take(i + 1).drop_last() =~= ds.take(i as int));
            assert(ds.take(i + 1).last() == d);
            assert(ls =~= base + device_lines(d));
        }
    }
    assert(ds.take(devices@.len() as int) =~= ds);
    out
}


// ---------------------------------------------------------------------------
// Writing, then reading back
// ---------------------------------------------------------------------------

/// A text field that survives a line of its own: no `'\n'` in it, no
/// whitespace at its ends, and no tag.
pub open spec fn plain_field(f: Seq<char>) -> bool {
    &&& has_no_newline(f)
    &&& (f.len() == 0 || (!is_space(f[0]) && !is_space(f.last())))
    &&& !is_tag(f)
}

/// A channel that reads back as written: a plain, non-empty name.
pub open spec fn storable_channel(c: ChannelModel) -> bool {
    plain_field(c.name) && c.name.len() > 0
}

/// A device that reads back as written: plain fields, a name and an ip
/// (an empty line is skipped, so an empty field would shift the ones after
/// it), empty login fields only at the end, storable channels.
pub open spec fn storable_device(d: DeviceModel) -> bool {
    &&& plain_field(d.name) && d.name.len() > 0
    &&& plain_field(d.ip) && d.ip.len() > 0
    &&& plain_field(d.user) && plain_field(d.password) && plain_field(d.secret_key)
    &&& (d.user.len() == 0 ==> d.password.len() == 0)
    &&& (d.password.len() == 0 ==> d.secret_key.len() == 0)
    &&& forall|i: int| 0 <= i < d.channels.len() ==> storable_channel(#[trigger] d.channels[i])
}

/// A channel as it reads back: what the file holds, and fresh run-time
/// state (no stream handle, offline, all four field lines counted).
pub open spec fn stored_channel(c: ChannelModel) -> ChannelModel {
    ChannelModel { real_handle: -1i32, online: false, field_idx: 4, ..c }
}

/// Each channel as it reads back.
pub open spec fn stored_channels(cs: Seq<ChannelModel>) -> Seq<ChannelModel> {
    cs.map_values(|c: ChannelModel| stored_channel(c))
}

/// Each device as it reads back.
pub open spec fn stored_devices(ds: Seq<DeviceModel>) -> Seq<DeviceModel> {
    ds.map_values(|d: DeviceModel| stored_device(d))
}

/// How many of a device's six field lines are not empty.
pub open spec fn device_field_count(d: DeviceModel) -> u8 {
    if d.user.len() == 0 {
        3
    } else if d.password.len() == 0 {
        4
    } else if d.secret_key.len() == 0 {
        5
    } else {
        6
    }
}

/// A device as it reads back: what the file holds, and fresh run-time
/// state (logged out, no multicast address, no zero channel).
pub open spec fn stored_device(d: DeviceModel) -> DeviceModel {
    DeviceModel {
        user_id: -1i32,
        multicast: Seq::empty(),
        zero_chan_num: 0,
        real_play_label: 0,
        channels: stored_channels(d.channels),
        field_idx: device_field_count(d),
        ..d
    }
}

proof fn lemma_tags()
    ensures
        trim(tag_device()) == tag_device(),
        trim(tag_device_end()) == tag_device_end(),
        trim(tag_channel()) == tag_channel(),
        trim(tag_channel_end()) == tag_channel_end(),
        tag_device().len() == 8 && tag_device()[0] == '<' && has_no_newline(tag_device()),
        tag_device_end().len() == 9 && tag_device_end()[0] == '<' && has_no_newline(
            tag_device_end(),
        ),
        tag_channel().len() == 9 && tag_channel()[0] == '<' && has_no_newline(tag_channel()),
        tag_channel_end().len() == 10 && tag_channel_end()[0] == '<' && has_no_newline(
            tag_channel_end(),
        ),
        tag_device() != tag_device_end(),
        tag_device() != tag_channel(),
        tag_device() != tag_channel_end(),
        tag_device_end() != tag_channel(),
        tag_device_end() != tag_channel_end(),
        tag_channel() != tag_channel_end(),
{
    reveal_strlit("<device>");
    reveal_strlit("</device>");
    reveal_strlit("<channel>");
    reveal_strlit("</channel>");
    lemma_trim_of_trimmed(tag_device());
    lemma_trim_of_trimmed(tag_device_end());
    lemma_trim_of_trimmed(tag_channel());
    lemma_trim_of_trimmed(tag_channel_end());
    assert(tag_device_end()[1] != tag_channel()[1]);
}

/// A field line is read as itself; an empty one is skipped.
proof fn lemma_field_line(f: Seq<char>)
    requires
        plain_field(f),
    ensures
        trim(f) == f,
{
    lemma_trim_of_trimmed(f);
}

/// A number's line is read as itself and is no tag.
proof fn lemma_number_line(n: int)
    ensures
        trim(int_decimal(n)) == int_decimal(n),
        int_decimal(n).len() > 0,
        has_no_newline(int_decimal(n)),
        !is_tag(int_decimal(n)),
{
    lemma_int_decimal_plain(n);
    lemma_tags();
    let l = int_decimal(n);
    assert(is_digit(l[0]) || l[0] == '-');
    assert(is_digit(l[l.len() - 1]));
    lemma_trim_of_trimmed(l);
    assert(l[0] != tag_device()[0]);
}

proof fn lemma_channel_block(st: ParseState, c: ChannelModel)
    requires
        !st.in_channel,
        st.channel is None,
        st.device is Some,
        storable_channel(c),
    ensures
        parse_lines(st, channel_lines(c)) == (ParseState {
            device: Some(
                DeviceModel {
                    channels: st.device->0.channels.push(stored_channel(c)),
                    ..st.device->0
                },
            ),
            ..st
        }),
        lines_fit(st, channel_lines(c)),
{
    lemma_tags();
    lemma_field_line(c.name);
    let n1 = int_decimal(c.number as int);
    let n2 = int_decimal(protocol_code(c.protocol) as int);
    let n3 = int_decimal(stream_code(c.stream) as int);
    lemma_number_line(c.number as int);
    lemma_number_line(protocol_code(c.protocol) as int);
    lemma_number_line(stream_code(c.stream) as int);
    lemma_i32_round_trip(c.number);
    lemma_i32_round_trip(protocol_code(c.protocol));
    lemma_i32_round_trip(stream_code(c.stream));
    let l0: Seq<Seq<char>> = Seq::empty();
    let l1 = l0.push(tag_channel());
    let l2 = l1.push(c.name);
    let l3 = l2.push(n1);
    let l4 = l3.push(n2);
    let l5 = l4.push(n3);
    let l6 = l5.push(tag_channel_end());
    assert(l6 =~= channel_lines(c));
    lemma_lines_push(st, l0, tag_channel());
    lemma_lines_push(st, l1, c.name);
    lemma_lines_push(st, l2, n1);
    lemma_lines_push(st, l3, n2);
    lemma_lines_push(st, l4, n3);
    lemma_lines_push(st, l5, tag_channel_end());
    let s1 = parse_lines(st, l1);
    assert(s1 == ParseState { channel: Some(default_channel()), in_channel: true, ..st });
    let s2 = parse_lines(st, l2);
    let c2 = ChannelModel { name: c.name, field_idx: 1, ..default_channel() };
    assert(s2 == ParseState { channel: Some(c2), ..s1 });
    let s3 = parse_lines(st, l3);
    let c3 = ChannelModel { number: c.number, field_idx: 2, ..c2 };
    assert(number_or_zero(n1) == c.number);
    assert(s3 == ParseState { channel: Some(c3), ..s1 });
    let s4 = parse_lines(st, l4);
    let c4 = ChannelModel { protocol: c.protocol, field_idx: 3, ..c3 };
    assert(protocol_of(protocol_code(c.protocol)) == c.protocol);
    assert(s4 == ParseState { channel: Some(c4), ..s1 });
    let s5 = parse_lines(st, l5);
    let c5 = ChannelModel { stream: c.stream, field_idx: 4, ..c4 };
    assert(stream_of(stream_code(c.stream)) == c.stream);
    assert(s5 == ParseState { channel: Some(c5), ..s1 });
    assert(c5 == stored_channel(c));
}

proof fn lemma_channels_block(st: ParseState, cs: Seq<ChannelModel>)
    requires
        !st.in_channel,
        st.channel is None,
        st.device is Some,
        forall|i: int| 0 <= i < cs.len() ==> storable_channel(#[trigger] cs[i]),
    ensures
        parse_lines(st, channels_lines(cs)) == (ParseState {
            device: Some(
                DeviceModel {
                    channels: st.device->0.channels + stored_channels(cs),
                    ..st.device->0
                },
            ),
            ..st
        }),
        lines_fit(st, channels_lines(cs)),
    decreases cs.len(),
{
    let d = st.device->0;
    if cs.len() == 0 {
        assert(d.channels + stored_channels(cs) =~= d.channels);
    } else {
        let init = cs.drop_last();
        assert forall|i: int| 0 <= i < init.len() implies storable_channel(#[trigger] init[i]) by {
            assert(init[i] == cs[i]);
        }
        lemma_channels_block(st, init);
        let mid = parse_lines(st, channels_lines(init));
        assert(storable_channel(cs[cs.len() - 1]));
        lemma_channel_block(mid, cs.last());
        lemma_lines_append(st, channels_lines(init), channel_lines(cs.last()));
        assert(d.channels + stored_channels(init).push(
            stored_channel(cs.last()),
        ) =~= d.channels + stored_channels(cs));
    }
}

/// The device that the head of a device block leaves open.
pub open spec fn head_device(d: DeviceModel) -> DeviceModel {
    DeviceModel {
        name: d.name,
        ip: d.ip,
        port: d.port,
        user: d.user,
        password: d.password,
        secret_key: d.secret_key,
        field_idx: device_field_count(d),
        ..default_device()
    }
}

proof fn lemma_device_head(st: ParseState, d: DeviceModel)
    requires
        !st.in_channel,
        st.channel is None,
        st.device is None,
        storable_device(d),
    ensures
        parse_lines(st, device_head(d)) == (ParseState { device: Some(head_device(d)), ..st }),
        lines_fit(st, device_head(d)),
{
    lemma_tags();
    lemma_field_line(d.name);
    lemma_field_line(d.ip);
    lemma_field_line(d.user);
    lemma_field_line(d.password);
    lemma_field_line(d.secret_key);
    let p = nat_decimal(d.port as nat);
    lemma_number_line(d.port as int);
    lemma_u16_round_trip(d.port);
    assert(int_decimal(d.port as int) == p);
    let l0: Seq<Seq<char>> = Seq::empty();
    let l1 = l0.push(tag_device());
    let l2 = l1.push(d.name);
    let l3 = l2.push(d.ip);
    let l4 = l3.push(p);
    let l5 = l4.push(d.user);
    let l6 = l5.push(d.password);
    let l7 = l6.push(d.secret_key);
    assert(l7 =~= device_head(d));
    lemma_lines_push(st, l0, tag_device());
    lemma_lines_push(st, l1, d.name);
    lemma_lines_push(st, l2, d.ip);
    lemma_lines_push(st, l3, p);
    lemma_lines_push(st, l4, d.user);
    lemma_lines_push(st, l5, d.password);
    lemma_lines_push(st, l6, d.secret_key);
    let s1 = parse_lines(st, l1);
    assert(s1 == ParseState { device: Some(default_device()), ..st });
    let d2 = DeviceModel { name: d.name, field_idx: 1, ..default_device() };
    assert(parse_lines(st, l2) == ParseState { device: Some(d2), ..st });
    let d3 = DeviceModel { ip: d.ip, field_idx: 2, ..d2 };
    assert(parse_lines(st, l3) == ParseState { device: Some(d3), ..st });
    let d4 = DeviceModel { port: d.port, field_idx: 3, ..d3 };
    assert(parse_lines(st, l4) == ParseState { device: Some(d4), ..st });
    if d.user.len() == 0 {
        assert(trim(d.user).len() == 0);
        assert(trim(d.password).len() == 0);
        assert(trim(d.secret_key).len() == 0);
        assert(parse_lines(st, l7) == ParseState { device: Some(d4), ..st });
        assert(d.user =~= Seq::<char>::empty());
        assert(d.password =~= Seq::<char>::empty());
        assert(d.secret_key =~= Seq::<char>::empty());
        assert(d4 == head_device(d));
    } else {
        let d5 = DeviceModel { user: d.user, field_idx: 4, ..d4 };
        assert(parse_lines(st, l5) == ParseState { device: Some(d5), ..st });
        if d.password.len() == 0 {
            assert(trim(d.password).len() == 0);
            assert(trim(d.secret_key).len() == 0);
            assert(parse_lines(st, l7) == ParseState { device: Some(d5), ..st });
            assert(d.password =~= Seq::<char>::empty());
            assert(d.secret_key =~= Seq::<char>::empty());
            assert(d5 == head_device(d));
        } else {
            let d6 = DeviceModel { password: d.password, field_idx: 5, ..d5 };
            assert(parse_lines(st, l6) == ParseState { device: Some(d6), ..st });
            if d.secret_key.len() == 0 {
                assert(trim(d.secret_key).len() == 0);
                assert(parse_lines(st, l7) == ParseState { device: Some(d6), ..st });
                assert(d.secret_key =~= Seq::<char>::empty());
                assert(d6 == head_device(d));
            } else {
                let d7 = DeviceModel { secret_key: d.secret_key, field_idx: 6, ..d6 };
                assert(parse_lines(st, l7) == ParseState { device: Some(d7), ..st });
                assert(d7 == head_device(d));
            }
        }
    }
}

proof fn lemma_device_block(st: ParseState, d: DeviceModel)
    requires
        !st.in_channel,
        st.channel is None,
        st.device is None,
        storable_device(d),
    ensures
        parse_lines(st, device_lines(d)) == (ParseState {
            devices: st.devices.push(stored_device(d)),
            ..st
        }),
        lines_fit(st, device_lines(d)),
{
    lemma_tags();
    lemma_device_head(st, d);
    let s1 = parse_lines(st, device_head(d));
    lemma_channels_block(s1, d.channels);
    let s2 = parse_lines(s1, channels_lines(d.channels));
    lemma_lines_append(st, device_head(d), channels_lines(d.channels));
    let hc = device_head(d) + channels_lines(d.channels);
    lemma_lines_push(st, hc, tag_device_end());
    assert(hc.push(tag_device_end()) =~= device_lines(d));
    let sd = DeviceModel {
        channels: head_device(d).channels + stored_channels(d.channels),
        ..head_device(d)
    };
    assert(head_device(d).channels + stored_channels(d.channels)
        =~= stored_channels(d.channels));
    assert(sd == stored_device(d));
}

proof fn lemma_devices_blocks(ds: Seq<DeviceModel>)
    requires
        forall|i: int| 0 <= i < ds.len() ==> storable_device(#[trigger] ds[i]),
    ensures
        parse_lines(initial_state(), devices_lines(ds)) == (ParseState {
            devices: stored_devices(ds),
            ..initial_state()
        }),
        lines_fit(initial_state(), devices_lines(ds)),
    decreases ds.len(),
{
    if ds.len() == 0 {
        assert(stored_devices(ds) =~= Seq::<DeviceModel>::empty());
    } else {
        let init = ds.drop_last();
        assert forall|i: int| 0 <= i < init.len() implies storable_device(#[trigger] init[i]) by {
            assert(init[i] == ds[i]);
        }
        lemma_devices_blocks(init);
        assert(storable_device(ds[ds.len() - 1]));
        let mid = parse_lines(initial_state(), devices_lines(init));
        lemma_device_block(mid, ds.last());
        lemma_lines_append(initial_state(), devices_lines(init), device_lines(ds.last()));
        assert(stored_devices(init).push(stored_device(ds.last()))
            =~= stored_devices(ds));
    }
}

proof fn lemma_lines_plain(ds: Seq<DeviceModel>)
    requires
        forall|i: int| 0 <= i < ds.len() ==> storable_device(#[trigger] ds[i]),
    ensures
        forall|k: int|
            0 <= k < devices_lines(ds).len() ==> has_no_newline(#[trigger] devices_lines(ds)[k]),
    decreases ds.len(),
{
    if ds.len() > 0 {
        let init = ds.drop_last();
        assert forall|i: int| 0 <= i < init.len() implies storable_device(#[trigger] init[i]) by {
            assert(init[i] == ds[i]);
        }
        lemma_lines_plain(init);
        let d = ds.last();
        assert(storable_device(ds[ds.len() - 1]));
        lemma_device_lines_plain(d);
        let a = devices_lines(init);
        let b = device_lines(d);
        assert forall|k: int| 0 <= k < (a + b).len() implies has_no_newline(#[trigger] (a + b)[k]) by {
            if k < a.len() {
                assert((a + b)[k] == a[k]);
            } else {
                assert((a + b)[k] == b[k - a.len()]);
            }
        }
    }
}

proof fn lemma_channels_lines_plain(cs: Seq<ChannelModel>)
    requires
        forall|i: int| 0 <= i < cs.len() ==> storable_channel(#[trigger] cs[i]),
    ensures
        forall|k: int|
            0 <= k < channels_lines(cs).len() ==> has_no_newline(#[trigger] channels_lines(cs)[k]),
    decreases cs.len(),
{
    if cs.len() > 0 {
        let init = cs.drop_last();
        assert forall|i: int| 0 <= i < init.len() implies storable_channel(#[trigger] init[i]) by {
            assert(init[i] == cs[i]);
        }
        lemma_channels_lines_plain(init);
        let c = cs.last();
        assert(storable_channel(cs[cs.len() - 1]));
        lemma_tags();
        lemma_number_line(c.number as int);
        lemma_number_line(protocol_code(c.protocol) as int);
        lemma_number_line(stream_code(c.stream) as int);
        let a = channels_lines(init);
        let b = channel_lines(c);
        assert forall|k: int| 0 <= k < b.len() implies has_no_newline(#[trigger] b[k]) by {}
        assert forall|k: int| 0 <= k < (a + b).len() implies has_no_newline(#[trigger] (a + b)[k]) by {
            if k < a.len() {
                assert((a + b)[k] == a[k]);
            } else {
                assert((a + b)[k] == b[k - a.len()]);
            }
        }
    }
}

proof fn lemma_device_lines_plain(d: DeviceModel)
    requires
        storable_device(d),
    ensures
        forall|k: int|
            0 <= k < device_lines(d).len() ==> has_no_newline(#[trigger] device_lines(d)[k]),
{
    lemma_tags();
    lemma_number_line(d.port as int);
    lemma_channels_lines_plain(d.channels);
    let h = device_head(d);
    let c = channels_lines(d.channels);
    let e = seq![tag_device_end()];
    assert forall|k: int| 0 <= k < h.len() implies has_no_newline(#[trigger] h[k]) by {}
    assert forall|k: int| 0 <= k < (h + c + e).len() implies has_no_newline(
        #[trigger] (h + c + e)[k],
    ) by {
        if k < h.len() {
            assert((h + c + e)[k] == h[k]);
        } else if k < h.len() + c.len() {
            assert((h + c + e)[k] == c[k - h.len()]);
        } else {
            assert((h + c + e)[k] == e[k - h.len() - c.len()]);
        }
    }
}

/// Reading back what was written gives the same devices, each with fresh
/// run-time state (`stored_device`), for every list of storable devices;
/// and the written text never overflows a field counter.
pub proof fn lemma_text_round_trip(ds: Seq<DeviceModel>)
    requires
        forall|i: int| 0 <= i < ds.len() ==> storable_device(#[trigger] ds[i]),
    ensures
        text_fits(tree_text(ds)),
        parse_text(tree_text(ds)) == stored_devices(ds),
{
    lemma_lines_plain(ds);
    let ls = devices_lines(ds);
    lemma_split_unlines(ls);
    lemma_devices_blocks(ds);
    lemma_lines_push(initial_state(), ls, Seq::<char>::empty());
    assert(trim(Seq::<char>::empty()) =~= Seq::<char>::empty());
}


/// The stream codes of the file are the SDK's stream types, the ones that
/// the preview panel asks for by a stream's name: each stream is written
/// as the code that its name selects, and that code reads back as the
/// stream. The main stream is written `0`, the sub stream `1`, the third
/// `2`, transcoding `3` and the fourth `4`, as the Qt demo writes them, and
/// any other number reads as the main stream.
pub proof fn lemma_stream_codes(s: StreamType, n: i32)
    ensures
        0 <= stream_code(s) && stream_code(s) as u32 == stream_type_of(stream_label(s)),
        stream_of(stream_code(s)) == s,
        0 <= n <= 4 ==> stream_code(stream_of(n)) == n,
        !(0 <= n <= 4) ==> stream_of(n) == StreamType::Main,
        stream_code(StreamType::Main) == 0 && stream_of(0) == StreamType::Main,
        stream_code(StreamType::Sub) == 1 && stream_of(1) == StreamType::Sub,
        stream_code(StreamType::Third) == 2 && stream_of(2) == StreamType::Third,
        stream_code(StreamType::Trans) == 3 && stream_of(3) == StreamType::Trans,
        stream_code(StreamType::Fourth) == 4 && stream_of(4) == StreamType::Fourth,
{
    reveal_strlit("Main stream");
    reveal_strlit("Sub stream");
    reveal_strlit("Third stream");
    reveal_strlit("Trans code");
    reveal_strlit("Fourth stream");
    let main = "Main stream"@;
    let sub = "Sub stream"@;
    let third = "Third stream"@;
    let trans = "Trans code"@;
    let fourth = "Fourth stream"@;
    assert(main.len() == 11 && sub.len() == 10 && third.len() == 12 && trans.len() == 10
        && fourth.len() == 13);
    assert(sub[0] == 'S' && trans[0] == 'T');
    assert(sub != main && third != main && third != sub && trans != main && trans != third);
    assert(trans != sub) by {
        assert(trans[0] != sub[0]);
    }
    assert(fourth != main && fourth != sub && fourth != third && fourth != trans);
}

/// The protocol codes of the file are the SDK's link modes, the ones that
/// the preview panel asks for by a protocol's name: each known protocol is
/// written as the link mode that its name selects, every protocol's code
/// reads back as that protocol, and no two protocols share a name. TCP is
/// `0`, UDP `1`, multicast `2`, RTP `3`, RTSP `4`, HTTPS `5`; any other
/// number reads as an unknown protocol, written `99`.
pub proof fn lemma_protocol_codes(p: ProtocolType, q: ProtocolType, n: i32)
    ensures
        p != ProtocolType::Unknown ==> 0 <= protocol_code(p) && protocol_code(p) as u32
            == link_mode_of(protocol_label(p)),
        protocol_of(protocol_code(p)) == p,
        protocol_label(p) == protocol_label(q) ==> p == q,
        0 <= n <= 5 ==> protocol_code(protocol_of(n)) == n,
        !(0 <= n <= 5) ==> protocol_of(n) == ProtocolType::Unknown,
        protocol_label(ProtocolType::Tcp) == "TCP"@ && protocol_code(ProtocolType::Tcp) == 0,
        protocol_label(ProtocolType::Udp) == "UDP"@ && protocol_code(ProtocolType::Udp) == 1,
        protocol_label(ProtocolType::Mcast) == "MULTICAST"@ && protocol_code(ProtocolType::Mcast)
            == 2,
        protocol_label(ProtocolType::Rtp) == "RTP"@ && protocol_code(ProtocolType::Rtp) == 3,
        protocol_label(ProtocolType::Rtsp) == "RTSP"@ && protocol_code(ProtocolType::Rtsp) == 4,
        protocol_label(ProtocolType::Https) == "HTTPS"@ && protocol_code(ProtocolType::Https) == 5,
        protocol_code(ProtocolType::Unknown) == 99,
{
    reveal_strlit("TCP");
    reveal_strlit("UDP");
    reveal_strlit("MULTICAST");
    reveal_strlit("RTP");
    reveal_strlit("RTSP");
    reveal_strlit("HTTPS");
    reveal_strlit("?");
    let labels = seq!["TCP"@, "UDP"@, "MULTICAST"@, "RTP"@, "RTSP"@, "HTTPS"@, "?"@];
    assert(labels[0].len() == 3 && labels[1].len() == 3 && labels[2].len() == 9 && labels[3].len()
        == 3 && labels[4].len() == 4 && labels[5].len() == 5 && labels[6].len() == 1);
    assert(labels[0][0] == 'T' && labels[1][0] == 'U' && labels[3][0] == 'R');
    assert forall|i: int, j: int| 0 <= i < j < 7 implies labels[i] != labels[j] by {
        if labels[i].len() == labels[j].len() {
            assert(labels[i][0] != labels[j][0]);
        }
    }
    assert(labels[0] != labels[1] && labels[0] != labels[2] && labels[0] != labels[3]
        && labels[0] != labels[4] && labels[0] != labels[5] && labels[0] != labels[6]);
    assert(labels[1] != labels[2] && labels[1] != labels[3] && labels[1] != labels[4]
        && labels[1] != labels[5] && labels[1] != labels[6]);
    assert(labels[2] != labels[3] && labels[2] != labels[4] && labels[2] != labels[5]
        && labels[2] != labels[6]);
    assert(labels[3] != labels[4] && labels[3] != labels[5] && labels[3] != labels[6]);
    assert(labels[4] != labels[5] && labels[4] != labels[6] && labels[5] != labels[6]);
}

} // verus!
