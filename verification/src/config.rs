//! Network configuration: the persisted record and its byte layout.
//!
//! The firmware stores this record in a dedicated Flash sector; this module
//! owns the format and its parsing.
//!
//! Layout of the `Config::LEN` = 77 byte record:
//! `[0..4)` magic, `[4..8)` ip, `[8]` prefix_len, `[9..13)` gateway,
//! `[13..45)` web_user, `[45..77)` web_pass. A string field holds the UTF-8
//! bytes of the text, cut at 32 bytes, followed by zero bytes.
//!
//! Validation is magic-only (no CRC): a wrong magic or an unreadable string
//! field gives `None`, and the caller falls back to `Config::default()`.
use vstd::prelude::*;
use vstd::utf8::{decode_utf8, encode_utf8, valid_utf8};
use crate::fixed::{hstr32_as_str, hstr32_chars, hstr32_clone, hstr32_new, hstr32_try_from};

verus! {

/// Magic guarding the config record. Wrong magic means `Config::default()`.
pub const CONFIG_MAGIC: [u8; 4] = [0xC0, 0x4F, 0x19, 0x1E];

/// Length of a serialized record (the same as `Config::LEN`).
pub const CONFIG_LEN: usize = 77;

/// Network and web-login configuration persisted to Flash.
#[derive(Debug, PartialEq, Eq)]
pub struct Config {
    pub ip: [u8; 4],
    pub prefix_len: u8,
    pub gateway: [u8; 4],
    /// Web dashboard login. Empty user and pass means auth disabled.
    pub web_user: heapless::String<32>,
    pub web_pass: heapless::String<32>,
}

/// A configuration as plain values.
#[verifier::ext_equal]
pub struct ConfigView {
    pub ip: Seq<u8>,
    pub prefix_len: u8,
    pub gateway: Seq<u8>,
    pub web_user: Seq<char>,
    pub web_pass: Seq<char>,
}

impl View for Config {
    type V = ConfigView;

    open spec fn view(&self) -> ConfigView {
        ConfigView {
            ip: self.ip@,
            prefix_len: self.prefix_len,
            gateway: self.gateway@,
            web_user: hstr32_chars(self.web_user),
            web_pass: hstr32_chars(self.web_pass),
        }
    }
}

/// `CONFIG_MAGIC` as a sequence.
pub open spec fn magic_bytes() -> Seq<u8> {
    seq![0xC0u8, 0x4Fu8, 0x19u8, 0x1Eu8]
}

/// The configuration used on a blank or corrupt sector.
pub open spec fn default_view() -> ConfigView {
    ConfigView {
        ip: seq![192u8, 168u8, 1u8, 20u8],
        prefix_len: 24,
        gateway: seq![192u8, 168u8, 1u8, 1u8],
        web_user: Seq::empty(),
        web_pass: Seq::empty(),
    }
}

/// A 32-byte string field: the UTF-8 bytes of `text`, cut at 32 bytes, then
/// zero bytes.
pub open spec fn str_field(text: Seq<char>) -> Seq<u8> {
    let b = encode_utf8(text);
    if b.len() <= 32 {
        b + Seq::new((32 - b.len()) as nat, |i: int| 0u8)
    } else {
        b.take(32)
    }
}

/// The record `to_bytes` writes for a configuration.
pub open spec fn spec_to_bytes(c: ConfigView) -> Seq<u8> {
    magic_bytes() + c.ip + seq![c.prefix_len] + c.gateway + str_field(c.web_user) + str_field(
        c.web_pass,
    )
}

/// Index of the first zero byte of `f`, or its length when it has none.
pub open spec fn first_nul(f: Seq<u8>) -> nat
    decreases f.len(),
{
    if f.len() == 0 {
        0
    } else if f[0] == 0 {
        0
    } else {
        1 + first_nul(f.drop_first())
    }
}

/// The text a string field holds: its bytes up to the first zero, read as
/// UTF-8; None when they are not valid UTF-8 or do not fit in 32 bytes.
pub open spec fn spec_read_str_field(f: Seq<u8>) -> Option<Seq<char>> {
    let t = f.take(first_nul(f) as int);
    if valid_utf8(t) && t.len() <= 32 {
        Some(decode_utf8(t))
    } else {
        None
    }
}

/// The configuration a record holds, as `from_bytes` reads it.
pub open spec fn spec_from_bytes(buf: Seq<u8>) -> Option<ConfigView> {
    if buf.len() < 77 || buf.take(4) != magic_bytes() {
        None
    } else {
        match (
            spec_read_str_field(buf.subrange(13, 45)),
            spec_read_str_field(buf.subrange(45, 77)),
        ) {
            (Some(user), Some(pass)) => Some(
                ConfigView {
                    ip: buf.subrange(4, 8),
                    prefix_len: buf[8],
                    gateway: buf.subrange(9, 13),
                    web_user: user,
                    web_pass: pass,
                },
            ),
            _ => None,
        }
    }
}

/// `core::str::from_utf8`: a string slice of the bytes exactly when they are
/// valid UTF-8 (its `Err` carries only where decoding stopped, which is dropped).
#[verifier::external_body]
fn str_from_utf8(b: &[u8]) -> (res: Option<&str>)
    ensures
        res is Some <==> valid_utf8(b@),
        res matches Some(s) ==> s@ == decode_utf8(b@),
{
    core::str::from_utf8(b).ok()
}

impl Clone for Config {
    fn clone(&self) -> (res: Self)
        ensures
            res@ == self@,
    {
        Config {
            ip: self.ip,
            prefix_len: self.prefix_len,
            gateway: self.gateway,
            web_user: hstr32_clone(&self.web_user),
            web_pass: hstr32_clone(&self.web_pass),
        }
    }
}

impl Default for Config {
    /// Defaults used on a blank or corrupt Flash sector: 192.168.1.20/24 via
    /// 192.168.1.1, no web login.
    fn default() -> (res: Self)
        ensures
            res@ == default_view(),
    {
        let res = Config {
            ip: [192, 168, 1, 20],
            prefix_len: 24,
            gateway: [192, 168, 1, 1],
            web_user: hstr32_new(),
            web_pass: hstr32_new(),
        };
        assert(res.ip@ =~= seq![192u8, 168u8, 1u8, 20u8]);
        assert(res.gateway@ =~= seq![192u8, 168u8, 1u8, 1u8]);
        res
    }
}

/// Writes the bytes of `s` into the 32-byte field of `buf` that starts at
/// `at`: at most 32 of them; the rest of the field keeps its bytes (zeros in a
/// fresh record). Truncates a longer text.
fn write_str_field(buf: &mut [u8; 77], at: usize, s: &str)
    requires
        at + 32 <= 77,
    ensures
        ({
            let b = encode_utf8(s@);
            let n = if b.len() <= 32 {
                b.len() as int
            } else {
                32
            };
            final(buf)@ == old(buf)@.take(at as int) + b.take(n) + old(buf)@.skip(at + n)
        }),
{
    let bytes = s.as_bytes();
    let n = if bytes.len() <= 32 {
        bytes.len()
    } else {
        32
    };
    let ghost old_buf = buf@;
    let mut i: usize = 0;
    while i < n
        invariant
            i <= n <= 32,
            n <= bytes@.len(),
            at + 32 <= 77,
            buf@.len() == 77,
            old_buf.len() == 77,
            buf@ == old_buf.take(at as int) + bytes@.take(i as int) + old_buf.skip(at + i),
        decreases n - i,
    {
        buf[at + i] = bytes[i];
        assert(buf@ =~= old_buf.take(at as int) + bytes@.take(i + 1) + old_buf.skip(at + i + 1));
        i = i + 1;
    }
}

/// Reads a string field: its bytes up to the first zero (or all of them),
/// which must be valid UTF-8 and fit a 32-byte string.
fn read_str_field(field: &[u8]) -> (res: Option<heapless::String<32>>)
    ensures
        match res {
            Some(h) => spec_read_str_field(field@) == Some(hstr32_chars(h)),
            None => spec_read_str_field(field@) is None,
        },
{
    let len = field.len();
    let mut end: usize = 0;
    while end < len && field[end] != 0
        invariant
            end <= len == field@.len(),
            forall|j: int| 0 <= j < end ==> field@[j] != 0,
        decreases len - end,
    {
        end = end + 1;
    }
    proof {
        lemma_first_nul(field@, end as int);
    }
    let text = vstd::slice::slice_subrange(field, 0, end);
    assert(text@ =~= field@.take(end as int));
    match str_from_utf8(text) {
        None => None,
        Some(s) => {
            proof {
                vstd::utf8::decode_utf8_encode_utf8(text@);
            }
            match hstr32_try_from(s) {
                Ok(h) => Some(h),
                Err(_) => None,
            }
        },
    }
}

proof fn lemma_first_nul(f: Seq<u8>, e: int)
    requires
        0 <= e <= f.len(),
        forall|j: int| 0 <= j < e ==> f[j] != 0,
        e == f.len() || f[e] == 0,
    ensures
        first_nul(f) == e,
    decreases e,
{
    if e > 0 {
        lemma_first_nul(f.drop_first(), e - 1);
    }
}

/// No byte of the UTF-8 encoding of a non-NUL character is zero.
proof fn lemma_scalar_bytes_nonzero(s: u32)
    requires
        1 <= s,
        vstd::utf8::is_scalar(s),
    ensures
        forall|j: int|
            0 <= j < vstd::utf8::encode_scalar(s).len() ==> #[trigger] vstd::utf8::encode_scalar(
                s,
            )[j] != 0,
{
    let lead2 = ((s >> 6) & 0x1F) as u8;
    let lead3 = ((s >> 12) & 0x0F) as u8;
    let lead4 = ((s >> 18) & 0x7) as u8;
    let c1 = (s & 0x3F) as u8;
    let c2 = ((s >> 6) & 0x3F) as u8;
    let c3 = ((s >> 12) & 0x3F) as u8;
    assert(0xC0u8 | lead2 != 0) by (bit_vector);
    assert(0xE0u8 | lead3 != 0) by (bit_vector);
    assert(0xF0u8 | lead4 != 0) by (bit_vector);
    assert(0x80u8 | c1 != 0) by (bit_vector);
    assert(0x80u8 | c2 != 0) by (bit_vector);
    assert(0x80u8 | c3 != 0) by (bit_vector);
    assert(1 <= s <= 0x7F ==> (s & 0x7F) as u8 != 0) by (bit_vector);
}

/// A text without NUL characters encodes to bytes without zeros.
proof fn lemma_encode_no_nul(chars: Seq<char>)
    requires
        forall|i: int| 0 <= i < chars.len() ==> chars[i] != '\0',
    ensures
        forall|j: int| 0 <= j < encode_utf8(chars).len() ==> #[trigger] encode_utf8(chars)[j] != 0,
    decreases chars.len(),
{
    if chars.len() > 0 {
        let s = chars[0] as u32;
        vstd::utf8::char_is_scalar(chars[0]);
        assert(s != 0) by {
            vstd::utf8::char_u32_cast(chars[0], s);
            assert(chars[0] != '\0');
        }
        lemma_scalar_bytes_nonzero(s);
        lemma_encode_no_nul(chars.drop_first());
        let head = vstd::utf8::encode_scalar(s);
        let tail = encode_utf8(chars.drop_first());
        assert(encode_utf8(chars) == head + tail);
        assert forall|j: int| 0 <= j < encode_utf8(chars).len() implies #[trigger] encode_utf8(
            chars,
        )[j] != 0 by {
            if j < head.len() {
                assert(encode_utf8(chars)[j] == head[j]);
            } else {
                assert(encode_utf8(chars)[j] == tail[j - head.len()]);
            }
        }
    }
}

impl Config {
    /// Total serialized length in bytes.
    pub const LEN: usize = 77;

    /// Serialize into the fixed-size, magic-prefixed record that the firmware
    /// writes to Flash (layout in the module documentation).
    pub fn to_bytes(&self) -> (res: [u8; 77])
        ensures
            res@ == spec_to_bytes(self@),
    {
        let mut buf = [0u8; 77];
        assert(buf@ =~= Seq::new(77, |i: int| 0u8));
        buf[0] = CONFIG_MAGIC[0];
        buf[1] = CONFIG_MAGIC[1];
        buf[2] = CONFIG_MAGIC[2];
        buf[3] = CONFIG_MAGIC[3];
        buf[4] = self.ip[0];
        buf[5] = self.ip[1];
        buf[6] = self.ip[2];
        buf[7] = self.ip[3];
        buf[8] = self.prefix_len;
        buf[9] = self.gateway[0];
        buf[10] = self.gateway[1];
        buf[11] = self.gateway[2];
        buf[12] = self.gateway[3];
        let ghost head = buf@.take(13);
        assert(head =~= magic_bytes() + self.ip@ + seq![self.prefix_len] + self.gateway@);
        assert(buf@ =~= head + Seq::new(64, |i: int| 0u8));
        let user = hstr32_as_str(&self.web_user);
        write_str_field(&mut buf, 13, user);
        assert(buf@ =~= head + str_field(self@.web_user) + Seq::new(32, |i: int| 0u8));
        let pass = hstr32_as_str(&self.web_pass);
        write_str_field(&mut buf, 45, pass);
        assert(buf@ =~= head + str_field(self@.web_user) + str_field(self@.web_pass));
        buf
    }

    /// Parse a record back. None when it is shorter than `Config::LEN`, when
    /// the magic is wrong (blank or corrupt Flash: the caller uses defaults), or
    /// when a string field is not valid UTF-8.
    pub fn from_bytes(buf: &[u8]) -> (res: Option<Self>)
        ensures
            match res {
                Some(c) => spec_from_bytes(buf@) == Some(c@),
                None => spec_from_bytes(buf@) is None,
            },
    {
        if buf.len() < 77 {
            return None;
        }
        if buf[0] != CONFIG_MAGIC[0] || buf[1] != CONFIG_MAGIC[1] || buf[2] != CONFIG_MAGIC[2]
            || buf[3] != CONFIG_MAGIC[3] {
            assert(buf@.take(4) != magic_bytes()) by {
                if buf@.take(4) == magic_bytes() {
                    assert(buf@.take(4)[0] == buf@[0]);
                    assert(buf@.take(4)[1] == buf@[1]);
                    assert(buf@.take(4)[2] == buf@[2]);
                    assert(buf@.take(4)[3] == buf@[3]);
                }
            }
            return None;
        }
        assert(buf@.take(4) =~= magic_bytes());
        let ip = [buf[4], buf[5], buf[6], buf[7]];
        let prefix_len = buf[8];
        let gateway = [buf[9], buf[10], buf[11], buf[12]];
        let web_user = match read_str_field(vstd::slice::slice_subrange(buf, 13, 45)) {
            Some(h) => h,
            None => {
                return None;
            },
        };
        let web_pass = match read_str_field(vstd::slice::slice_subrange(buf, 45, 77)) {
            Some(h) => h,
            None => {
                return None;
            },
        };
        let res = Config { ip, prefix_len, gateway, web_user, web_pass };
        assert(res@.ip =~= buf@.subrange(4, 8));
        assert(res@.gateway =~= buf@.subrange(9, 13));
        Some(res)
    }
}

/// The configuration in effect at boot: the stored record when it reads
/// back, the defaults on a blank or corrupt sector, so a bad record can
/// never lock the device out.
pub fn load(stored: &[u8]) -> (res: Config)
    ensures
        res@ == (match spec_from_bytes(stored@) {
            Some(c) => c,
            None => default_view(),
        }),
{
    match Config::from_bytes(stored) {
        Some(c) => c,
        None => Config::default(),
    }
}

/// The record follows the documented layout byte by byte: magic `C0 4F 19 1E`,
/// then the ip, the prefix length, the gateway, and each login text's UTF-8
/// bytes followed by zeros up to its 32 bytes.
pub proof fn law_record_layout(c: ConfigView)
    requires
        c.ip.len() == 4,
        c.gateway.len() == 4,
        encode_utf8(c.web_user).len() <= 32,
        encode_utf8(c.web_pass).len() <= 32,
    ensures
        spec_to_bytes(c).len() == 77,
        spec_to_bytes(c).take(4) == seq![0xC0u8, 0x4Fu8, 0x19u8, 0x1Eu8],
        spec_to_bytes(c).subrange(4, 8) == c.ip,
        spec_to_bytes(c)[8] == c.prefix_len,
        spec_to_bytes(c).subrange(9, 13) == c.gateway,
        spec_to_bytes(c).subrange(13, 13 + encode_utf8(c.web_user).len() as int) == encode_utf8(c.web_user),
        forall|k: int| 13 + encode_utf8(c.web_user).len() <= k < 45 ==> spec_to_bytes(c)[k] == 0,
        spec_to_bytes(c).subrange(45, 45 + encode_utf8(c.web_pass).len() as int) == encode_utf8(c.web_pass),
        forall|k: int| 45 + encode_utf8(c.web_pass).len() <= k < 77 ==> spec_to_bytes(c)[k] == 0,
{
    let b = spec_to_bytes(c);
    assert(b.take(4) =~= seq![0xC0u8, 0x4Fu8, 0x19u8, 0x1Eu8]);
    assert(b.subrange(4, 8) =~= c.ip);
    assert(b.subrange(9, 13) =~= c.gateway);
    assert(b.subrange(13, 13 + encode_utf8(c.web_user).len() as int) =~= encode_utf8(c.web_user));
    assert(b.subrange(45, 45 + encode_utf8(c.web_pass).len() as int) =~= encode_utf8(c.web_pass));
}

/// A string field reads as the text whose UTF-8 encoding is the field's
/// bytes up to its first zero byte (all of them when it has none); when those
/// bytes are not valid UTF-8 the field does not read.
pub proof fn law_str_field_read(f: Seq<u8>, k: int)
    requires
        f.len() <= 32,
        0 <= k <= f.len(),
        forall|j: int| 0 <= j < k ==> f[j] != 0,
        k == f.len() || f[k] == 0,
    ensures
        spec_read_str_field(f) is Some <==> valid_utf8(f.take(k)),
        spec_read_str_field(f) matches Some(t) ==> encode_utf8(t) == f.take(k),
{
    lemma_first_nul(f, k);
    if valid_utf8(f.take(k)) {
        vstd::utf8::decode_utf8_encode_utf8(f.take(k));
    }
}

/// Reading a record takes every field from its place in the layout: the ip
/// from bytes 4-7, the prefix length from byte 8, the gateway from bytes 9-12.
pub proof fn law_record_fields_read(buf: Seq<u8>)
    requires
        spec_from_bytes(buf) is Some,
    ensures
        buf.len() >= 77,
        buf[0] == 0xC0 && buf[1] == 0x4F && buf[2] == 0x19 && buf[3] == 0x1E,
        spec_from_bytes(buf).unwrap().ip == seq![buf[4], buf[5], buf[6], buf[7]],
        spec_from_bytes(buf).unwrap().prefix_len == buf[8],
        spec_from_bytes(buf).unwrap().gateway == seq![buf[9], buf[10], buf[11], buf[12]],
{
    assert(buf.take(4)[0] == buf[0] && buf.take(4)[1] == buf[1] && buf.take(4)[2] == buf[2]
        && buf.take(4)[3] == buf[3]);
    assert(buf.subrange(4, 8) =~= seq![buf[4], buf[5], buf[6], buf[7]]);
    assert(buf.subrange(9, 13) =~= seq![buf[9], buf[10], buf[11], buf[12]]);
}

/// Reading back a written record gives the same configuration, for every
/// configuration whose login texts fit their 32-byte fields and hold no NUL
/// character (a NUL would end the text early on reading).
pub proof fn law_config_round_trip(c: ConfigView)
    requires
        c.ip.len() == 4,
        c.gateway.len() == 4,
        encode_utf8(c.web_user).len() <= 32,
        encode_utf8(c.web_pass).len() <= 32,
        forall|i: int| 0 <= i < c.web_user.len() ==> c.web_user[i] != '\0',
        forall|i: int| 0 <= i < c.web_pass.len() ==> c.web_pass[i] != '\0',
    ensures
        spec_from_bytes(spec_to_bytes(c)) == Some(c),
{
    let b = spec_to_bytes(c);
    lemma_field_round_trip(c.web_user);
    lemma_field_round_trip(c.web_pass);
    assert(b.take(4) =~= magic_bytes());
    assert(b.subrange(13, 45) =~= str_field(c.web_user));
    assert(b.subrange(45, 77) =~= str_field(c.web_pass));
    assert(b.subrange(4, 8) =~= c.ip);
    assert(b.subrange(9, 13) =~= c.gateway);
}

/// A string field reads back as the text written into it, when the text fits
/// and holds no NUL.
proof fn lemma_field_round_trip(t: Seq<char>)
    requires
        encode_utf8(t).len() <= 32,
        forall|i: int| 0 <= i < t.len() ==> t[i] != '\0',
    ensures
        spec_read_str_field(str_field(t)) == Some(t),
{
    let e = encode_utf8(t);
    let f = str_field(t);
    lemma_encode_no_nul(t);
    assert forall|j: int| 0 <= j < e.len() implies f[j] != 0 by {
        assert(f[j] == e[j]);
    }
    lemma_first_nul(f, e.len() as int);
    assert(f.take(e.len() as int) =~= e);
    vstd::utf8::encode_utf8_valid_utf8(t);
    vstd::utf8::encode_utf8_decode_utf8(t);
}

} // verus!
