//! Persistent configuration and its flash encoding.
//!
//! Layout of the 60-byte version-2 record (one flash erase sector holds it):
//!
//! | bytes    | content                                        |
//! |----------|------------------------------------------------|
//! | 0        | magic byte 0xAE                                |
//! | 1        | layout version (0x02)                          |
//! | 2        | flags, bit 0 = static IP enabled               |
//! | 3..7     | static IPv4 address                            |
//! | 7..23    | az/el calibration offsets, park az/el (f32 LE) |
//! | 23       | calibration flags, bit 0 = calibration valid   |
//! | 24..56   | az/el raw and degree reference points (f32 LE) |
//! | 56..59   | reserved, zero                                 |
//! | 59       | CRC-8/CCITT of bytes 0..59                     |
//!
//! A version-1 record is the first 24 bytes of that layout with its CRC at
//! byte 23; it is migrated with the calibration cleared.
//!
//! Angles and raw readings are single-precision values; the library keeps
//! each one as its IEEE-754 bit pattern (`f32::to_bits`), which is exactly
//! what the flash record stores, so every value survives a round trip
//! bit for bit.

use vstd::prelude::*;
use crate::crc8::{
    crc8, crc8_valid, crc8_ccitt_buffer, crc8_ccitt_validate, lemma_crc8_append_valid,
    lemma_crc8_detects_byte_change,
};

verus! {

pub const CONFIG_MAGIC: u8 = 0xAE;
pub const CONFIG_VERSION: u8 = 0x02;
pub const CONFIG_VERSION_V1: u8 = 0x01;
pub const CONFIG_SIZE: usize = 60;
pub const CONFIG_SIZE_V1: usize = 24;
pub const FLAG_STATIC_IP_ENABLED: u8 = 0x01;
pub const FLAG_CALIBRATION_VALID: u8 = 0x01;

/// Bit pattern of the single-precision value 180.0.
pub const PARK_AZ_DEFAULT_BITS: u32 = 0x4334_0000;
/// Bit pattern of the single-precision value 0.0.
pub const ZERO_BITS: u32 = 0;

/// Device configuration. Every angle, offset and raw ADC reading is held as
/// the bit pattern of its single-precision value.
#[derive(Clone, Copy, Debug, PartialEq, Eq)]
pub struct Config {
    pub static_ip_enabled: bool,
    pub static_ip: [u8; 4],
    pub az_cal_offset: u32,
    pub el_cal_offset: u32,
    pub park_az: u32,
    pub park_el: u32,
    pub calibration_valid: bool,
    pub az_raw_low: u32,
    pub az_raw_high: u32,
    pub el_raw_low: u32,
    pub el_raw_high: u32,
    pub az_deg_low: u32,
    pub az_deg_high: u32,
    pub el_deg_low: u32,
    pub el_deg_high: u32,
}

/// Little-endian bytes of a 32-bit word.
pub open spec fn le32(x: u32) -> Seq<u8> {
    seq![
        (x & 0xff) as u8,
        ((x >> 8u32) & 0xff) as u8,
        ((x >> 16u32) & 0xff) as u8,
        ((x >> 24u32) & 0xff) as u8,
    ]
}

/// The 32-bit word whose little-endian bytes are `b0, b1, b2, b3`.
pub open spec fn from_le32(b0: u8, b1: u8, b2: u8, b3: u8) -> u32 {
    (b0 as u32) | ((b1 as u32) << 8u32) | ((b2 as u32) << 16u32) | ((b3 as u32) << 24u32)
}

/// The little-endian word stored at bytes `i..i + 4` of `b`.
pub open spec fn le32_at(b: Seq<u8>, i: int) -> u32 {
    from_le32(b[i], b[i + 1], b[i + 2], b[i + 3])
}

pub open spec fn flag_byte(on: bool) -> u8 {
    if on { 0x01 } else { 0x00 }
}

pub open spec fn flag_set(b: u8) -> bool {
    b & 0x01u8 != 0
}

/// Bytes 0..59 of the version-2 record of `c`.
pub open spec fn config_payload(c: Config) -> Seq<u8> {
    seq![CONFIG_MAGIC, CONFIG_VERSION, flag_byte(c.static_ip_enabled)]
        + c.static_ip@
        + le32(c.az_cal_offset)
        + le32(c.el_cal_offset)
        + le32(c.park_az)
        + le32(c.park_el)
        + seq![flag_byte(c.calibration_valid)]
        + le32(c.az_raw_low)
        + le32(c.az_raw_high)
        + le32(c.el_raw_low)
        + le32(c.el_raw_high)
        + le32(c.az_deg_low)
        + le32(c.az_deg_high)
        + le32(c.el_deg_low)
        + le32(c.el_deg_high)
        + seq![0u8, 0u8, 0u8]
}

/// The full 60-byte version-2 record of `c`: the payload followed by its CRC.
pub open spec fn config_encoding(c: Config) -> Seq<u8> {
    config_payload(c).push(crc8(config_payload(c)))
}

/// The fields that version 1 and version 2 records share.
pub open spec fn base_fields_match(b: Seq<u8>, c: Config) -> bool {
    &&& c.static_ip_enabled == flag_set(b[2])
    &&& c.static_ip@ == b.subrange(3, 7)
    &&& c.az_cal_offset == le32_at(b, 7)
    &&& c.el_cal_offset == le32_at(b, 11)
    &&& c.park_az == le32_at(b, 15)
    &&& c.park_el == le32_at(b, 19)
}

/// `c` is what a version-2 record `b` holds.
pub open spec fn decodes_v2_to(b: Seq<u8>, c: Config) -> bool {
    &&& base_fields_match(b, c)
    &&& c.calibration_valid == flag_set(b[23])
    &&& c.az_raw_low == le32_at(b, 24)
    &&& c.az_raw_high == le32_at(b, 28)
    &&& c.el_raw_low == le32_at(b, 32)
    &&& c.el_raw_high == le32_at(b, 36)
    &&& c.az_deg_low == le32_at(b, 40)
    &&& c.az_deg_high == le32_at(b, 44)
    &&& c.el_deg_low == le32_at(b, 48)
    &&& c.el_deg_high == le32_at(b, 52)
}

/// All calibration fields are cleared: not valid, every reference point 0.0.
pub open spec fn calibration_cleared(c: Config) -> bool {
    &&& !c.calibration_valid
    &&& c.az_raw_low == ZERO_BITS
    &&& c.az_raw_high == ZERO_BITS
    &&& c.el_raw_low == ZERO_BITS
    &&& c.el_raw_high == ZERO_BITS
    &&& c.az_deg_low == ZERO_BITS
    &&& c.az_deg_high == ZERO_BITS
    &&& c.el_deg_low == ZERO_BITS
    &&& c.el_deg_high == ZERO_BITS
}

/// `c` is the migration of a version-1 record `b`.
pub open spec fn decodes_v1_to(b: Seq<u8>, c: Config) -> bool {
    &&& base_fields_match(b, c)
    &&& calibration_cleared(c)
}

/// Whether a 60-byte flash image holds a record that decoding accepts.
pub open spec fn config_accepted(b: Seq<u8>) -> bool {
    &&& b[0] == CONFIG_MAGIC
    &&& (b[1] == CONFIG_VERSION_V1 && crc8_valid(b.take(CONFIG_SIZE_V1 as int))
        || b[1] == CONFIG_VERSION && crc8_valid(b))
}

/// `c` is what decoding the accepted image `b` yields.
pub open spec fn decodes_to(b: Seq<u8>, c: Config) -> bool {
    if b[1] == CONFIG_VERSION_V1 {
        decodes_v1_to(b, c)
    } else {
        decodes_v2_to(b, c)
    }
}

/// The factory configuration.
pub open spec fn default_config() -> Config {
    Config {
        static_ip_enabled: false,
        static_ip: [192u8, 168u8, 1u8, 100u8],
        az_cal_offset: ZERO_BITS,
        el_cal_offset: ZERO_BITS,
        park_az: PARK_AZ_DEFAULT_BITS,
        park_el: ZERO_BITS,
        calibration_valid: false,
        az_raw_low: ZERO_BITS,
        az_raw_high: ZERO_BITS,
        el_raw_low: ZERO_BITS,
        el_raw_high: ZERO_BITS,
        az_deg_low: ZERO_BITS,
        az_deg_high: ZERO_BITS,
        el_deg_low: ZERO_BITS,
        el_deg_high: ZERO_BITS,
    }
}

pub proof fn lemma_le32_round_trip(x: u32)
    ensures
        from_le32(le32(x)[0], le32(x)[1], le32(x)[2], le32(x)[3]) == x,
{
    assert(((x & 0xff) as u8 as u32) | ((((x >> 8u32) & 0xff) as u8 as u32) << 8u32)
        | ((((x >> 16u32) & 0xff) as u8 as u32) << 16u32)
        | ((((x >> 24u32) & 0xff) as u8 as u32) << 24u32) == x) by (bit_vector);
}

fn le32_bytes(x: u32) -> (r: [u8; 4])
    ensures
        r@ == le32(x),
{
    let r = [
        (x & 0xff) as u8,
        ((x >> 8u32) & 0xff) as u8,
        ((x >> 16u32) & 0xff) as u8,
        ((x >> 24u32) & 0xff) as u8,
    ];
    assert(r@ =~= le32(x));
    r
}

fn le32_read(b: &[u8; 60], i: usize) -> (r: u32)
    requires
        i + 4 <= 60,
    ensures
        r == le32_at(b@, i as int),
{
    (b[i] as u32) | ((b[i + 1] as u32) << 8u32) | ((b[i + 2] as u32) << 16u32) | ((b[i + 3] as u32)
        << 24u32)
}

impl Config {
    /// The factory configuration: DHCP only (static fallback 192.168.1.100),
    /// park at 180° azimuth and 0° elevation, no offsets, uncalibrated.
    pub fn default() -> (c: Self)
        ensures
            c == default_config(),
    {
        Config {
            static_ip_enabled: false,
            static_ip: [192, 168, 1, 100],
            az_cal_offset: ZERO_BITS,
            el_cal_offset: ZERO_BITS,
            park_az: PARK_AZ_DEFAULT_BITS,
            park_el: ZERO_BITS,
            calibration_valid: false,
            az_raw_low: ZERO_BITS,
            az_raw_high: ZERO_BITS,
            el_raw_low: ZERO_BITS,
            el_raw_high: ZERO_BITS,
            az_deg_low: ZERO_BITS,
            az_deg_high: ZERO_BITS,
            el_deg_low: ZERO_BITS,
            el_deg_high: ZERO_BITS,
        }
    }

    /// The 60-byte version-2 flash record of this configuration: magic,
    /// version, fields in little-endian order, three zero bytes and the CRC.
    pub fn to_bytes(&self) -> (buf: [u8; 60])
        ensures
            buf@ == config_encoding(*self),
    {
        let ip = self.static_ip;
        let a = le32_bytes(self.az_cal_offset);
        let b = le32_bytes(self.el_cal_offset);
        let c = le32_bytes(self.park_az);
        let d = le32_bytes(self.park_el);
        let e = le32_bytes(self.az_raw_low);
        let f = le32_bytes(self.az_raw_high);
        let g = le32_bytes(self.el_raw_low);
        let h = le32_bytes(self.el_raw_high);
        let j = le32_bytes(self.az_deg_low);
        let k = le32_bytes(self.az_deg_high);
        let l = le32_bytes(self.el_deg_low);
        let m = le32_bytes(self.el_deg_high);
        let sip = if self.static_ip_enabled { FLAG_STATIC_IP_ENABLED } else { 0 };
        let cal = if self.calibration_valid { FLAG_CALIBRATION_VALID } else { 0 };
        let mut buf: [u8; 60] = [
            CONFIG_MAGIC, CONFIG_VERSION, sip,
            ip[0], ip[1], ip[2], ip[3],
            a[0], a[1], a[2], a[3],
            b[0], b[1], b[2], b[3],
            c[0], c[1], c[2], c[3],
            d[0], d[1], d[2], d[3],
            cal,
            e[0], e[1], e[2], e[3],
            f[0], f[1], f[2], f[3],
            g[0], g[1], g[2], g[3],
            h[0], h[1], h[2], h[3],
            j[0], j[1], j[2], j[3],
            k[0], k[1], k[2], k[3],
            l[0], l[1], l[2], l[3],
            m[0], m[1], m[2], m[3],
            0, 0, 0,
            0,
        ];
        let ghost payload = config_payload(*self);
        assert(buf@.take(59) =~= payload);
        let crc = crc8_ccitt_buffer(&buf[0..59]);
        buf[59] = crc;
        assert(buf@ =~= payload.push(crc8(payload)));
        buf
    }

    /// Decode a 60-byte flash image. `None` unless byte 0 is the magic byte
    /// and either byte 1 is 1 and the first 24 bytes are a valid version-1
    /// record, or byte 1 is 2 and all 60 bytes are a valid version-2 record.
    pub fn from_bytes(buf: &[u8; 60]) -> (r: Option<Self>)
        ensures
            r is Some <==> config_accepted(buf@),
            r matches Some(c) ==> decodes_to(buf@, c),
    {
        if buf[0] != CONFIG_MAGIC {
            return None;
        }
        if buf[1] == CONFIG_VERSION_V1 {
            Self::from_bytes_v1(buf)
        } else if buf[1] == CONFIG_VERSION {
            Self::from_bytes_v2(buf)
        } else {
            None
        }
    }

    /// Decode a version-2 record, checking its CRC over all 60 bytes.
    fn from_bytes_v2(buf: &[u8; 60]) -> (r: Option<Self>)
        ensures
            r is Some <==> crc8_valid(buf@),
            r matches Some(c) ==> decodes_v2_to(buf@, c),
    {
        if !crc8_ccitt_validate(buf.as_slice()) {
            return None;
        }
        let c = Config {
            static_ip_enabled: (buf[2] & FLAG_STATIC_IP_ENABLED) != 0,
            static_ip: [buf[3], buf[4], buf[5], buf[6]],
            az_cal_offset: le32_read(buf, 7),
            el_cal_offset: le32_read(buf, 11),
            park_az: le32_read(buf, 15),
            park_el: le32_read(buf, 19),
            calibration_valid: (buf[23] & FLAG_CALIBRATION_VALID) != 0,
            az_raw_low: le32_read(buf, 24),
            az_raw_high: le32_read(buf, 28),
            el_raw_low: le32_read(buf, 32),
            el_raw_high: le32_read(buf, 36),
            az_deg_low: le32_read(buf, 40),
            az_deg_high: le32_read(buf, 44),
            el_deg_low: le32_read(buf, 48),
            el_deg_high: le32_read(buf, 52),
        };
        assert(c.static_ip@ =~= buf@.subrange(3, 7));
        Some(c)
    }

    /// Migrate a version-1 record: its CRC covers the first 24 bytes only,
    /// the shared fields are kept and the calibration is cleared.
    pub fn from_bytes_v1(buf: &[u8; 60]) -> (r: Option<Self>)
        ensures
            r is Some <==> crc8_valid(buf@.take(24)),
            r matches Some(c) ==> decodes_v1_to(buf@, c),
    {
        let head = &buf.as_slice()[0..CONFIG_SIZE_V1];
        assert(head@ =~= buf@.take(24));
        if !crc8_ccitt_validate(head) {
            return None;
        }
        let c = Config {
            static_ip_enabled: (buf[2] & FLAG_STATIC_IP_ENABLED) != 0,
            static_ip: [buf[3], buf[4], buf[5], buf[6]],
            az_cal_offset: le32_read(buf, 7),
            el_cal_offset: le32_read(buf, 11),
            park_az: le32_read(buf, 15),
            park_el: le32_read(buf, 19),
            calibration_valid: false,
            az_raw_low: ZERO_BITS,
            az_raw_high: ZERO_BITS,
            el_raw_low: ZERO_BITS,
            el_raw_high: ZERO_BITS,
            az_deg_low: ZERO_BITS,
            az_deg_high: ZERO_BITS,
            el_deg_low: ZERO_BITS,
            el_deg_high: ZERO_BITS,
        };
        assert(c.static_ip@ =~= buf@.subrange(3, 7));
        Some(c)
    }
}


/// The 24-byte version-1 record that holds the shared fields of `c`.
pub open spec fn config_v1_encoding(c: Config) -> Seq<u8> {
    let p = seq![CONFIG_MAGIC, CONFIG_VERSION_V1, flag_byte(c.static_ip_enabled)]
        + c.static_ip@
        + le32(c.az_cal_offset)
        + le32(c.el_cal_offset)
        + le32(c.park_az)
        + le32(c.park_el);
    p.push(crc8(p))
}

proof fn lemma_le32_at_of(s: Seq<u8>, i: int, x: u32)
    requires
        0 <= i,
        i + 4 <= s.len(),
        s.subrange(i, i + 4) == le32(x),
    ensures
        le32_at(s, i) == x,
{
    assert(s[i] == s.subrange(i, i + 4)[0]);
    assert(s[i + 1] == s.subrange(i, i + 4)[1]);
    assert(s[i + 2] == s.subrange(i, i + 4)[2]);
    assert(s[i + 3] == s.subrange(i, i + 4)[3]);
    lemma_le32_round_trip(x);
}

proof fn lemma_flag_round_trip(on: bool)
    ensures
        flag_set(flag_byte(on)) == on,
{
    assert(0x01u8 & 0x01u8 != 0) by (bit_vector);
    assert(0x00u8 & 0x01u8 == 0) by (bit_vector);
}

/// Decoding is a function: an image decodes to at most one configuration.
pub proof fn lemma_decoding_unique(b: Seq<u8>, c1: Config, c2: Config)
    requires
        b.len() == CONFIG_SIZE,
        decodes_to(b, c1),
        decodes_to(b, c2),
    ensures
        c1 == c2,
{
    assert(c1.static_ip =~= c2.static_ip) by {
        assert forall|i: int| 0 <= i < 4 implies c1.static_ip[i] == c2.static_ip[i] by {
            assert(c1.static_ip@[i] == b.subrange(3, 7)[i]);
        }
    }
}

/// Round trip: the record that `to_bytes` writes is accepted by `from_bytes`,
/// carries version 2 and a valid CRC, and decodes to exactly the
/// configuration that was written.
pub proof fn lemma_config_round_trip(c: Config)
    ensures
        config_encoding(c).len() == CONFIG_SIZE,
        config_encoding(c)[1] == CONFIG_VERSION,
        crc8_valid(config_encoding(c)),
        config_accepted(config_encoding(c)),
        decodes_to(config_encoding(c), c),
        forall|d: Config| decodes_to(config_encoding(c), d) ==> d == c,
{
    let p = config_payload(c);
    let b = config_encoding(c);
    assert(p.len() == 59);
    assert(b.drop_last() =~= p);
    lemma_flag_round_trip(c.static_ip_enabled);
    lemma_flag_round_trip(c.calibration_valid);
    assert(b.subrange(3, 7) =~= c.static_ip@);
    assert(b.subrange(7, 11) =~= le32(c.az_cal_offset));
    assert(b.subrange(11, 15) =~= le32(c.el_cal_offset));
    assert(b.subrange(15, 19) =~= le32(c.park_az));
    assert(b.subrange(19, 23) =~= le32(c.park_el));
    assert(b.subrange(24, 28) =~= le32(c.az_raw_low));
    assert(b.subrange(28, 32) =~= le32(c.az_raw_high));
    assert(b.subrange(32, 36) =~= le32(c.el_raw_low));
    assert(b.subrange(36, 40) =~= le32(c.el_raw_high));
    assert(b.subrange(40, 44) =~= le32(c.az_deg_low));
    assert(b.subrange(44, 48) =~= le32(c.az_deg_high));
    assert(b.subrange(48, 52) =~= le32(c.el_deg_low));
    assert(b.subrange(52, 56) =~= le32(c.el_deg_high));
    lemma_le32_at_of(b, 7, c.az_cal_offset);
    lemma_le32_at_of(b, 11, c.el_cal_offset);
    lemma_le32_at_of(b, 15, c.park_az);
    lemma_le32_at_of(b, 19, c.park_el);
    lemma_le32_at_of(b, 24, c.az_raw_low);
    lemma_le32_at_of(b, 28, c.az_raw_high);
    lemma_le32_at_of(b, 32, c.el_raw_low);
    lemma_le32_at_of(b, 36, c.el_raw_high);
    lemma_le32_at_of(b, 40, c.az_deg_low);
    lemma_le32_at_of(b, 44, c.az_deg_high);
    lemma_le32_at_of(b, 48, c.el_deg_low);
    lemma_le32_at_of(b, 52, c.el_deg_high);
    assert(decodes_to(b, c));
    assert forall|d: Config| decodes_to(b, d) implies d == c by {
        lemma_decoding_unique(b, d, c);
    }
}

/// Migration: a 60-byte image that starts with a valid version-1 record of
/// `c`, whatever its remaining 36 bytes hold, is accepted and decodes to `c`
/// with its shared fields kept and its calibration cleared.
pub proof fn lemma_config_v1_migration(c: Config, b: Seq<u8>)
    requires
        b.len() == CONFIG_SIZE,
        b.take(CONFIG_SIZE_V1 as int) == config_v1_encoding(c),
    ensures
        config_accepted(b),
        forall|d: Config|
            decodes_to(b, d) <==> {
                &&& d.static_ip_enabled == c.static_ip_enabled
                &&& d.static_ip == c.static_ip
                &&& d.az_cal_offset == c.az_cal_offset
                &&& d.el_cal_offset == c.el_cal_offset
                &&& d.park_az == c.park_az
                &&& d.park_el == c.park_el
                &&& calibration_cleared(d)
            },
{
    let v = config_v1_encoding(c);
    let p = seq![CONFIG_MAGIC, CONFIG_VERSION_V1, flag_byte(c.static_ip_enabled)]
        + c.static_ip@
        + le32(c.az_cal_offset)
        + le32(c.el_cal_offset)
        + le32(c.park_az)
        + le32(c.park_el);
    assert(v.drop_last() =~= p);
    assert(v.len() == 24);
    assert(crc8_valid(v));
    assert forall|i: int| 0 <= i < 24 implies b[i] == v[i] by {
        assert(b.take(24)[i] == b[i]);
    }
    lemma_flag_round_trip(c.static_ip_enabled);
    assert(b.subrange(3, 7) =~= c.static_ip@);
    assert(b.subrange(7, 11) =~= le32(c.az_cal_offset));
    assert(b.subrange(11, 15) =~= le32(c.el_cal_offset));
    assert(b.subrange(15, 19) =~= le32(c.park_az));
    assert(b.subrange(19, 23) =~= le32(c.park_el));
    lemma_le32_at_of(b, 7, c.az_cal_offset);
    lemma_le32_at_of(b, 11, c.el_cal_offset);
    lemma_le32_at_of(b, 15, c.park_az);
    lemma_le32_at_of(b, 19, c.park_el);
    assert forall|d: Config|
        decodes_to(b, d) <==> {
            &&& d.static_ip_enabled == c.static_ip_enabled
            &&& d.static_ip == c.static_ip
            &&& d.az_cal_offset == c.az_cal_offset
            &&& d.el_cal_offset == c.el_cal_offset
            &&& d.park_az == c.park_az
            &&& d.park_el == c.park_el
            &&& calibration_cleared(d)
        } by {
        if d.static_ip == c.static_ip {
        }
        if d.static_ip@ == b.subrange(3, 7) {
            assert(d.static_ip =~= c.static_ip);
        }
    }
}

/// Only versions 1 and 2 are understood: an image with the magic byte but
/// any other version byte, or without the magic byte, is rejected.
pub proof fn lemma_config_rejects_unknown(b: Seq<u8>)
    requires
        b.len() == CONFIG_SIZE,
        b[0] != CONFIG_MAGIC || (b[1] != CONFIG_VERSION_V1 && b[1] != CONFIG_VERSION),
    ensures
        !config_accepted(b),
{
}


/// Every single-bit corruption of a stored record is rejected: flipping any
/// one bit of the 60-byte record that `to_bytes` writes (magic, version,
/// payload, reserved bytes or the CRC itself) gives an image that decoding
/// refuses, never some other configuration.
pub proof fn lemma_config_single_bit_corruption(c: Config, i: int, k: u8)
    requires
        0 <= i < CONFIG_SIZE,
        k < 8,
    ensures
        !config_accepted(
            config_encoding(c).update(i, config_encoding(c)[i] ^ (1u8 << k)),
        ),
{
    lemma_config_round_trip(c);
    let b = config_encoding(c);
    let v = b[i] ^ (1u8 << k);
    let b2 = b.update(i, v);
    let x = b[i];
    assert(k < 8 ==> x ^ (1u8 << k) != x) by (bit_vector);
    assert(k < 8 ==> (2u8 ^ (1u8 << k)) != 1u8 && (2u8 ^ (1u8 << k)) != 2u8) by (bit_vector);
    assert(b[0] == CONFIG_MAGIC);
    if i == 0 {
        assert(b2[0] != CONFIG_MAGIC);
    } else if i == 1 {
        assert(b2[1] != CONFIG_VERSION_V1 && b2[1] != CONFIG_VERSION);
    } else {
        assert(b2[1] == CONFIG_VERSION);
        if i < 59 {
            assert(b2.drop_last() =~= b.drop_last().update(i, v));
            lemma_crc8_detects_byte_change(b.drop_last(), i, v);
            assert(b2.last() == b.last());
        } else {
            assert(b2.drop_last() =~= b.drop_last());
            assert(b2.last() != b.last());
        }
        assert(!crc8_valid(b2));
    }
}

proof fn lemma_le32_of_at(b: Seq<u8>, i: int)
    requires
        0 <= i,
        i + 4 <= b.len(),
    ensures
        le32(le32_at(b, i)) == b.subrange(i, i + 4),
{
    let (b0, b1, b2, b3) = (b[i], b[i + 1], b[i + 2], b[i + 3]);
    let x = from_le32(b0, b1, b2, b3);
    assert((((b0 as u32) | ((b1 as u32) << 8u32) | ((b2 as u32) << 16u32) | ((b3 as u32) << 24u32))
        & 0xff) as u8 == b0) by (bit_vector);
    assert(((((b0 as u32) | ((b1 as u32) << 8u32) | ((b2 as u32) << 16u32) | ((b3 as u32)
        << 24u32)) >> 8u32) & 0xff) as u8 == b1) by (bit_vector);
    assert(((((b0 as u32) | ((b1 as u32) << 8u32) | ((b2 as u32) << 16u32) | ((b3 as u32)
        << 24u32)) >> 16u32) & 0xff) as u8 == b2) by (bit_vector);
    assert(((((b0 as u32) | ((b1 as u32) << 8u32) | ((b2 as u32) << 16u32) | ((b3 as u32)
        << 24u32)) >> 24u32) & 0xff) as u8 == b3) by (bit_vector);
    assert(le32(x) =~= b.subrange(i, i + 4));
}

/// A canonical version-2 image (flag bytes 0 or 1, reserved bytes zero) that
/// decoding accepts is, byte for byte, the record `to_bytes` writes for the
/// configuration it decodes to.
pub proof fn lemma_config_canonical_image(b: Seq<u8>, c: Config)
    requires
        b.len() == CONFIG_SIZE,
        b[1] == CONFIG_VERSION,
        b[2] <= 1,
        b[23] <= 1,
        b[56] == 0,
        b[57] == 0,
        b[58] == 0,
        config_accepted(b),
        decodes_to(b, c),
    ensures
        config_encoding(c) == b,
{
    let f2 = b[2];
    let f23 = b[23];
    assert(f2 <= 1 ==> (if f2 & 0x01u8 != 0 { 0x01u8 } else { 0x00u8 }) == f2) by (bit_vector);
    assert(f23 <= 1 ==> (if f23 & 0x01u8 != 0 { 0x01u8 } else { 0x00u8 }) == f23) by (bit_vector);
    lemma_le32_of_at(b, 7);
    lemma_le32_of_at(b, 11);
    lemma_le32_of_at(b, 15);
    lemma_le32_of_at(b, 19);
    lemma_le32_of_at(b, 24);
    lemma_le32_of_at(b, 28);
    lemma_le32_of_at(b, 32);
    lemma_le32_of_at(b, 36);
    lemma_le32_of_at(b, 40);
    lemma_le32_of_at(b, 44);
    lemma_le32_of_at(b, 48);
    lemma_le32_of_at(b, 52);
    let p = b.drop_last();
    assert(p =~= seq![b[0], b[1], b[2]] + b.subrange(3, 7) + b.subrange(7, 11) + b.subrange(11, 15)
        + b.subrange(15, 19) + b.subrange(19, 23) + seq![b[23]] + b.subrange(24, 28) + b.subrange(
        28,
        32,
    ) + b.subrange(32, 36) + b.subrange(36, 40) + b.subrange(40, 44) + b.subrange(44, 48)
        + b.subrange(48, 52) + b.subrange(52, 56) + seq![0u8, 0u8, 0u8]);
    assert(config_payload(c) =~= p);
    assert(config_encoding(c) =~= b);
}

/// A version-1 image is read from its first 24 bytes alone: two 60-byte
/// images that agree there are both accepted or both refused, decode to the
/// same configurations, and every such configuration has its calibration
/// cleared.
pub proof fn lemma_config_v1_ignores_tail(b1: Seq<u8>, b2: Seq<u8>)
    requires
        b1.len() == CONFIG_SIZE,
        b2.len() == CONFIG_SIZE,
        b1[1] == CONFIG_VERSION_V1,
        b1.take(CONFIG_SIZE_V1 as int) == b2.take(CONFIG_SIZE_V1 as int),
    ensures
        config_accepted(b1) == config_accepted(b2),
        forall|c: Config| decodes_to(b1, c) <==> decodes_to(b2, c),
        forall|c: Config| decodes_to(b1, c) ==> calibration_cleared(c),
{
    assert forall|i: int| 0 <= i < 24 implies b1[i] == b2[i] by {
        assert(b1.take(24)[i] == b2.take(24)[i]);
    }
    assert(b1.subrange(3, 7) =~= b2.subrange(3, 7));
}

/// Decoding a version-1 record reads its first 24 bytes only: two images
/// that agree there are both accepted or both refused, decode to one and
/// the same configuration, bit for bit, and that configuration has its
/// calibration cleared (not valid, all eight reference values 0.0).
pub proof fn lemma_v1_decode_reads_head(b1: Seq<u8>, b2: Seq<u8>, c1: Config, c2: Config)
    requires
        b1.len() == CONFIG_SIZE,
        b2.len() == CONFIG_SIZE,
        b1.take(CONFIG_SIZE_V1 as int) == b2.take(CONFIG_SIZE_V1 as int),
    ensures
        crc8_valid(b1.take(CONFIG_SIZE_V1 as int)) == crc8_valid(b2.take(CONFIG_SIZE_V1 as int)),
        decodes_v1_to(b1, c1) <==> decodes_v1_to(b2, c1),
        decodes_v1_to(b1, c1) && decodes_v1_to(b2, c2) ==> c1 == c2,
        decodes_v1_to(b1, c1) ==> calibration_cleared(c1),
{
    assert forall|i: int| 0 <= i < 24 implies b1[i] == b2[i] by {
        assert(b1.take(24)[i] == b2.take(24)[i]);
    }
    assert(b1.subrange(3, 7) =~= b2.subrange(3, 7));
    if decodes_v1_to(b1, c1) && decodes_v1_to(b2, c2) {
        assert(c1.static_ip =~= c2.static_ip) by {
            assert forall|i: int| 0 <= i < 4 implies c1.static_ip[i] == c2.static_ip[i] by {
                assert(c1.static_ip@[i] == b1.subrange(3, 7)[i]);
                assert(c2.static_ip@[i] == b2.subrange(3, 7)[i]);
            }
        }
    }
}

/// The fields outside the calibration are equal.
pub open spec fn same_settings(a: Config, b: Config) -> bool {
    &&& a.static_ip_enabled == b.static_ip_enabled
    &&& a.static_ip == b.static_ip
    &&& a.az_cal_offset == b.az_cal_offset
    &&& a.el_cal_offset == b.el_cal_offset
    &&& a.park_az == b.park_az
    &&& a.park_el == b.park_el
}

/// What loading yields from the outcome of reading the flash record: the
/// decoded record when the read succeeded and the image is accepted, the
/// factory configuration otherwise.
pub open spec fn loaded_config(read: Option<Seq<u8>>, c: Config) -> bool {
    match read {
        Some(b) => if config_accepted(b) {
            decodes_to(b, c)
        } else {
            c == default_config()
        },
        None => c == default_config(),
    }
}

impl Config {
    /// Forget the calibration: mark it invalid and zero all eight reference
    /// values, keeping every other setting.
    pub fn clear_calibration(&mut self)
        ensures
            calibration_cleared(*final(self)),
            same_settings(*final(self), *old(self)),
    {
        self.calibration_valid = false;
        self.az_raw_low = ZERO_BITS;
        self.az_raw_high = ZERO_BITS;
        self.el_raw_low = ZERO_BITS;
        self.el_raw_high = ZERO_BITS;
        self.az_deg_low = ZERO_BITS;
        self.az_deg_high = ZERO_BITS;
        self.el_deg_low = ZERO_BITS;
        self.el_deg_high = ZERO_BITS;
    }

    /// Record the low calibration point: the live raw readings and the
    /// angles the operator says the rotator is at.
    pub fn capture_low(&mut self, az_raw: u32, el_raw: u32, az_deg: u32, el_deg: u32)
        ensures
            *final(self) == (Config {
                az_raw_low: az_raw,
                el_raw_low: el_raw,
                az_deg_low: az_deg,
                el_deg_low: el_deg,
                ..*old(self)
            }),
    {
        self.az_raw_low = az_raw;
        self.el_raw_low = el_raw;
        self.az_deg_low = az_deg;
        self.el_deg_low = el_deg;
    }

    /// Record the high calibration point and mark the calibration valid.
    pub fn capture_high(&mut self, az_raw: u32, el_raw: u32, az_deg: u32, el_deg: u32)
        ensures
            *final(self) == (Config {
                az_raw_high: az_raw,
                el_raw_high: el_raw,
                az_deg_high: az_deg,
                el_deg_high: el_deg,
                calibration_valid: true,
                ..*old(self)
            }),
    {
        self.az_raw_high = az_raw;
        self.el_raw_high = el_raw;
        self.az_deg_high = az_deg;
        self.el_deg_high = el_deg;
        self.calibration_valid = true;
    }

    /// The configuration to run with, given the outcome of reading the flash
    /// record (`None` when the read failed): the stored one when it decodes,
    /// the factory configuration otherwise.
    pub fn from_flash_read(read: Option<&[u8; 60]>) -> (c: Self)
        ensures
            loaded_config(
                match read {
                    Some(b) => Some(b@),
                    None => None,
                },
                c,
            ),
    {
        match read {
            Some(buf) => match Self::from_bytes(buf) {
                Some(c) => c,
                None => Self::default(),
            },
            None => Self::default(),
        }
    }

    /// Whether saving succeeded, given the outcome of each flash step: the
    /// erase and the write must succeed and the record read back (`None`
    /// when the read failed) must equal the record written.
    pub fn save_succeeded(
        written: &[u8; 60],
        erased: bool,
        wrote: bool,
        read_back: Option<&[u8; 60]>,
    ) -> (ok: bool)
        ensures
            ok <==> erased && wrote && (match read_back {
                Some(b) => b@ == written@,
                None => false,
            }),
    {
        if !erased || !wrote {
            return false;
        }
        match read_back {
            Some(b) => {
                let mut i: usize = 0;
                while i < 60
                    invariant
                        i <= 60,
                        read_back == Some(b),
                        forall|j: int| 0 <= j < i ==> b@[j] == written@[j],
                    decreases 60 - i,
                {
                    if b[i] != written[i] {
                        assert(b@[i as int] != written@[i as int]);
                        return false;
                    }
                    i = i + 1;
                }
                assert(b@ =~= written@);
                true
            },
            None => false,
        }
    }
}

/// Where saving the configuration record stands.
#[derive(Clone, Copy, Debug, PartialEq, Eq, Structural)]
pub enum SaveStage {
    /// The flash sector is to be erased.
    Erase,
    /// The record is to be written.
    Write,
    /// The record is to be read back and compared.
    Verify,
    /// Saving is over; whether it succeeded.
    Done(bool),
}

/// The outcome of one flash operation while saving.
#[derive(Debug)]
pub enum SaveEvent {
    /// The erase succeeded or failed.
    Erased(bool),
    /// The write succeeded or failed.
    Wrote(bool),
    /// What reading the record back gave; `None` when the read failed.
    ReadBack(Option<[u8; 60]>),
}

/// The stage after an event: a failed erase or write ends the save without
/// any further flash operation, and a save succeeds only when the record
/// read back equals the record written. An event that does not belong to
/// the stage ends the save as failed; a finished save stays finished.
pub open spec fn spec_save_step(stage: SaveStage, written: Seq<u8>, event: SaveEvent) -> SaveStage {
    match (stage, event) {
        (SaveStage::Erase, SaveEvent::Erased(ok)) => if ok {
            SaveStage::Write
        } else {
            SaveStage::Done(false)
        },
        (SaveStage::Write, SaveEvent::Wrote(ok)) => if ok {
            SaveStage::Verify
        } else {
            SaveStage::Done(false)
        },
        (SaveStage::Verify, SaveEvent::ReadBack(rb)) => SaveStage::Done(
            match rb {
                Some(b) => b@ == written,
                None => false,
            },
        ),
        (SaveStage::Done(ok), _) => SaveStage::Done(ok),
        _ => SaveStage::Done(false),
    }
}

impl Config {
    /// One step of saving the record `written` to flash: the next stage,
    /// given the outcome of the flash operation the current stage called for.
    pub fn save_step(stage: SaveStage, written: &[u8; 60], event: SaveEvent) -> (next: SaveStage)
        ensures
            next == spec_save_step(stage, written@, event),
    {
        match (stage, event) {
            (SaveStage::Erase, SaveEvent::Erased(ok)) => if ok {
                SaveStage::Write
            } else {
                SaveStage::Done(false)
            },
            (SaveStage::Write, SaveEvent::Wrote(ok)) => if ok {
                SaveStage::Verify
            } else {
                SaveStage::Done(false)
            },
            (SaveStage::Verify, SaveEvent::ReadBack(rb)) => {
                let ok = match &rb {
                    Some(b) => Self::save_succeeded(written, true, true, Some(b)),
                    None => false,
                };
                SaveStage::Done(ok)
            },
            (SaveStage::Done(ok), _) => SaveStage::Done(ok),
            _ => SaveStage::Done(false),
        }
    }
}

/// The stage reached by running the save from the start with the given
/// outcomes of erase, write and read-back, each used only when the save
/// gets that far.
pub open spec fn save_run(written: Seq<u8>, erased: bool, wrote: bool, read_back: Option<[u8; 60]>) -> SaveStage {
    let s1 = spec_save_step(SaveStage::Erase, written, SaveEvent::Erased(erased));
    if s1 is Done {
        s1
    } else {
        let s2 = spec_save_step(s1, written, SaveEvent::Wrote(wrote));
        if s2 is Done {
            s2
        } else {
            spec_save_step(s2, written, SaveEvent::ReadBack(read_back))
        }
    }
}

/// A save run from the start always finishes, and it finishes successfully
/// exactly when the erase and the write succeed and the record read back
/// equals the record written; the read-back is done only after a successful
/// write, and the write only after a successful erase.
pub proof fn lemma_save_run(written: Seq<u8>, erased: bool, wrote: bool, read_back: Option<[u8; 60]>)
    ensures
        save_run(written, erased, wrote, read_back) == SaveStage::Done(
            erased && wrote && match read_back {
                Some(b) => b@ == written,
                None => false,
            },
        ),
        !erased ==> spec_save_step(SaveStage::Erase, written, SaveEvent::Erased(erased))
            == SaveStage::Done(false),
        erased && !wrote ==> spec_save_step(SaveStage::Write, written, SaveEvent::Wrote(wrote))
            == SaveStage::Done(false),
{
}

} // verus!
