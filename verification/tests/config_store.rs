use g5500_hamlib_adaptor::config::{Config, SaveEvent, SaveStage};
use g5500_hamlib_adaptor::crc8::{crc8_ccitt_buffer, crc8_ccitt_validate};

fn sample_config() -> Config {
    Config {
        static_ip_enabled: true,
        static_ip: [10, 0, 0, 42],
        az_cal_offset: 1.5f32.to_bits(),
        el_cal_offset: (-2.25f32).to_bits(),
        park_az: 270.0f32.to_bits(),
        park_el: 45.0f32.to_bits(),
        calibration_valid: true,
        az_raw_low: 120.0f32.to_bits(),
        az_raw_high: 3900.0f32.to_bits(),
        el_raw_low: 80.0f32.to_bits(),
        el_raw_high: 3100.0f32.to_bits(),
        az_deg_low: 0.0f32.to_bits(),
        az_deg_high: 450.0f32.to_bits(),
        el_deg_low: 0.0f32.to_bits(),
        el_deg_high: 180.0f32.to_bits(),
    }
}

/// A version-1 record of the shared fields of `c`, as older firmware wrote it.
fn v1_record(c: &Config) -> [u8; 24] {
    let mut buf = [0u8; 24];
    buf[0] = 0xAE;
    buf[1] = 0x01;
    buf[2] = if c.static_ip_enabled { 1 } else { 0 };
    buf[3..7].copy_from_slice(&c.static_ip);
    buf[7..11].copy_from_slice(&c.az_cal_offset.to_le_bytes());
    buf[11..15].copy_from_slice(&c.el_cal_offset.to_le_bytes());
    buf[15..19].copy_from_slice(&c.park_az.to_le_bytes());
    buf[19..23].copy_from_slice(&c.park_el.to_le_bytes());
    buf[23] = crc8_ccitt_buffer(&buf[..23]);
    buf
}

#[test]
fn crc8_check_value() {
    // CRC-8 (poly 0x07, init 0) of "123456789" is 0xF4.
    assert_eq!(crc8_ccitt_buffer(b"123456789"), 0xF4);
    assert_eq!(crc8_ccitt_buffer(&[]), 0x00);
    assert_eq!(crc8_ccitt_buffer(&[0x01]), 0x07);
    assert_eq!(crc8_ccitt_buffer(&[0xFF]), 0xF3);
}

#[test]
fn crc8_validate_cases() {
    assert!(!crc8_ccitt_validate(&[]));
    assert!(!crc8_ccitt_validate(&[0x00]));
    assert!(crc8_ccitt_validate(&[0x00, 0x00]));
    assert!(crc8_ccitt_validate(&[0x01, 0x07]));
    assert!(!crc8_ccitt_validate(&[0x01, 0x08]));
    let mut data = b"123456789".to_vec();
    data.push(0xF4);
    assert!(crc8_ccitt_validate(&data));
}

#[test]
fn default_config_values() {
    let c = Config::default();
    assert!(!c.static_ip_enabled);
    assert_eq!(c.static_ip, [192, 168, 1, 100]);
    assert_eq!(f32::from_bits(c.park_az), 180.0);
    assert_eq!(f32::from_bits(c.park_el), 0.0);
    assert_eq!(f32::from_bits(c.az_cal_offset), 0.0);
    assert_eq!(f32::from_bits(c.el_cal_offset), 0.0);
    assert!(!c.calibration_valid);
    assert_eq!(c.az_raw_high, 0);
    assert_eq!(c.el_deg_high, 0);
}

#[test]
fn to_bytes_layout() {
    let c = sample_config();
    let b = c.to_bytes();
    assert_eq!(b.len(), 60);
    assert_eq!(b[0], 0xAE);
    assert_eq!(b[1], 0x02);
    assert_eq!(b[2], 0x01);
    assert_eq!(&b[3..7], &[10, 0, 0, 42]);
    assert_eq!(&b[7..11], &1.5f32.to_le_bytes());
    assert_eq!(&b[11..15], &(-2.25f32).to_le_bytes());
    assert_eq!(&b[15..19], &270.0f32.to_le_bytes());
    assert_eq!(&b[19..23], &45.0f32.to_le_bytes());
    assert_eq!(b[23], 0x01);
    assert_eq!(&b[24..28], &120.0f32.to_le_bytes());
    assert_eq!(&b[52..56], &180.0f32.to_le_bytes());
    assert_eq!(&b[56..59], &[0, 0, 0]);
    assert_eq!(b[59], crc8_ccitt_buffer(&b[..59]));
}

#[test]
fn default_config_bytes() {
    let b = Config::default().to_bytes();
    assert_eq!(&b[0..3], &[0xAE, 0x02, 0x00]);
    assert_eq!(&b[3..7], &[192, 168, 1, 100]);
    assert_eq!(&b[15..19], &[0x00, 0x00, 0x34, 0x43]);
    assert_eq!(b[23], 0x00);
}

#[test]
fn config_v2_round_trip() {
    for c in [Config::default(), sample_config()] {
        let bytes = c.to_bytes();
        assert_eq!(Config::from_bytes(&bytes), Some(c));
    }
    // Odd bit patterns (negative zero, NaN, infinities) survive bit for bit.
    let mut c = sample_config();
    c.az_cal_offset = (-0.0f32).to_bits();
    c.park_az = f32::NAN.to_bits();
    c.el_deg_low = f32::INFINITY.to_bits();
    c.static_ip_enabled = false;
    c.calibration_valid = false;
    assert_eq!(Config::from_bytes(&c.to_bytes()), Some(c));
}

#[test]
fn crc8_integrity_of_records() {
    for c in [Config::default(), sample_config()] {
        assert!(crc8_ccitt_validate(&c.to_bytes()));
    }
}

#[test]
fn v1_migration_keeps_fields_and_clears_calibration() {
    let c = sample_config();
    let v1 = v1_record(&c);
    let mut buf = [0xFFu8; 60];
    buf[..24].copy_from_slice(&v1);
    let m = Config::from_bytes(&buf).expect("v1 record must migrate");
    assert_eq!(m.static_ip_enabled, c.static_ip_enabled);
    assert_eq!(m.static_ip, c.static_ip);
    assert_eq!(m.az_cal_offset, c.az_cal_offset);
    assert_eq!(m.el_cal_offset, c.el_cal_offset);
    assert_eq!(m.park_az, c.park_az);
    assert_eq!(m.park_el, c.park_el);
    assert!(!m.calibration_valid);
    assert_eq!(m.az_raw_low, 0);
    assert_eq!(m.az_raw_high, 0);
    assert_eq!(m.el_raw_low, 0);
    assert_eq!(m.el_raw_high, 0);
    assert_eq!(m.az_deg_low, 0);
    assert_eq!(m.az_deg_high, 0);
    assert_eq!(m.el_deg_low, 0);
    assert_eq!(m.el_deg_high, 0);
}

#[test]
fn v1_with_bad_crc_is_rejected() {
    let mut buf = [0u8; 60];
    buf[..24].copy_from_slice(&v1_record(&sample_config()));
    buf[23] ^= 0x01;
    assert_eq!(Config::from_bytes(&buf), None);
}

#[test]
fn unknown_version_returns_none() {
    for version in 0u8..=255 {
        if version == 0x01 || version == 0x02 {
            continue;
        }
        let mut buf = [0u8; 60];
        buf[0] = 0xAE;
        buf[1] = version;
        assert!(Config::from_bytes(&buf).is_none());
    }
}

#[test]
fn bad_magic_or_crc_returns_none() {
    let mut b = sample_config().to_bytes();
    b[0] = 0xAF;
    assert_eq!(Config::from_bytes(&b), None);
    let mut b = sample_config().to_bytes();
    b[30] ^= 0x10;
    assert_eq!(Config::from_bytes(&b), None);
    // Erased flash.
    assert_eq!(Config::from_bytes(&[0xFF; 60]), None);
}

#[test]
fn flash_read_falls_back_to_default() {
    let c = sample_config();
    let b = c.to_bytes();
    assert_eq!(Config::from_flash_read(Some(&b)), c);
    assert_eq!(Config::from_flash_read(Some(&[0xFF; 60])), Config::default());
    assert_eq!(Config::from_flash_read(None), Config::default());
}

#[test]
fn save_outcome() {
    let b = sample_config().to_bytes();
    assert!(Config::save_succeeded(&b, true, true, Some(&b)));
    let mut other = b;
    other[5] ^= 1;
    assert!(!Config::save_succeeded(&b, true, true, Some(&other)));
    assert!(!Config::save_succeeded(&b, true, true, None));
    assert!(!Config::save_succeeded(&b, false, true, Some(&b)));
    assert!(!Config::save_succeeded(&b, true, false, Some(&b)));
}

#[test]
fn clear_calibration_zeroes_calibration_only() {
    let c = sample_config();
    let mut cleared = c;
    cleared.clear_calibration();
    assert!(!cleared.calibration_valid);
    assert_eq!(cleared.az_raw_low, 0);
    assert_eq!(cleared.az_raw_high, 0);
    assert_eq!(cleared.el_raw_low, 0);
    assert_eq!(cleared.el_raw_high, 0);
    assert_eq!(cleared.az_deg_low, 0);
    assert_eq!(cleared.az_deg_high, 0);
    assert_eq!(cleared.el_deg_low, 0);
    assert_eq!(cleared.el_deg_high, 0);
    assert_eq!(cleared.static_ip_enabled, c.static_ip_enabled);
    assert_eq!(cleared.static_ip, c.static_ip);
    assert_eq!(cleared.az_cal_offset, c.az_cal_offset);
    assert_eq!(cleared.el_cal_offset, c.el_cal_offset);
    assert_eq!(cleared.park_az, c.park_az);
    assert_eq!(cleared.park_el, c.park_el);
}

#[test]
fn capture_points_set_calibration() {
    let mut c = Config::default();
    c.capture_low(100, 200, 0.0f32.to_bits(), 1.0f32.to_bits());
    assert_eq!((c.az_raw_low, c.el_raw_low), (100, 200));
    assert_eq!(c.el_deg_low, 1.0f32.to_bits());
    assert!(!c.calibration_valid);
    c.capture_high(3000, 2900, 450.0f32.to_bits(), 180.0f32.to_bits());
    assert_eq!((c.az_raw_high, c.el_raw_high), (3000, 2900));
    assert_eq!(c.az_deg_high, 450.0f32.to_bits());
    assert!(c.calibration_valid);
    assert_eq!(Config::from_bytes(&c.to_bytes()), Some(c));
}

#[test]
fn every_single_bit_flip_is_rejected() {
    for c in [sample_config(), Config::default()] {
        let b = c.to_bytes();
        for i in 0..60 {
            for k in 0..8 {
                let mut b2 = b;
                b2[i] ^= 1u8 << k;
                assert!(Config::from_bytes(&b2).is_none(), "byte {} bit {}", i, k);
            }
        }
    }
}

#[test]
fn canonical_image_reencodes_exactly() {
    let b = sample_config().to_bytes();
    let c = Config::from_bytes(&b).unwrap();
    assert_eq!(c.to_bytes(), b);
    // A flag byte other than 0 or 1 still decodes, but is not canonical.
    let mut odd = b;
    odd[2] = 0x03;
    odd[59] = crc8_ccitt_buffer(&odd[..59]);
    let c = Config::from_bytes(&odd).unwrap();
    assert!(c.static_ip_enabled);
    assert_ne!(c.to_bytes(), odd);
}

#[test]
fn v1_tail_bytes_are_ignored() {
    let head = v1_record(&sample_config());
    let mut b1 = [0u8; 60];
    b1[..24].copy_from_slice(&head);
    let mut b2 = b1;
    for (i, x) in b2[24..].iter_mut().enumerate() {
        *x = (i as u8).wrapping_mul(37).wrapping_add(1);
    }
    let c1 = Config::from_bytes(&b1).unwrap();
    let c2 = Config::from_bytes(&b2).unwrap();
    assert_eq!(c1, c2);
    assert!(!c1.calibration_valid);
    assert_eq!(c1.az_raw_high, 0);
}

#[test]
fn save_steps() {
    let buf = sample_config().to_bytes();
    let s = Config::save_step(SaveStage::Erase, &buf, SaveEvent::Erased(true));
    assert_eq!(s, SaveStage::Write);
    let s = Config::save_step(s, &buf, SaveEvent::Wrote(true));
    assert_eq!(s, SaveStage::Verify);
    assert_eq!(Config::save_step(s, &buf, SaveEvent::ReadBack(Some(buf))), SaveStage::Done(true));
    let mut bad = buf;
    bad[10] ^= 1;
    assert_eq!(Config::save_step(s, &buf, SaveEvent::ReadBack(Some(bad))), SaveStage::Done(false));
    assert_eq!(Config::save_step(s, &buf, SaveEvent::ReadBack(None)), SaveStage::Done(false));
    // A failed erase or write ends the save at once.
    assert_eq!(Config::save_step(SaveStage::Erase, &buf, SaveEvent::Erased(false)), SaveStage::Done(false));
    assert_eq!(Config::save_step(SaveStage::Write, &buf, SaveEvent::Wrote(false)), SaveStage::Done(false));
    // An event that does not belong to the stage fails; a finished save stays finished.
    assert_eq!(Config::save_step(SaveStage::Erase, &buf, SaveEvent::Wrote(true)), SaveStage::Done(false));
    assert_eq!(Config::save_step(SaveStage::Done(true), &buf, SaveEvent::Erased(false)), SaveStage::Done(true));
}

#[test]
fn v1_decoder_reads_head_only() {
    let head = v1_record(&sample_config());
    let mut b1 = [0u8; 60];
    b1[..24].copy_from_slice(&head);
    let mut b2 = b1;
    b2[24..].fill(0xFF);
    let c1 = Config::from_bytes_v1(&b1).unwrap();
    assert_eq!(Some(c1), Config::from_bytes_v1(&b2));
    assert!(!c1.calibration_valid);
    assert_eq!(c1.el_deg_high, 0);
    assert_eq!(c1.park_az, sample_config().park_az);
    b1[23] ^= 0x01;
    b2[23] ^= 0x01;
    assert!(Config::from_bytes_v1(&b1).is_none());
    assert!(Config::from_bytes_v1(&b2).is_none());
}
