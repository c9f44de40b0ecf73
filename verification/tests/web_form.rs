use g5500_hamlib_adaptor::config::Config;
use g5500_hamlib_adaptor::http::{
    apply_config_form, bytes_equal, find_body, get_form_value, hex_val, parse_capture_form, parse_config_form,
    parse_decimal, parse_ip, route_request, starts_with, url_decode, Decimal, Route,
};

fn dec(negative: bool, integer_part: u32, frac_part: u32, frac_digits: u32) -> Option<Decimal> {
    Some(Decimal { negative, integer_part, frac_part, frac_digits })
}

#[test]
fn prefixes() {
    assert!(starts_with(b"GET / HTTP/1.1", b"GET / "));
    assert!(!starts_with(b"GET", b"GET / "));
    assert!(starts_with(b"", b""));
    assert!(bytes_equal(b"abc", b"abc"));
    assert!(!bytes_equal(b"abc", b"abd"));
    assert!(!bytes_equal(b"abc", b"ab"));
}

#[test]
fn routes() {
    assert_eq!(route_request(b"GET / HTTP/1.0\r\n\r\n"), Route::StatusPage);
    assert_eq!(route_request(b"GET /favicon.ico HTTP/1.0"), Route::NotFound);
    assert_eq!(route_request(b"POST /config HTTP/1.0"), Route::ConfigPost);
    assert_eq!(route_request(b"POST /cal/capture-low HTTP/1.0"), Route::CalCaptureLow);
    assert_eq!(route_request(b"POST /cal/capture-high HTTP/1.0"), Route::CalCaptureHigh);
    assert_eq!(route_request(b"POST /cal/clear HTTP/1.0"), Route::CalClear);
    assert_eq!(route_request(b"PUT / HTTP/1.0"), Route::NotFound);
    assert_eq!(route_request(b""), Route::NotFound);
}

#[test]
fn hex_digits() {
    assert_eq!(hex_val(b'0'), Some(0));
    assert_eq!(hex_val(b'9'), Some(9));
    assert_eq!(hex_val(b'a'), Some(10));
    assert_eq!(hex_val(b'F'), Some(15));
    assert_eq!(hex_val(b'g'), None);
    assert_eq!(hex_val(b'%'), None);
}

#[test]
fn url_decoding() {
    assert_eq!(url_decode(b"192%2E168%2E1%2E1", 32), b"192.168.1.1");
    assert_eq!(url_decode(b"a+b", 32), b"a b");
    assert_eq!(url_decode(b"%41%6a", 32), b"Aj");
    // Incomplete or invalid escapes are kept as they are.
    assert_eq!(url_decode(b"%4", 32), b"%4");
    assert_eq!(url_decode(b"%zz1", 32), b"%zz1");
    assert_eq!(url_decode(b"%41", 32), b"A");
    // Output is cut at the capacity.
    assert_eq!(url_decode(b"abcdef", 4), b"abcd");
    assert_eq!(url_decode(b"", 4), b"");
}

#[test]
fn request_body() {
    assert_eq!(find_body(b"POST /config HTTP/1.0\r\nX: y\r\n\r\npaz=1"), Some(&b"paz=1"[..]));
    assert_eq!(find_body(b"POST /config HTTP/1.0\r\n\r\n"), Some(&b""[..]));
    assert_eq!(find_body(b"POST /config HTTP/1.0\r\n"), None);
    assert_eq!(find_body(b""), None);
}

#[test]
fn form_values() {
    let body = b"paz=180.0&pel=0.0&ip=10.0.0.1&sip=1";
    assert_eq!(get_form_value(body, b"paz="), Some(&b"180.0"[..]));
    assert_eq!(get_form_value(body, b"pel="), Some(&b"0.0"[..]));
    assert_eq!(get_form_value(body, b"ip="), Some(&b"10.0.0.1"[..]));
    assert_eq!(get_form_value(body, b"sip="), Some(&b"1"[..]));
    assert_eq!(get_form_value(body, b"azo="), None);
    // Keys only match at the start of a field.
    assert_eq!(get_form_value(b"xpaz=1&paz=2", b"paz="), Some(&b"2"[..]));
    assert_eq!(get_form_value(b"paz=", b"paz="), Some(&b""[..]));
    assert_eq!(get_form_value(b"", b"paz="), None);
}

#[test]
fn decimals() {
    assert_eq!(parse_decimal(b"180.5"), dec(false, 180, 5, 1));
    assert_eq!(parse_decimal(b"-12.25"), dec(true, 12, 25, 2));
    assert_eq!(parse_decimal(b"%2D3%2E5"), dec(true, 3, 5, 1));
    assert_eq!(parse_decimal(b"7"), dec(false, 7, 0, 0));
    assert_eq!(parse_decimal(b"0.1234567"), dec(false, 0, 123456, 6));
    assert_eq!(parse_decimal(b"+5+"), dec(false, 5, 0, 0));
    assert_eq!(parse_decimal(b"%C2%A01.5"), dec(false, 1, 5, 1));
    assert_eq!(parse_decimal(b"-"), dec(true, 0, 0, 0));
    assert_eq!(parse_decimal(b""), None);
    assert_eq!(parse_decimal(b"+"), None);
    assert_eq!(parse_decimal(b"1e3"), None);
    assert_eq!(parse_decimal(b"1-2"), None);
    assert_eq!(parse_decimal(b"%FF1"), None);
    // Too many integer digits wrap modulo 2^32.
    assert_eq!(parse_decimal(b"4294967297"), dec(false, 1, 0, 0));
}

#[test]
fn ip_addresses() {
    assert_eq!(parse_ip(b"192.168.1.100"), Some([192, 168, 1, 100]));
    assert_eq!(parse_ip(b"192%2E168%2E1%2E100"), Some([192, 168, 1, 100]));
    assert_eq!(parse_ip(b"0.0.0.0"), Some([0, 0, 0, 0]));
    // `+` in a form value is a space; an encoded plus sign is accepted as by `u16::from_str`.
    assert_eq!(parse_ip(b"+1.002.3.255"), None);
    assert_eq!(parse_ip(b"%2B1.002.3.255"), Some([1, 2, 3, 255]));
    assert_eq!(parse_ip(b"1.2.3.256"), None);
    assert_eq!(parse_ip(b"1.2.3"), None);
    assert_eq!(parse_ip(b"1.2.3.4.5"), None);
    assert_eq!(parse_ip(b"1..3.4"), None);
    assert_eq!(parse_ip(b"1.2.3.-4"), None);
    assert_eq!(parse_ip(b"1.2.3.+"), None);
    assert_eq!(parse_ip(b""), None);
    assert_eq!(parse_ip(b"a.b.c.d"), None);
}

#[test]
fn config_form() {
    let req = b"POST /config HTTP/1.0\r\nContent-Type: x\r\n\r\npaz=270&pel=12.5&azo=-1&elo=x&ip=10%2E0%2E0%2E7&sip=1";
    let f = parse_config_form(req);
    assert_eq!(f.park_az, dec(false, 270, 0, 0));
    assert_eq!(f.park_el, dec(false, 12, 5, 1));
    assert_eq!(f.az_cal_offset, dec(true, 1, 0, 0));
    assert_eq!(f.el_cal_offset, None);
    assert_eq!(f.static_ip, Some([10, 0, 0, 7]));
    assert!(f.static_ip_enabled);
    let f = parse_config_form(b"POST /config HTTP/1.0\r\n\r\npaz=1");
    assert!(!f.static_ip_enabled);
    assert_eq!(f.static_ip, None);
    let f = parse_config_form(b"POST /config");
    assert_eq!(f.park_az, None);
    assert!(!f.static_ip_enabled);
}

#[test]
fn capture_forms() {
    let (az, el) = parse_capture_form(b"POST /cal/capture-low\r\n\r\nadl=1.5&edl=2", "adl=", "edl=");
    assert_eq!(az, dec(false, 1, 5, 1));
    assert_eq!(el, dec(false, 2, 0, 0));
    let (az, el) = parse_capture_form(b"POST /cal/capture-high\r\n\r\nadh=&edh=90", "adh=", "edh=");
    assert_eq!(az, None);
    assert_eq!(el, dec(false, 90, 0, 0));
}

#[test]
fn shown_address_reads_back() {
    for a in [[0u8, 9, 10, 99], [100, 101, 199, 255], [192, 168, 1, 100], [255, 255, 255, 255]] {
        let text = format!("{}.{}.{}.{}", a[0], a[1], a[2], a[3]);
        assert_eq!(parse_ip(text.as_bytes()), Some(a));
    }
}

#[test]
fn decimal_whitespace_is_trimmed() {
    assert_eq!(parse_decimal(b"%20%0945.5%0A"), dec(false, 45, 5, 1));
    assert_eq!(parse_decimal(b"%E3%80%809"), dec(false, 9, 0, 0));
    assert_eq!(parse_decimal(b"%20%20"), None);
}

#[test]
fn form_applies_to_stored_config() {
    let mut base = Config::default();
    base.static_ip_enabled = true;
    base.calibration_valid = true;
    base.az_raw_high = 3900.0f32.to_bits();
    let f = parse_config_form(b"POST /config HTTP/1.0\r\n\r\npaz=500&ip=10.0.0.7");
    let c = apply_config_form(base, &f, Some(450.0f32.to_bits()), None, None, None);
    assert_eq!(c.park_az, 450.0f32.to_bits());
    assert_eq!(c.park_el, base.park_el);
    assert_eq!(c.static_ip, [10, 0, 0, 7]);
    // The checkbox is absent, so the static address is switched off.
    assert!(!c.static_ip_enabled);
    assert!(c.calibration_valid);
    assert_eq!(c.az_raw_high, 3900.0f32.to_bits());
    // An unreadable address keeps the stored one.
    let f = parse_config_form(b"POST /config HTTP/1.0\r\n\r\npel=5&azo=-60&ip=10.0.0&sip=on");
    let c = apply_config_form(base, &f, None, Some(5.0f32.to_bits()), Some((-50.0f32).to_bits()), None);
    assert_eq!(c.static_ip, base.static_ip);
    assert!(c.static_ip_enabled);
    assert_eq!(c.park_el, 5.0f32.to_bits());
    assert_eq!(c.az_cal_offset, (-50.0f32).to_bits());
    assert_eq!(c.el_cal_offset, base.el_cal_offset);
}
