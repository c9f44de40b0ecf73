use g5500_hamlib_adaptor::config::Config;
use g5500_hamlib_adaptor::hamlib::{Command, ConfigToken, HamlibCommand};
use g5500_hamlib_adaptor::session::{
    is_erp_prefix, move_targets, park_position, respond, split_erp, token_value, Action, Reply,
    Target, AZ_MAX_BITS, EL_MAX_BITS,
};

const VERSION: &[u8] = b"v1.2-3-gabcdef";

fn kind(input: &[u8]) -> HamlibCommand {
    Command::parse(input).0
}

fn text(r: &Reply) -> &[u8] {
    match r {
        Reply::Text(t) => t.as_slice(),
        _ => panic!("not a text reply: {:?}", r),
    }
}

#[test]
fn short_and_long_forms() {
    let cases: [(&[u8], &[u8], HamlibCommand); 9] = [
        (b"_", b"\\get_info", HamlibCommand::GetInfo),
        (b"p", b"\\get_pos", HamlibCommand::GetPos),
        (b"S", b"\\stop", HamlibCommand::Stop),
        (b"K", b"\\park", HamlibCommand::Park),
        (b"q", b"\\quit", HamlibCommand::Quit),
        (b"R", b"\\reset", HamlibCommand::Reset),
        (b"1", b"\\dump_caps", HamlibCommand::DumpCaps),
        (b"s", b"\\get_status", HamlibCommand::GetStatus),
        (b"3", b"\\dump_conf", HamlibCommand::DumpConf),
    ];
    for (short, long, cmd) in cases {
        assert_eq!(kind(short), cmd);
        assert_eq!(kind(long), cmd);
        let mut with_newline = short.to_vec();
        with_newline.push(b'\n');
        assert_eq!(kind(&with_newline), cmd);
        let mut with_newline = long.to_vec();
        with_newline.push(b'\n');
        assert_eq!(kind(&with_newline), cmd);
    }
    assert_eq!(kind(b"\\dump_state\n"), HamlibCommand::DumpState);
}

#[test]
fn stub_commands() {
    let cases: [(&[u8], &[u8], HamlibCommand); 16] = [
        (b"V x", b"\\set_level x", HamlibCommand::SetLevel),
        (b"v", b"\\get_level", HamlibCommand::GetLevel),
        (b"U", b"\\set_func", HamlibCommand::SetFunc),
        (b"u", b"\\get_func", HamlibCommand::GetFunc),
        (b"X", b"\\set_parm", HamlibCommand::SetParm),
        (b"x", b"\\get_parm", HamlibCommand::GetParm),
        (b"w", b"\\send_cmd", HamlibCommand::SendCmd),
        (b"L", b"\\lonlat2loc", HamlibCommand::Lonlat2Loc),
        (b"l", b"\\loc2lonlat", HamlibCommand::Loc2Lonlat),
        (b"D", b"\\dms2dec", HamlibCommand::Dms2Dec),
        (b"d", b"\\dec2dms", HamlibCommand::Dec2Dms),
        (b"E", b"\\dmmm2dec", HamlibCommand::Dmmm2Dec),
        (b"e", b"\\dec2dmmm", HamlibCommand::Dec2Dmmm),
        (b"B", b"\\qrb", HamlibCommand::Qrb),
        (b"A", b"\\a_sp2a_lp", HamlibCommand::AzSp2AzLp),
        (b"a", b"\\d_sp2d_lp", HamlibCommand::DistSp2DistLp),
    ];
    for (short, long, cmd) in cases {
        assert_eq!(kind(short), cmd);
        assert_eq!(kind(long), cmd);
    }
}

#[test]
fn unknown_command() {
    assert_eq!(kind(b""), HamlibCommand::_None);
    assert_eq!(kind(b"Z"), HamlibCommand::_None);
    assert_eq!(kind(b"\\frobnicate"), HamlibCommand::_None);
    // \get_conf needs a token.
    assert_eq!(kind(b"\\get_conf"), HamlibCommand::_None);
}

#[test]
fn set_pos_numbers() {
    let (cmd, az, el, args) = Command::parse(b"P 180.5 45\n");
    assert_eq!(cmd, HamlibCommand::SetPos);
    assert_eq!(f32::from_bits(az), 180.5);
    assert_eq!(f32::from_bits(el), 45.0);
    assert!(args.is_none());
    let (cmd, az, el, _) = Command::parse(b"\\set_pos\t10.25  -3");
    assert_eq!(cmd, HamlibCommand::SetPos);
    assert_eq!(f32::from_bits(az), 10.25);
    assert_eq!(f32::from_bits(el), -3.0);
    let (cmd, az, el, _) = Command::parse(b"P 1e2 2.5E1");
    assert_eq!(cmd, HamlibCommand::SetPos);
    assert_eq!((f32::from_bits(az), f32::from_bits(el)), (100.0, 25.0));
}

#[test]
fn set_pos_without_numbers_falls_through() {
    // Not a position: `P` needs two numbers, and no other command starts with `P`.
    assert_eq!(kind(b"P 180"), HamlibCommand::_None);
    assert_eq!(kind(b"P abc def"), HamlibCommand::_None);
    assert_eq!(kind(b"P180 45"), HamlibCommand::_None);
}

#[test]
fn move_numbers() {
    let (cmd, dir, speed, _) = Command::parse(b"M 8 0");
    assert_eq!(cmd, HamlibCommand::Move);
    assert_eq!(f32::from_bits(dir), 8.0);
    assert_eq!(f32::from_bits(speed), 0.0);
    let (cmd, dir, _, _) = Command::parse(b"\\move 256 50\n");
    assert_eq!(cmd, HamlibCommand::Move);
    assert_eq!(f32::from_bits(dir), 256.0);
}

#[test]
fn reset_ignores_argument() {
    assert_eq!(Command::parse_reset(b"R 1"), Some((&b""[..], &b"R"[..])));
    assert_eq!(Command::parse_reset(b"\\reset"), Some((&b""[..], &b"\\reset"[..])));
    assert_eq!(Command::parse_reset(b"x"), None);
}

#[test]
fn set_conf_token_and_value() {
    let (cmd, _, _, args) = Command::parse(b"C park_az 200.0\n");
    assert_eq!(cmd, HamlibCommand::SetConf);
    assert_eq!(args, Some((&b"park_az"[..], &b"200.0"[..])));
    let (cmd, _, _, args) = Command::parse(b"\\set_conf  min_el\r\n");
    assert_eq!(cmd, HamlibCommand::SetConf);
    assert_eq!(args, Some((&b"min_el"[..], &b""[..])));
    assert_eq!(Command::parse_set_conf(b"C"), None);
}

#[test]
fn get_conf_token() {
    let (cmd, _, _, args) = Command::parse(b"\\get_conf park_el \n");
    assert_eq!(cmd, HamlibCommand::GetConf);
    assert_eq!(args, Some((&b"park_el"[..], &b""[..])));
}

#[test]
fn config_tokens() {
    assert_eq!(ConfigToken::from_bytes(b"min_az"), Some(ConfigToken::MinAz));
    assert_eq!(ConfigToken::from_bytes(b"max_az"), Some(ConfigToken::MaxAz));
    assert_eq!(ConfigToken::from_bytes(b"min_el"), Some(ConfigToken::MinEl));
    assert_eq!(ConfigToken::from_bytes(b"max_el"), Some(ConfigToken::MaxEl));
    assert_eq!(ConfigToken::from_bytes(b"park_az"), Some(ConfigToken::ParkAz));
    assert_eq!(ConfigToken::from_bytes(b"park_el"), Some(ConfigToken::ParkEl));
    assert_eq!(ConfigToken::from_bytes(b"park"), None);
    assert_eq!(ConfigToken::from_bytes(b"PARK_AZ"), None);
}

#[test]
fn erp_prefixes() {
    for b in [b'+', b';', b'|', b',', b'!', b'*', b'~', b'@', b'['] {
        assert!(is_erp_prefix(b));
    }
    for b in [b'\\', b'?', b'_', b'#', b'p', b'1', b' ', b'\n', 0x7f, 0x80] {
        assert!(!is_erp_prefix(b));
    }
    assert_eq!(split_erp(b"!p"), (true, &b"p"[..]));
    assert_eq!(split_erp(b"+p"), (true, &b"p"[..]));
    assert_eq!(split_erp(b"p"), (false, &b"p"[..]));
    assert_eq!(split_erp(b""), (false, &b""[..]));
}

#[test]
fn move_directions() {
    assert_eq!(move_targets(2), Some((Target::Current, Target::Max)));
    assert_eq!(move_targets(4), Some((Target::Current, Target::Zero)));
    assert_eq!(move_targets(8), Some((Target::Zero, Target::Current)));
    assert_eq!(move_targets(16), Some((Target::Max, Target::Current)));
    assert_eq!(move_targets(32), Some((Target::Zero, Target::Max)));
    assert_eq!(move_targets(64), Some((Target::Max, Target::Max)));
    assert_eq!(move_targets(128), Some((Target::Zero, Target::Zero)));
    assert_eq!(move_targets(256), Some((Target::Max, Target::Zero)));
    assert_eq!(move_targets(1), None);
    assert_eq!(move_targets(0), None);
}

#[test]
fn park_defaults_and_stored() {
    assert_eq!(park_position(None), (180.0f32.to_bits(), 0.0f32.to_bits()));
    let mut c = Config::default();
    c.park_az = 90.0f32.to_bits();
    c.park_el = 10.0f32.to_bits();
    assert_eq!(park_position(Some(&c)), (90.0f32.to_bits(), 10.0f32.to_bits()));
    assert_eq!(token_value(ConfigToken::ParkAz, Some(&c)), 90.0f32.to_bits());
    assert_eq!(token_value(ConfigToken::MaxAz, None), 450.0f32.to_bits());
    assert_eq!(token_value(ConfigToken::MaxEl, None), 180.0f32.to_bits());
    assert_eq!(token_value(ConfigToken::MinEl, None), 0);
    assert_eq!(AZ_MAX_BITS, 450.0f32.to_bits());
    assert_eq!(EL_MAX_BITS, 180.0f32.to_bits());
}

fn respond_simple(cmd: HamlibCommand, extended: bool) -> g5500_hamlib_adaptor::session::Response {
    respond(cmd, 0, 0, 0, None, None, None, false, (0, 0), VERSION, extended)
}

#[test]
fn stop_and_park_replies() {
    let r = respond_simple(HamlibCommand::Stop, false);
    assert_eq!(r.action, Action::Stop);
    assert_eq!(text(&r.reply), b"RPRT 0\n");
    assert!(!r.close);
    let r = respond_simple(HamlibCommand::Stop, true);
    assert_eq!(text(&r.reply), b"stop:\nRPRT 0\n");
    let r = respond_simple(HamlibCommand::Park, true);
    assert_eq!(r.action, Action::Demand { az: 180.0f32.to_bits(), el: 0 });
    assert_eq!(text(&r.reply), b"park:\nRPRT 0\n");
}

#[test]
fn quit_and_reset_close() {
    let r = respond_simple(HamlibCommand::Quit, false);
    assert!(r.close);
    assert_eq!(r.action, Action::Nothing);
    assert!(matches!(r.reply, Reply::Nothing));
    let r = respond_simple(HamlibCommand::Reset, true);
    assert!(r.close);
    assert_eq!(r.action, Action::Reset);
}

#[test]
fn set_pos_reply() {
    let (cmd, az, el, _) = Command::parse(b"P 500 -5");
    let r = respond(cmd, az, el, 0, None, None, None, false, (0, 0), VERSION, false);
    assert_eq!(r.action, Action::DemandClamped { az: 500.0f32.to_bits(), el: (-5.0f32).to_bits() });
    assert_eq!(text(&r.reply), b"RPRT 0\n");
    let r = respond(cmd, az, el, 0, None, None, None, false, (0, 0), VERSION, true);
    assert!(matches!(r.reply, Reply::SetPosEcho));
}

#[test]
fn dump_state_reply() {
    let r = respond(HamlibCommand::DumpState, 0, 0, 0, None, None, None, false, (2048, 7), VERSION, false);
    let t = text(&r.reply);
    let expected: &[u8] = b"1\n601\nmin_az=0.000000\nmax_az=450.000000\nmin_el=0.000000\nmax_el=180.000000\nsouth_zero=0\nrot_type=AzEl\naz_raw=2048\nel_raw=7\ndone\n";
    assert_eq!(t.len(), 256);
    assert_eq!(&t[..expected.len()], expected);
    assert!(t[expected.len()..].iter().all(|&b| b == 0));
    let r = respond(HamlibCommand::DumpState, 0, 0, 0, None, None, None, false, (65535, 0), VERSION, true);
    let t = text(&r.reply);
    assert_eq!(t.len(), 256);
    let raw: &[u8] = b"az_raw=65535\nel_raw=0\ndone\n";
    assert!(t.windows(raw.len()).any(|w| w == raw));
}

#[test]
fn get_info_reply() {
    let r = respond(HamlibCommand::GetInfo, 0, 0, 0, None, None, None, false, (0, 0), VERSION, false);
    let t = text(&r.reply);
    let expected: &[u8] = b"Info \"G-5500 HamLib Adaptor - Phil Crump M0DNY, firmware: v1.2-3-gabcdef\"\n";
    assert_eq!(t.len(), 192);
    assert_eq!(&t[..expected.len()], expected);
    assert!(t[expected.len()..].iter().all(|&b| b == 0));
    let r = respond(HamlibCommand::GetInfo, 0, 0, 0, None, None, None, false, (0, 0), b"nogit", true);
    let t = text(&r.reply);
    let expected: &[u8] = b"get_info:\nInfo: G-5500 HamLib Adaptor - Phil Crump M0DNY, firmware: nogit\nRPRT 0\n";
    assert_eq!(&t[..expected.len()], expected);
    assert_eq!(t.len(), 192);
}

#[test]
fn dump_caps_reply() {
    let r = respond(HamlibCommand::DumpCaps, 0, 0, 0, None, None, None, false, (0, 0), VERSION, false);
    let t = text(&r.reply);
    let head: &[u8] = b"Model name: G-5500 Hamlib Adaptor\nMfg name: Yaesu/Custom\nBackend version: v1.2-3-gabcdef\nType: Az-El\n";
    assert_eq!(t.len(), 512);
    assert_eq!(&t[..head.len()], head);
    let tail: &[u8] = b"Can Move: Y\nCan get Info: Y\n";
    let end = t.iter().position(|&b| b == 0).unwrap();
    assert_eq!(&t[end - tail.len()..end], tail);
    let r = respond(HamlibCommand::DumpCaps, 0, 0, 0, None, None, None, false, (0, 0), VERSION, true);
    let t = text(&r.reply);
    assert_eq!(t.len(), 11 + 512 + 7);
    assert_eq!(&t[..11], b"dump_caps:\n");
    assert_eq!(&t[11..11 + head.len()], head);
    assert_eq!(&t[11 + 512..], b"RPRT 0\n");
}

#[test]
fn move_replies() {
    let r = respond(HamlibCommand::Move, 0, 0, 16, None, None, None, false, (0, 0), VERSION, false);
    assert_eq!(r.action, Action::DemandTargets(Target::Max, Target::Current));
    assert_eq!(text(&r.reply), b"RPRT 0\n");
    let r = respond(HamlibCommand::Move, 0, 0, 3, None, None, None, false, (0, 0), VERSION, true);
    assert_eq!(r.action, Action::Nothing);
    assert_eq!(text(&r.reply), b"move:\nRPRT -2\n");
}

#[test]
fn get_status_reply() {
    let r = respond(HamlibCommand::GetStatus, 0, 0, 0, None, None, None, true, (0, 0), VERSION, false);
    let t = text(&r.reply);
    assert_eq!(t.len(), 16);
    assert_eq!(&t[..2], b"2\n");
    let r = respond(HamlibCommand::GetStatus, 0, 0, 0, None, None, None, false, (0, 0), VERSION, true);
    let t = text(&r.reply);
    assert_eq!(t.len(), 48);
    assert_eq!(&t[..21], b"get_status:\n0\nRPRT 0\n");
    assert!(t[21..].iter().all(|&b| b == 0));
}

#[test]
fn set_conf_replies() {
    let line = b"C park_az 200";
    let (cmd, _, _, args) = Command::parse(line);
    let r = respond(cmd, 0, 0, 0, args, Some(200.0f32.to_bits()), None, false, (0, 0), VERSION, false);
    assert_eq!(r.action, Action::SetParkAz(200.0f32.to_bits()));
    assert_eq!(&text(&r.reply)[..7], b"RPRT 0\n");
    assert_eq!(text(&r.reply).len(), 16);
    // A park token whose value is not a number.
    let r = respond(cmd, 0, 0, 0, args, None, None, false, (0, 0), VERSION, true);
    assert_eq!(r.action, Action::Nothing);
    assert_eq!(&text(&r.reply)[..19], b"set_conf:\nRPRT -2\n\0");
    assert_eq!(text(&r.reply).len(), 32);
    // A read-only token is accepted without change.
    let (cmd, _, _, args) = Command::parse(b"C max_az 10");
    let r = respond(cmd, 0, 0, 0, args, Some(10.0f32.to_bits()), None, false, (0, 0), VERSION, false);
    assert_eq!(r.action, Action::Nothing);
    assert_eq!(&text(&r.reply)[..7], b"RPRT 0\n");
    // An unknown token.
    let (cmd, _, _, args) = Command::parse(b"C speed 10");
    let r = respond(cmd, 0, 0, 0, args, Some(10.0f32.to_bits()), None, false, (0, 0), VERSION, false);
    assert_eq!(&text(&r.reply)[..8], b"RPRT -2\n");
    let (cmd, _, _, args) = Command::parse(b"C park_el 5");
    let r = respond(cmd, 0, 0, 0, args, Some(5.0f32.to_bits()), None, false, (0, 0), VERSION, false);
    assert_eq!(r.action, Action::SetParkEl(5.0f32.to_bits()));
}

#[test]
fn get_conf_replies() {
    let (cmd, _, _, args) = Command::parse(b"\\get_conf max_az");
    let r = respond(cmd, 0, 0, 0, args, None, None, false, (0, 0), VERSION, false);
    assert!(matches!(r.reply, Reply::ConfValue { value, extended: false } if value == 450.0f32.to_bits()));
    let (cmd, _, _, args) = Command::parse(b"\\get_conf bogus");
    let r = respond(cmd, 0, 0, 0, args, None, None, false, (0, 0), VERSION, true);
    assert_eq!(text(&r.reply), b"get_conf:\nRPRT -2\n");
    let r = respond(HamlibCommand::DumpConf, 0, 0, 0, None, None, None, false, (0, 0), VERSION, false);
    assert!(matches!(r.reply, Reply::ConfDump { park_az, park_el: 0, extended: false } if park_az == 180.0f32.to_bits()));
}

#[test]
fn stub_and_unknown_replies() {
    let r = respond_simple(HamlibCommand::Qrb, false);
    assert_eq!(text(&r.reply), b"RPRT -4\n");
    let r = respond_simple(HamlibCommand::Qrb, true);
    assert_eq!(text(&r.reply), b"qrb:\nRPRT -4\n");
    let r = respond_simple(HamlibCommand::AzSp2AzLp, true);
    assert_eq!(text(&r.reply), b"a_sp2a_lp:\nRPRT -4\n");
    let r = respond_simple(HamlibCommand::_None, true);
    assert_eq!(text(&r.reply), b"RPRT -1\n");
    let r = respond_simple(HamlibCommand::GetPos, true);
    assert!(matches!(r.reply, Reply::Position { extended: true }));
}
