//! What the adaptor does with one rotctld command line: the change it makes
//! to the shared rotator state and the reply it sends back.
//!
//! Angles are carried as the bit patterns of their single-precision values.
//! Replies that show a measured or stored angle are described here by the
//! values they show; turning those values into decimal text is left to the
//! caller, and every other reply is given byte for byte. A reply built in a
//! fixed-size buffer is sent whole, zero bytes after the text included,
//! since the firmware writes out the entire buffer.

use vstd::prelude::*;
use vstd::string::StringSliceAdditionalSpecFns;
use crate::config::{Config, PARK_AZ_DEFAULT_BITS, ZERO_BITS};
use crate::hamlib::{ConfigToken, HamlibCommand, spec_config_token};
use crate::mdns::push_all;

verus! {

/// Bit pattern of the single-precision value 450.0, the azimuth limit.
pub const AZ_MAX_BITS: u32 = 0x43E1_0000;
/// Bit pattern of the single-precision value 180.0, the elevation limit.
pub const EL_MAX_BITS: u32 = 0x4334_0000;

/// Hamlib move direction codes.
pub const ROT_MOVE_UP: u16 = 2;
pub const ROT_MOVE_DOWN: u16 = 4;
pub const ROT_MOVE_LEFT: u16 = 8;
pub const ROT_MOVE_RIGHT: u16 = 16;
pub const ROT_MOVE_UP_LEFT: u16 = 32;
pub const ROT_MOVE_UP_RIGHT: u16 = 64;
pub const ROT_MOVE_DOWN_LEFT: u16 = 128;
pub const ROT_MOVE_DOWN_RIGHT: u16 = 256;

/// ASCII punctuation, as C's `ispunct`: `!` to `/`, `:` to `@`, `[` to
/// `` ` `` and `{` to `~`.
pub open spec fn is_ascii_punct(b: u8) -> bool {
    (0x21u8 <= b <= 0x2Fu8) || (0x3Au8 <= b <= 0x40u8) || (0x5Bu8 <= b <= 0x60u8) || (
    0x7Bu8 <= b <= 0x7Eu8)
}

/// Whether a byte selects the extended response protocol when it starts a
/// command line: any punctuation character except `\`, `?`, `_` and `#`,
/// which begin commands or comments of their own.
pub open spec fn spec_is_erp_prefix(b: u8) -> bool {
    is_ascii_punct(b) && b != 0x5Cu8 && b != 0x3Fu8 && b != 0x5Fu8 && b != 0x23u8
}

/// Extended-response prefix test: `+`, `;`, `|`, `,` and every other
/// punctuation character except `\`, `?`, `_` and `#`.
pub fn is_erp_prefix(b: u8) -> (r: bool)
    ensures
        r == spec_is_erp_prefix(b),
{
    let punct = (0x21 <= b && b <= 0x2F) || (0x3A <= b && b <= 0x40) || (0x5B <= b && b <= 0x60)
        || (0x7B <= b && b <= 0x7E);
    punct && b != 0x5C && b != 0x3F && b != 0x5F && b != 0x23
}

/// Split an extended-response prefix off a command line: whether the
/// extended protocol is on, and the command text.
pub fn split_erp(input: &[u8]) -> (r: (bool, &[u8]))
    ensures
        input@.len() > 0 && spec_is_erp_prefix(input@[0]) ==> r.0 && r.1@ == input@.drop_first(),
        !(input@.len() > 0 && spec_is_erp_prefix(input@[0])) ==> !r.0 && r.1@ == input@,
{
    if input.len() > 0 && is_erp_prefix(input[0]) {
        let rest = &input[1..input.len()];
        assert(rest@ =~= input@.drop_first());
        (true, rest)
    } else {
        (false, input)
    }
}

/// Where one axis is sent by a move command.
#[derive(Clone, Copy, Debug, PartialEq, Eq, Structural)]
pub enum Target {
    /// Stay where the axis is now.
    Current,
    /// 0°.
    Zero,
    /// The axis limit: 450° azimuth, 180° elevation.
    Max,
}

/// The demand a move in direction `dir` sets: azimuth and elevation targets,
/// or `None` for a code that is not a direction.
pub open spec fn spec_move_targets(dir: u16) -> Option<(Target, Target)> {
    if dir == ROT_MOVE_UP {
        Some((Target::Current, Target::Max))
    } else if dir == ROT_MOVE_DOWN {
        Some((Target::Current, Target::Zero))
    } else if dir == ROT_MOVE_LEFT {
        Some((Target::Zero, Target::Current))
    } else if dir == ROT_MOVE_RIGHT {
        Some((Target::Max, Target::Current))
    } else if dir == ROT_MOVE_UP_LEFT {
        Some((Target::Zero, Target::Max))
    } else if dir == ROT_MOVE_UP_RIGHT {
        Some((Target::Max, Target::Max))
    } else if dir == ROT_MOVE_DOWN_LEFT {
        Some((Target::Zero, Target::Zero))
    } else if dir == ROT_MOVE_DOWN_RIGHT {
        Some((Target::Max, Target::Zero))
    } else {
        None
    }
}

/// The azimuth and elevation targets of a move in direction `dir`.
pub fn move_targets(dir: u16) -> (r: Option<(Target, Target)>)
    ensures
        r == spec_move_targets(dir),
{
    if dir == ROT_MOVE_UP {
        Some((Target::Current, Target::Max))
    } else if dir == ROT_MOVE_DOWN {
        Some((Target::Current, Target::Zero))
    } else if dir == ROT_MOVE_LEFT {
        Some((Target::Zero, Target::Current))
    } else if dir == ROT_MOVE_RIGHT {
        Some((Target::Max, Target::Current))
    } else if dir == ROT_MOVE_UP_LEFT {
        Some((Target::Zero, Target::Max))
    } else if dir == ROT_MOVE_UP_RIGHT {
        Some((Target::Max, Target::Max))
    } else if dir == ROT_MOVE_DOWN_LEFT {
        Some((Target::Zero, Target::Zero))
    } else if dir == ROT_MOVE_DOWN_RIGHT {
        Some((Target::Max, Target::Zero))
    } else {
        None
    }
}

/// The park position: the stored one, or 180° azimuth and 0° elevation when
/// no configuration is stored.
pub open spec fn spec_park_position(stored: Option<Config>) -> (u32, u32) {
    match stored {
        Some(c) => (c.park_az, c.park_el),
        None => (PARK_AZ_DEFAULT_BITS, ZERO_BITS),
    }
}

pub fn park_position(stored: Option<&Config>) -> (r: (u32, u32))
    ensures
        match stored {
            Some(c) => r.0 == c.park_az && r.1 == c.park_el,
            None => r.0 == PARK_AZ_DEFAULT_BITS && r.1 == ZERO_BITS,
        },
        r == spec_park_position(
            match stored {
                Some(c) => Some(*c),
                None => None,
            },
        ),
{
    match stored {
        Some(c) => (c.park_az, c.park_el),
        None => (PARK_AZ_DEFAULT_BITS, ZERO_BITS),
    }
}

/// The value a configuration token reads as.
pub open spec fn spec_token_value(token: ConfigToken, stored: Option<Config>) -> u32 {
    match token {
        ConfigToken::MinAz => ZERO_BITS,
        ConfigToken::MaxAz => AZ_MAX_BITS,
        ConfigToken::MinEl => ZERO_BITS,
        ConfigToken::MaxEl => EL_MAX_BITS,
        ConfigToken::ParkAz => spec_park_position(stored).0,
        ConfigToken::ParkEl => spec_park_position(stored).1,
    }
}

/// The change a command makes to the shared state.
#[derive(Clone, Copy, Debug, PartialEq, Eq, Structural)]
pub enum Action {
    Nothing,
    /// Clear the run flag, keeping the demanded position.
    Stop,
    /// Run towards exactly this position.
    Demand { az: u32, el: u32 },
    /// Run towards this position after limiting it to 0..=450° azimuth and
    /// 0..=180° elevation.
    DemandClamped { az: u32, el: u32 },
    /// Run with each axis sent to a target.
    DemandTargets(Target, Target),
    /// Store a new park azimuth and ask for the configuration to be saved.
    SetParkAz(u32),
    /// Store a new park elevation and ask for the configuration to be saved.
    SetParkEl(u32),
    /// Ask for a system reset.
    Reset,
}

/// The reply to a command.
#[derive(Debug)]
pub enum Reply {
    /// Nothing is sent.
    Nothing,
    /// Exactly these bytes.
    Text(Vec<u8>),
    /// The current azimuth and elevation.
    Position { extended: bool },
    /// The demanded position after limiting (extended protocol only).
    SetPosEcho,
    /// One configuration value.
    ConfValue { value: u32, extended: bool },
    /// All configuration values, with this park position.
    ConfDump { park_az: u32, park_el: u32, extended: bool },
}

/// The effect of one command line.
#[derive(Debug)]
pub struct Response {
    pub action: Action,
    pub reply: Reply,
    /// The connection is closed after this command.
    pub close: bool,
}

/// `text` followed by zero bytes up to `n` bytes in all.
pub open spec fn padded_text(text: Seq<u8>, n: nat) -> Seq<u8> {
    text + Seq::new((n - text.len()) as nat, |i: int| 0u8)
}

/// The reply is exactly `bytes`.
pub open spec fn is_text(r: Reply, bytes: Seq<u8>) -> bool {
    r matches Reply::Text(t) && t@ == bytes
}

/// The reply text of a command, plain or with its extended header.
pub open spec fn plain_or_extended(extended: bool, ext: &str, plain: &str) -> Seq<u8> {
    if extended {
        ext.spec_bytes()
    } else {
        plain.spec_bytes()
    }
}

/// The reply of a command that the adaptor recognises but does not
/// implement.
pub open spec fn stub_reply(cmd: HamlibCommand, extended: bool) -> Seq<u8> {
    if !extended {
        "RPRT -4\n".spec_bytes()
    } else {
        match cmd {
            HamlibCommand::SetLevel => "set_level:\nRPRT -4\n".spec_bytes(),
            HamlibCommand::GetLevel => "get_level:\nRPRT -4\n".spec_bytes(),
            HamlibCommand::SetFunc => "set_func:\nRPRT -4\n".spec_bytes(),
            HamlibCommand::GetFunc => "get_func:\nRPRT -4\n".spec_bytes(),
            HamlibCommand::SetParm => "set_parm:\nRPRT -4\n".spec_bytes(),
            HamlibCommand::GetParm => "get_parm:\nRPRT -4\n".spec_bytes(),
            HamlibCommand::SendCmd => "send_cmd:\nRPRT -4\n".spec_bytes(),
            HamlibCommand::Lonlat2Loc => "lonlat2loc:\nRPRT -4\n".spec_bytes(),
            HamlibCommand::Loc2Lonlat => "loc2lonlat:\nRPRT -4\n".spec_bytes(),
            HamlibCommand::Dms2Dec => "dms2dec:\nRPRT -4\n".spec_bytes(),
            HamlibCommand::Dec2Dms => "dec2dms:\nRPRT -4\n".spec_bytes(),
            HamlibCommand::Dmmm2Dec => "dmmm2dec:\nRPRT -4\n".spec_bytes(),
            HamlibCommand::Dec2Dmmm => "dec2dmmm:\nRPRT -4\n".spec_bytes(),
            HamlibCommand::Qrb => "qrb:\nRPRT -4\n".spec_bytes(),
            HamlibCommand::AzSp2AzLp => "a_sp2a_lp:\nRPRT -4\n".spec_bytes(),
            _ => "d_sp2d_lp:\nRPRT -4\n".spec_bytes(),
        }
    }
}

pub open spec fn is_stub(cmd: HamlibCommand) -> bool {
    ||| cmd == HamlibCommand::SetLevel
    ||| cmd == HamlibCommand::GetLevel
    ||| cmd == HamlibCommand::SetFunc
    ||| cmd == HamlibCommand::GetFunc
    ||| cmd == HamlibCommand::SetParm
    ||| cmd == HamlibCommand::GetParm
    ||| cmd == HamlibCommand::SendCmd
    ||| cmd == HamlibCommand::Lonlat2Loc
    ||| cmd == HamlibCommand::Loc2Lonlat
    ||| cmd == HamlibCommand::Dms2Dec
    ||| cmd == HamlibCommand::Dec2Dms
    ||| cmd == HamlibCommand::Dmmm2Dec
    ||| cmd == HamlibCommand::Dec2Dmmm
    ||| cmd == HamlibCommand::Qrb
    ||| cmd == HamlibCommand::AzSp2AzLp
    ||| cmd == HamlibCommand::DistSp2DistLp
}

/// The result code of `set_conf`: 0 for a read-only token, 0 with the value
/// stored for a park token whose value is a number, -2 otherwise.
pub open spec fn spec_set_conf_code(args: Option<(Seq<u8>, Seq<u8>)>, value: Option<u32>) -> int {
    match args {
        None => -2,
        Some((token, _)) => match spec_config_token(token) {
            None => -2,
            Some(ConfigToken::ParkAz) | Some(ConfigToken::ParkEl) => if value is Some {
                0
            } else {
                -2
            },
            Some(_) => 0,
        },
    }
}

/// Decimal digits of `n`, most significant first, without leading zeros.
pub open spec fn digits_of(n: nat) -> Seq<u8>
    decreases n,
{
    if n < 10 {
        seq![(48 + n) as u8]
    } else {
        digits_of(n / 10).push((48 + n % 10) as u8)
    }
}

/// The text of the `dump_state` reply: protocol version 1, model 601, the
/// travel limits, no south-zero, az/el type, then the raw ADC readings of
/// both axes (so the position readings can be checked against the ADC), and
/// `done`. After the model number every line is a `key=value` pair, which
/// Hamlib's network rotator client reads up to `done`.
pub open spec fn dump_state_text(raw_az: u16, raw_el: u16) -> Seq<u8> {
    "1\n601\nmin_az=0.000000\nmax_az=450.000000\nmin_el=0.000000\nmax_el=180.000000\nsouth_zero=0\nrot_type=AzEl\n".spec_bytes()
        + "az_raw=".spec_bytes() + digits_of(raw_az as nat) + "\nel_raw=".spec_bytes()
        + digits_of(raw_el as nat) + "\ndone\n".spec_bytes()
}

/// The product name shown by `get_info`.
pub open spec fn product_name() -> Seq<u8> {
    "G-5500 HamLib Adaptor - Phil Crump M0DNY".spec_bytes()
}

/// The text of the `get_info` reply for firmware version `version`.
pub open spec fn info_text(version: Seq<u8>, extended: bool) -> Seq<u8> {
    if extended {
        "get_info:\nInfo: ".spec_bytes() + product_name() + ", firmware: ".spec_bytes() + version
            + "\nRPRT 0\n".spec_bytes()
    } else {
        "Info \"".spec_bytes() + product_name() + ", firmware: ".spec_bytes() + version
            + "\"\n".spec_bytes()
    }
}

/// The capability list of `dump_caps` for firmware version `version`.
pub open spec fn caps_text(version: Seq<u8>) -> Seq<u8> {
    "Model name: G-5500 Hamlib Adaptor\nMfg name: Yaesu/Custom\nBackend version: ".spec_bytes()
        + version
        + "\nType: Az-El\nMin Azimuth: 0.00\nMax Azimuth: 450.00\nMin Elevation: 0.00\nMax Elevation: 180.00\nCan set Position: Y\nCan get Position: Y\nCan Stop: Y\nCan Park: Y\nCan Reset: Y\nCan Move: Y\nCan get Info: Y\n".spec_bytes()
}

/// The whole `dump_caps` reply: the capability list in a 512-byte block,
/// framed by its header and result line in the extended protocol.
pub open spec fn caps_reply_text(version: Seq<u8>, extended: bool) -> Seq<u8> {
    if extended {
        "dump_caps:\n".spec_bytes() + padded_text(caps_text(version), 512) + "RPRT 0\n".spec_bytes()
    } else {
        padded_text(caps_text(version), 512)
    }
}

/// The whole effect of a command, as `respond` computes it.
///
/// * `x`, `y`: the two numbers parsed with the command (bit patterns);
/// * `dir`: the first number converted to a move direction code;
/// * `args`: the token and value text of `set_conf` / `get_conf`;
/// * `value`: the `set_conf` value text read as a number (bit pattern), if it is one;
/// * `stored`: the stored configuration, if any;
/// * `running`: whether the rotator is currently commanded to run;
/// * `raw_az`, `raw_el`: the current raw ADC readings, rounded;
/// * `version`: the firmware version text;
/// * `extended`: the extended response protocol is on.
pub open spec fn response_ok(
    r: Response,
    cmd: HamlibCommand,
    x: u32,
    y: u32,
    dir: u16,
    args: Option<(Seq<u8>, Seq<u8>)>,
    value: Option<u32>,
    stored: Option<Config>,
    running: bool,
    raw_az: u16,
    raw_el: u16,
    version: Seq<u8>,
    extended: bool,
) -> bool {
    match cmd {
        HamlibCommand::GetInfo => r.action == Action::Nothing && is_text(
            r.reply,
            padded_text(info_text(version, extended), 192),
        ) && !r.close,
        HamlibCommand::GetPos => r.action == Action::Nothing && r.reply == (Reply::Position {
            extended,
        }) && !r.close,
        HamlibCommand::Stop => r.action == Action::Stop && is_text(
            r.reply,
            plain_or_extended(extended, "stop:\nRPRT 0\n", "RPRT 0\n"),
        ) && !r.close,
        HamlibCommand::Park => r.action == (Action::Demand {
            az: spec_park_position(stored).0,
            el: spec_park_position(stored).1,
        }) && is_text(r.reply, plain_or_extended(extended, "park:\nRPRT 0\n", "RPRT 0\n"))
            && !r.close,
        HamlibCommand::SetPos => r.action == (Action::DemandClamped { az: x, el: y }) && (if extended {
            r.reply == Reply::SetPosEcho
        } else {
            is_text(r.reply, "RPRT 0\n".spec_bytes())
        }) && !r.close,
        HamlibCommand::Quit => r.action == Action::Nothing && r.reply == Reply::Nothing && r.close,
        HamlibCommand::DumpState => r.action == Action::Nothing && is_text(
            r.reply,
            padded_text(dump_state_text(raw_az, raw_el), 256),
        ) && !r.close,
        HamlibCommand::Reset => r.action == Action::Reset && r.reply == Reply::Nothing && r.close,
        HamlibCommand::Move => (match spec_move_targets(dir) {
            Some((az, el)) => r.action == (Action::DemandTargets(az, el)) && is_text(
                r.reply,
                plain_or_extended(extended, "move:\nRPRT 0\n", "RPRT 0\n"),
            ),
            None => r.action == Action::Nothing && is_text(
                r.reply,
                plain_or_extended(extended, "move:\nRPRT -2\n", "RPRT -2\n"),
            ),
        }) && !r.close,
        HamlibCommand::DumpCaps => r.action == Action::Nothing && is_text(
            r.reply,
            caps_reply_text(version, extended),
        ) && !r.close,
        HamlibCommand::GetStatus => r.action == Action::Nothing && is_text(
            r.reply,
            if extended {
                padded_text(
                    if running {
                        "get_status:\n2\nRPRT 0\n".spec_bytes()
                    } else {
                        "get_status:\n0\nRPRT 0\n".spec_bytes()
                    },
                    48,
                )
            } else {
                padded_text(
                    if running {
                        "2\n".spec_bytes()
                    } else {
                        "0\n".spec_bytes()
                    },
                    16,
                )
            },
        ) && !r.close,
        HamlibCommand::SetConf => {
            let code = spec_set_conf_code(args, value);
            &&& r.action == (if code == 0 && spec_config_token(args.unwrap().0) == Some(
                ConfigToken::ParkAz,
            ) {
                Action::SetParkAz(value.unwrap())
            } else if code == 0 && spec_config_token(args.unwrap().0) == Some(
                ConfigToken::ParkEl,
            ) {
                Action::SetParkEl(value.unwrap())
            } else {
                Action::Nothing
            })
            &&& is_text(
                r.reply,
                if extended {
                    padded_text(
                        if code == 0 {
                            "set_conf:\nRPRT 0\n".spec_bytes()
                        } else {
                            "set_conf:\nRPRT -2\n".spec_bytes()
                        },
                        32,
                    )
                } else {
                    padded_text(
                        if code == 0 {
                            "RPRT 0\n".spec_bytes()
                        } else {
                            "RPRT -2\n".spec_bytes()
                        },
                        16,
                    )
                },
            )
            &&& !r.close
        },
        HamlibCommand::GetConf => r.action == Action::Nothing && (match args {
            Some((token, _)) => match spec_config_token(token) {
                Some(t) => r.reply == (Reply::ConfValue {
                    value: spec_token_value(t, stored),
                    extended,
                }),
                None => is_text(
                    r.reply,
                    plain_or_extended(extended, "get_conf:\nRPRT -2\n", "RPRT -2\n"),
                ),
            },
            None => is_text(
                r.reply,
                plain_or_extended(extended, "get_conf:\nRPRT -2\n", "RPRT -2\n"),
            ),
        }) && !r.close,
        HamlibCommand::DumpConf => r.action == Action::Nothing && r.reply == (Reply::ConfDump {
            park_az: spec_park_position(stored).0,
            park_el: spec_park_position(stored).1,
            extended,
        }) && !r.close,
        HamlibCommand::_None => r.action == Action::Nothing && is_text(
            r.reply,
            "RPRT -1\n".spec_bytes(),
        ) && !r.close,
        _ => r.action == Action::Nothing && is_text(r.reply, stub_reply(cmd, extended))
            && !r.close,
    }
}

fn text(s: &str) -> (r: Reply)
    ensures
        is_text(r, s.spec_bytes()),
{
    Reply::Text(vstd::slice::slice_to_vec(s.as_bytes()))
}

fn text_of(extended: bool, ext: &str, plain: &str) -> (r: Reply)
    ensures
        is_text(r, plain_or_extended(extended, ext, plain)),
{
    if extended {
        text(ext)
    } else {
        text(plain)
    }
}

fn padded(s: &str, n: usize) -> (r: Reply)
    requires
        s.spec_bytes().len() <= n,
    ensures
        is_text(r, padded_text(s.spec_bytes(), n as nat)),
{
    let b = s.as_bytes();
    let mut v: Vec<u8> = vstd::slice::slice_to_vec(b);
    while v.len() < n
        invariant
            b@.len() <= v@.len() <= n,
            v@.take(b@.len() as int) == b@,
            forall|i: int| b@.len() <= i < v@.len() ==> v@[i] == 0u8,
        decreases n - v@.len(),
    {
        v.push(0);
    }
    assert(v@ =~= padded_text(b@, n as nat));
    Reply::Text(v)
}


/// The stored configuration, seen through a reference.
pub open spec fn stored_view(stored: Option<&Config>) -> Option<Config> {
    match stored {
        Some(c) => Some(*c),
        None => None,
    }
}

/// The views of the token/value text.
pub open spec fn args_view(args: Option<(&[u8], &[u8])>) -> Option<(Seq<u8>, Seq<u8>)> {
    match args {
        Some((t, v)) => Some((t@, v@)),
        None => None,
    }
}

proof fn lemma_ascii_len(s: &str)
    requires
        vstd::string::is_ascii(s),
    ensures
        s.spec_bytes().len() == s@.len(),
{
    vstd::string::is_ascii_spec_bytes(s);
}

fn set_conf_reply(ok: bool, extended: bool) -> (r: Reply)
    ensures
        is_text(
            r,
            if extended {
                padded_text(
                    if ok {
                        "set_conf:\nRPRT 0\n".spec_bytes()
                    } else {
                        "set_conf:\nRPRT -2\n".spec_bytes()
                    },
                    32,
                )
            } else {
                padded_text(
                    if ok {
                        "RPRT 0\n".spec_bytes()
                    } else {
                        "RPRT -2\n".spec_bytes()
                    },
                    16,
                )
            },
        ),
{
    proof {
        reveal_strlit("set_conf:\nRPRT 0\n");
        reveal_strlit("set_conf:\nRPRT -2\n");
        reveal_strlit("RPRT 0\n");
        reveal_strlit("RPRT -2\n");
        lemma_ascii_len("set_conf:\nRPRT 0\n");
        lemma_ascii_len("set_conf:\nRPRT -2\n");
        lemma_ascii_len("RPRT 0\n");
        lemma_ascii_len("RPRT -2\n");
    }
    if extended {
        if ok {
            padded("set_conf:\nRPRT 0\n", 32)
        } else {
            padded("set_conf:\nRPRT -2\n", 32)
        }
    } else {
        if ok {
            padded("RPRT 0\n", 16)
        } else {
            padded("RPRT -2\n", 16)
        }
    }
}

fn status_reply(running: bool, extended: bool) -> (r: Reply)
    ensures
        is_text(
            r,
            if extended {
                padded_text(
                    if running {
                        "get_status:\n2\nRPRT 0\n".spec_bytes()
                    } else {
                        "get_status:\n0\nRPRT 0\n".spec_bytes()
                    },
                    48,
                )
            } else {
                padded_text(
                    if running {
                        "2\n".spec_bytes()
                    } else {
                        "0\n".spec_bytes()
                    },
                    16,
                )
            },
        ),
{
    proof {
        reveal_strlit("get_status:\n2\nRPRT 0\n");
        reveal_strlit("get_status:\n0\nRPRT 0\n");
        reveal_strlit("2\n");
        reveal_strlit("0\n");
        lemma_ascii_len("get_status:\n2\nRPRT 0\n");
        lemma_ascii_len("get_status:\n0\nRPRT 0\n");
        lemma_ascii_len("2\n");
        lemma_ascii_len("0\n");
    }
    if extended {
        if running {
            padded("get_status:\n2\nRPRT 0\n", 48)
        } else {
            padded("get_status:\n0\nRPRT 0\n", 48)
        }
    } else {
        if running {
            padded("2\n", 16)
        } else {
            padded("0\n", 16)
        }
    }
}

/// Append the decimal digits of `n`.
fn push_digits(v: &mut Vec<u8>, n: u16)
    ensures
        final(v)@ == old(v)@ + digits_of(n as nat),
    decreases n,
{
    if n >= 10 {
        push_digits(v, n / 10);
    }
    let d: u8 = (n % 10) as u8;
    v.push(48u8 + d);
    proof {
        if n >= 10 {
            assert(digits_of(n as nat) == digits_of((n / 10) as nat).push((48 + n % 10) as u8));
        }
    }
    assert(final(v)@ =~= old(v)@ + digits_of(n as nat));
}

/// Append zero bytes up to `n` bytes in all.
fn pad_zeros(v: &mut Vec<u8>, n: usize)
    requires
        old(v)@.len() <= n,
    ensures
        final(v)@ == padded_text(old(v)@, n as nat),
{
    let ghost start = v@;
    while v.len() < n
        invariant
            start.len() <= v@.len() <= n,
            v@.take(start.len() as int) == start,
            forall|i: int| start.len() <= i < v@.len() ==> v@[i] == 0u8,
        decreases n - v@.len(),
    {
        v.push(0);
    }
    assert(v@ =~= padded_text(start, n as nat));
}

proof fn lemma_digits_len(n: nat)
    requires
        n < 100000,
    ensures
        digits_of(n).len() <= 5,
{
    let n1 = n / 10;
    let n2 = n1 / 10;
    let n3 = n2 / 10;
    let n4 = n3 / 10;
    if n >= 10 {
        if n1 >= 10 {
            if n2 >= 10 {
                if n3 >= 10 {
                    assert(digits_of(n4).len() == 1);
                }
                assert(digits_of(n3).len() <= 2);
            }
            assert(digits_of(n2).len() <= 3);
        }
        assert(digits_of(n1).len() <= 4);
    }
}

fn dump_state_reply(raw_az: u16, raw_el: u16) -> (r: Reply)
    ensures
        is_text(r, padded_text(dump_state_text(raw_az, raw_el), 256)),
{
    let head = "1\n601\nmin_az=0.000000\nmax_az=450.000000\nmin_el=0.000000\nmax_el=180.000000\nsouth_zero=0\nrot_type=AzEl\n";
    proof {
        reveal_strlit(
            "1\n601\nmin_az=0.000000\nmax_az=450.000000\nmin_el=0.000000\nmax_el=180.000000\nsouth_zero=0\nrot_type=AzEl\n",
        );
        lemma_ascii_len(
            "1\n601\nmin_az=0.000000\nmax_az=450.000000\nmin_el=0.000000\nmax_el=180.000000\nsouth_zero=0\nrot_type=AzEl\n",
        );
        reveal_strlit("az_raw=");
        lemma_ascii_len("az_raw=");
        reveal_strlit("\nel_raw=");
        lemma_ascii_len("\nel_raw=");
        reveal_strlit("\ndone\n");
        lemma_ascii_len("\ndone\n");
        lemma_digits_len(raw_az as nat);
        lemma_digits_len(raw_el as nat);
    }
    let mut v: Vec<u8> = Vec::new();
    push_all(&mut v, head.as_bytes());
    push_all(&mut v, "az_raw=".as_bytes());
    push_digits(&mut v, raw_az);
    push_all(&mut v, "\nel_raw=".as_bytes());
    push_digits(&mut v, raw_el);
    push_all(&mut v, "\ndone\n".as_bytes());
    assert(v@ =~= dump_state_text(raw_az, raw_el));
    pad_zeros(&mut v, 256);
    Reply::Text(v)
}

fn info_reply(version: &[u8], extended: bool) -> (r: Reply)
    requires
        info_text(version@, extended).len() <= 192,
    ensures
        is_text(r, padded_text(info_text(version@, extended), 192)),
{
    let mut v: Vec<u8> = Vec::new();
    if extended {
        push_all(&mut v, "get_info:\nInfo: ".as_bytes());
        push_all(&mut v, "G-5500 HamLib Adaptor - Phil Crump M0DNY".as_bytes());
        push_all(&mut v, ", firmware: ".as_bytes());
        push_all(&mut v, version);
        push_all(&mut v, "\nRPRT 0\n".as_bytes());
    } else {
        push_all(&mut v, "Info \"".as_bytes());
        push_all(&mut v, "G-5500 HamLib Adaptor - Phil Crump M0DNY".as_bytes());
        push_all(&mut v, ", firmware: ".as_bytes());
        push_all(&mut v, version);
        push_all(&mut v, "\"\n".as_bytes());
    }
    assert(v@ =~= info_text(version@, extended));
    pad_zeros(&mut v, 192);
    Reply::Text(v)
}

fn caps_reply(version: &[u8], extended: bool) -> (r: Reply)
    requires
        caps_text(version@).len() <= 512,
    ensures
        is_text(r, caps_reply_text(version@, extended)),
{
    let mut caps: Vec<u8> = Vec::new();
    push_all(
        &mut caps,
        "Model name: G-5500 Hamlib Adaptor\nMfg name: Yaesu/Custom\nBackend version: ".as_bytes(),
    );
    push_all(&mut caps, version);
    push_all(
        &mut caps,
        "\nType: Az-El\nMin Azimuth: 0.00\nMax Azimuth: 450.00\nMin Elevation: 0.00\nMax Elevation: 180.00\nCan set Position: Y\nCan get Position: Y\nCan Stop: Y\nCan Park: Y\nCan Reset: Y\nCan Move: Y\nCan get Info: Y\n".as_bytes(),
    );
    assert(caps@ =~= caps_text(version@));
    pad_zeros(&mut caps, 512);
    if extended {
        let mut v: Vec<u8> = Vec::new();
        push_all(&mut v, "dump_caps:\n".as_bytes());
        push_all(&mut v, caps.as_slice());
        push_all(&mut v, "RPRT 0\n".as_bytes());
        assert(v@ =~= caps_reply_text(version@, extended));
        Reply::Text(v)
    } else {
        Reply::Text(caps)
    }
}

/// The value a configuration token reads as.
pub fn token_value(token: ConfigToken, stored: Option<&Config>) -> (v: u32)
    ensures
        v == spec_token_value(token, stored_view(stored)),
        token == ConfigToken::ParkAz ==> v == match stored {
            Some(c) => c.park_az,
            None => PARK_AZ_DEFAULT_BITS,
        },
        token == ConfigToken::ParkEl ==> v == match stored {
            Some(c) => c.park_el,
            None => ZERO_BITS,
        },
{
    match token {
        ConfigToken::MinAz => ZERO_BITS,
        ConfigToken::MaxAz => AZ_MAX_BITS,
        ConfigToken::MinEl => ZERO_BITS,
        ConfigToken::MaxEl => EL_MAX_BITS,
        ConfigToken::ParkAz => park_position(stored).0,
        ConfigToken::ParkEl => park_position(stored).1,
    }
}

/// What to do with a parsed command line; see `response_ok` for the
/// meaning of each argument.
pub fn respond(
    cmd: HamlibCommand,
    x: u32,
    y: u32,
    dir: u16,
    args: Option<(&[u8], &[u8])>,
    value: Option<u32>,
    stored: Option<&Config>,
    running: bool,
    raw: (u16, u16),
    version: &[u8],
    extended: bool,
) -> (r: Response)
    requires
        cmd == HamlibCommand::GetInfo ==> info_text(version@, extended).len() <= 192,
        cmd == HamlibCommand::DumpCaps ==> caps_text(version@).len() <= 512,
    ensures
        response_ok(
            r,
            cmd,
            x,
            y,
            dir,
            args_view(args),
            value,
            stored_view(stored),
            running,
            raw.0,
            raw.1,
            version@,
            extended,
        ),
{
    match cmd {
        HamlibCommand::GetInfo => Response {
            action: Action::Nothing,
            reply: info_reply(version, extended),
            close: false,
        },
        HamlibCommand::GetPos => Response {
            action: Action::Nothing,
            reply: Reply::Position { extended },
            close: false,
        },
        HamlibCommand::Stop => Response {
            action: Action::Stop,
            reply: text_of(extended, "stop:\nRPRT 0\n", "RPRT 0\n"),
            close: false,
        },
        HamlibCommand::Park => {
            let (az, el) = park_position(stored);
            Response {
                action: Action::Demand { az, el },
                reply: text_of(extended, "park:\nRPRT 0\n", "RPRT 0\n"),
                close: false,
            }
        },
        HamlibCommand::SetPos => Response {
            action: Action::DemandClamped { az: x, el: y },
            reply: if extended {
                Reply::SetPosEcho
            } else {
                text("RPRT 0\n")
            },
            close: false,
        },
        HamlibCommand::Quit => Response { action: Action::Nothing, reply: Reply::Nothing, close: true },
        HamlibCommand::DumpState => Response {
            action: Action::Nothing,
            reply: dump_state_reply(raw.0, raw.1),
            close: false,
        },
        HamlibCommand::Reset => Response { action: Action::Reset, reply: Reply::Nothing, close: true },
        HamlibCommand::Move => match move_targets(dir) {
            Some((az, el)) => Response {
                action: Action::DemandTargets(az, el),
                reply: text_of(extended, "move:\nRPRT 0\n", "RPRT 0\n"),
                close: false,
            },
            None => Response {
                action: Action::Nothing,
                reply: text_of(extended, "move:\nRPRT -2\n", "RPRT -2\n"),
                close: false,
            },
        },
        HamlibCommand::DumpCaps => Response {
            action: Action::Nothing,
            reply: caps_reply(version, extended),
            close: false,
        },
        HamlibCommand::GetStatus => Response {
            action: Action::Nothing,
            reply: status_reply(running, extended),
            close: false,
        },
        HamlibCommand::SetConf => {
            let mut action = Action::Nothing;
            let ok = match args {
                None => false,
                Some((token, _)) => match ConfigToken::from_bytes(token) {
                    None => false,
                    Some(ConfigToken::ParkAz) => match value {
                        Some(v) => {
                            action = Action::SetParkAz(v);
                            true
                        },
                        None => false,
                    },
                    Some(ConfigToken::ParkEl) => match value {
                        Some(v) => {
                            action = Action::SetParkEl(v);
                            true
                        },
                        None => false,
                    },
                    Some(_) => true,
                },
            };
            Response { action, reply: set_conf_reply(ok, extended), close: false }
        },
        HamlibCommand::GetConf => {
            let reply = match args {
                Some((token, _)) => match ConfigToken::from_bytes(token) {
                    Some(t) => Reply::ConfValue { value: token_value(t, stored), extended },
                    None => text_of(extended, "get_conf:\nRPRT -2\n", "RPRT -2\n"),
                },
                None => text_of(extended, "get_conf:\nRPRT -2\n", "RPRT -2\n"),
            };
            Response { action: Action::Nothing, reply, close: false }
        },
        HamlibCommand::DumpConf => {
            let (park_az, park_el) = park_position(stored);
            Response {
                action: Action::Nothing,
                reply: Reply::ConfDump { park_az, park_el, extended },
                close: false,
            }
        },
            HamlibCommand::SetLevel => Response {
                action: Action::Nothing,
                reply: text_of(extended, "set_level:\nRPRT -4\n", "RPRT -4\n"),
                close: false,
            },
            HamlibCommand::GetLevel => Response {
                action: Action::Nothing,
                reply: text_of(extended, "get_level:\nRPRT -4\n", "RPRT -4\n"),
                close: false,
            },
            HamlibCommand::SetFunc => Response {
                action: Action::Nothing,
                reply: text_of(extended, "set_func:\nRPRT -4\n", "RPRT -4\n"),
                close: false,
            },
            HamlibCommand::GetFunc => Response {
                action: Action::Nothing,
                reply: text_of(extended, "get_func:\nRPRT -4\n", "RPRT -4\n"),
                close: false,
            },
            HamlibCommand::SetParm => Response {
                action: Action::Nothing,
                reply: text_of(extended, "set_parm:\nRPRT -4\n", "RPRT -4\n"),
                close: false,
            },
            HamlibCommand::GetParm => Response {
                action: Action::Nothing,
                reply: text_of(extended, "get_parm:\nRPRT -4\n", "RPRT -4\n"),
                close: false,
            },
            HamlibCommand::SendCmd => Response {
                action: Action::Nothing,
                reply: text_of(extended, "send_cmd:\nRPRT -4\n", "RPRT -4\n"),
                close: false,
            },
            HamlibCommand::Lonlat2Loc => Response {
                action: Action::Nothing,
                reply: text_of(extended, "lonlat2loc:\nRPRT -4\n", "RPRT -4\n"),
                close: false,
            },
            HamlibCommand::Loc2Lonlat => Response {
                action: Action::Nothing,
                reply: text_of(extended, "loc2lonlat:\nRPRT -4\n", "RPRT -4\n"),
                close: false,
            },
            HamlibCommand::Dms2Dec => Response {
                action: Action::Nothing,
                reply: text_of(extended, "dms2dec:\nRPRT -4\n", "RPRT -4\n"),
                close: false,
            },
            HamlibCommand::Dec2Dms => Response {
                action: Action::Nothing,
                reply: text_of(extended, "dec2dms:\nRPRT -4\n", "RPRT -4\n"),
                close: false,
            },
            HamlibCommand::Dmmm2Dec => Response {
                action: Action::Nothing,
                reply: text_of(extended, "dmmm2dec:\nRPRT -4\n", "RPRT -4\n"),
                close: false,
            },
            HamlibCommand::Dec2Dmmm => Response {
                action: Action::Nothing,
                reply: text_of(extended, "dec2dmmm:\nRPRT -4\n", "RPRT -4\n"),
                close: false,
            },
            HamlibCommand::Qrb => Response {
                action: Action::Nothing,
                reply: text_of(extended, "qrb:\nRPRT -4\n", "RPRT -4\n"),
                close: false,
            },
            HamlibCommand::AzSp2AzLp => Response {
                action: Action::Nothing,
                reply: text_of(extended, "a_sp2a_lp:\nRPRT -4\n", "RPRT -4\n"),
                close: false,
            },
            HamlibCommand::DistSp2DistLp => Response {
                action: Action::Nothing,
                reply: text_of(extended, "d_sp2d_lp:\nRPRT -4\n", "RPRT -4\n"),
                close: false,
            },
            HamlibCommand::_None => Response {
            action: Action::Nothing,
            reply: text("RPRT -1\n"),
            close: false,
        },
    }
}

/// The values configuration tokens read as: park azimuth and park
/// elevation are the stored configuration's own two fields, each
/// independent of the other (180° and 0° when nothing is stored), and the
/// travel limits are 0..=450° azimuth and 0..=180° elevation.
pub proof fn lemma_token_values(c: Config)
    ensures
        spec_token_value(ConfigToken::ParkAz, Some(c)) == c.park_az,
        spec_token_value(ConfigToken::ParkEl, Some(c)) == c.park_el,
        spec_token_value(ConfigToken::ParkAz, None) == 0x4334_0000u32,
        spec_token_value(ConfigToken::ParkEl, None) == 0u32,
        spec_token_value(ConfigToken::MinAz, Some(c)) == 0u32,
        spec_token_value(ConfigToken::MaxAz, Some(c)) == 0x43E1_0000u32,
        spec_token_value(ConfigToken::MinEl, Some(c)) == 0u32,
        spec_token_value(ConfigToken::MaxEl, Some(c)) == 0x4334_0000u32,
        forall|d: Config|
            d.park_el == c.park_el ==> spec_token_value(ConfigToken::ParkEl, Some(d))
                == spec_token_value(ConfigToken::ParkEl, Some(c)),
{
}

/// Parking goes to the park position the user stored, when one is stored,
/// and to the factory position 180° azimuth, 0° elevation only when none is:
/// every response to `park` demands exactly that position and replies
/// `RPRT 0`.
pub proof fn lemma_park_demands_stored(
    r: Response,
    x: u32,
    y: u32,
    dir: u16,
    args: Option<(Seq<u8>, Seq<u8>)>,
    value: Option<u32>,
    stored: Option<Config>,
    running: bool,
    raw_az: u16,
    raw_el: u16,
    version: Seq<u8>,
    extended: bool,
)
    requires
        response_ok(
            r,
            HamlibCommand::Park,
            x,
            y,
            dir,
            args,
            value,
            stored,
            running,
            raw_az,
            raw_el,
            version,
            extended,
        ),
    ensures
        match stored {
            Some(c) => r.action == (Action::Demand { az: c.park_az, el: c.park_el }),
            None => r.action == (Action::Demand { az: 0x4334_0000u32, el: 0u32 }),
        },
        !r.close,
{
}

/// Reading a park token with `get_conf` reports the stored park value of
/// that very axis.
pub proof fn lemma_get_conf_park(
    r: Response,
    token: Seq<u8>,
    rest: Seq<u8>,
    c: Config,
    x: u32,
    y: u32,
    dir: u16,
    value: Option<u32>,
    running: bool,
    raw_az: u16,
    raw_el: u16,
    version: Seq<u8>,
    extended: bool,
)
    requires
        response_ok(
            r,
            HamlibCommand::GetConf,
            x,
            y,
            dir,
            Some((token, rest)),
            value,
            Some(c),
            running,
            raw_az,
            raw_el,
            version,
            extended,
        ),
    ensures
        spec_config_token(token) == Some(ConfigToken::ParkAz) ==> r.reply == (Reply::ConfValue {
            value: c.park_az,
            extended,
        }),
        spec_config_token(token) == Some(ConfigToken::ParkEl) ==> r.reply == (Reply::ConfValue {
            value: c.park_el,
            extended,
        }),
{
}

} // verus!
