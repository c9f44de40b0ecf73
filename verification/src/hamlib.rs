//! The rotctld (Hamlib network rotator) command grammar.
//!
//! Every command has a one-character short form and a long form that starts
//! with a backslash. A command is recognised when the input begins with one of
//! its forms; arguments follow after spaces or tabs.

use vstd::prelude::*;
use vstd::string::StringSliceAdditionalSpecFns;
use crate::http::{bytes_equal, has_prefix, starts_with};

verus! {

/// The result of `nom::number::complete::float` on the given bytes: the
/// unconsumed rest of the input and the bit pattern of the single-precision
/// value read, or `None` when no number is recognised there.
pub uninterp spec fn nom_float_result(input: Seq<u8>) -> Option<(Seq<u8>, u32)>;

/// `nom::number::complete::float` on a byte slice, with the value handed back
/// as its IEEE-754 bit pattern. The contract claims only that the outcome is
/// `nom_float_result` of the input bytes; which texts nom accepts and how it
/// rounds them is left to nom.
#[verifier::external_body]
fn nom_float(input: &[u8]) -> (r: Option<(&[u8], u32)>)
    ensures
        match r {
            Some((rest, bits)) => nom_float_result(input@) == Some((rest@, bits)),
            None => nom_float_result(input@) is None,
        },
{
    match nom::number::complete::float::<&[u8], nom::error::Error<&[u8]>>(input) {
        Ok((rest, value)) => Some((rest, value.to_bits())),
        Err(_) => None,
    }
}

/// The views of a (remaining input, matched part) split.
pub open spec fn split_view(r: Option<(&[u8], &[u8])>) -> Option<(Seq<u8>, Seq<u8>)> {
    match r {
        Some((rest, matched)) => Some((rest@, matched@)),
        None => None,
    }
}

/// The input starts with the bytes `t`: the rest, and the matched part.
pub open spec fn spec_tag(input: Seq<u8>, t: Seq<u8>) -> Option<(Seq<u8>, Seq<u8>)> {
    if has_prefix(input, t) {
        Some((input.skip(t.len() as int), input.take(t.len() as int)))
    } else {
        None
    }
}

/// The input starts with the text `a`, or else with the text `b`.
pub open spec fn spec_alt_tag(input: Seq<u8>, a: &str, b: &str) -> Option<(Seq<u8>, Seq<u8>)> {
    match spec_tag(input, a.spec_bytes()) {
        Some(r) => Some(r),
        None => spec_tag(input, b.spec_bytes()),
    }
}

/// Space or horizontal tab.
pub open spec fn is_blank(b: u8) -> bool {
    b == 0x20u8 || b == 0x09u8
}

/// The end of the run of blanks that starts at `i`.
pub open spec fn blank_end(s: Seq<u8>, i: int) -> int
    decreases s.len() - i,
{
    if 0 <= i < s.len() && is_blank(s[i]) {
        blank_end(s, i + 1)
    } else {
        i
    }
}

/// One or more leading blanks: the rest and the blanks.
pub open spec fn spec_space1(input: Seq<u8>) -> Option<(Seq<u8>, Seq<u8>)> {
    let n = blank_end(input, 0);
    if n == 0 {
        None
    } else {
        Some((input.skip(n), input.take(n)))
    }
}

/// ASCII whitespace as `u8::is_ascii_whitespace` has it: space, tab, line
/// feed, form feed, carriage return.
pub open spec fn is_ascii_ws(b: u8) -> bool {
    b == 0x20u8 || b == 0x09u8 || b == 0x0Au8 || b == 0x0Cu8 || b == 0x0Du8
}

/// Length of `s.take(n)` without its trailing whitespace.
pub open spec fn trimmed_len(s: Seq<u8>, n: nat) -> nat
    decreases n,
{
    if n > 0 && n <= s.len() && is_ascii_ws(s[n - 1]) {
        trimmed_len(s, (n - 1) as nat)
    } else {
        n
    }
}

/// `s` up to and including its last non-whitespace byte; a text made only
/// of whitespace is kept whole.
pub open spec fn trim_end(s: Seq<u8>) -> Seq<u8> {
    let n = trimmed_len(s, s.len());
    if n == 0 {
        s
    } else {
        s.take(n as int)
    }
}

/// Index of the first space at or after `i`.
pub open spec fn first_space(s: Seq<u8>, i: int) -> Option<int>
    decreases s.len() - i,
{
    if i < 0 || i >= s.len() {
        None
    } else if s[i] == 0x20u8 {
        Some(i)
    } else {
        first_space(s, i + 1)
    }
}

/// Two numbers separated by blanks; the rest and both bit patterns.
pub open spec fn spec_two_numbers(input: Seq<u8>) -> Option<(Seq<u8>, (u32, u32))> {
    match nom_float_result(input) {
        None => None,
        Some((r1, a)) => match spec_space1(r1) {
            None => None,
            Some((r2, _)) => match nom_float_result(r2) {
                None => None,
                Some((r3, b)) => Some((r3, (a, b))),
            },
        },
    }
}

/// A command word (either form), blanks, and two numbers.
pub open spec fn spec_word_two_numbers(input: Seq<u8>, a: &str, b: &str) -> Option<
    (Seq<u8>, (u32, u32)),
> {
    match spec_alt_tag(input, a, b) {
        None => None,
        Some((r1, _)) => match spec_space1(r1) {
            None => None,
            Some((r2, _)) => spec_two_numbers(r2),
        },
    }
}

/// A command word whose arguments are all consumed and ignored.
pub open spec fn spec_word_rest(input: Seq<u8>, a: &str, b: &str) -> Option<(Seq<u8>, Seq<u8>)> {
    match spec_alt_tag(input, a, b) {
        None => None,
        Some(_) => Some((Seq::empty(), Seq::empty())),
    }
}

pub open spec fn spec_set_pos(input: Seq<u8>) -> Option<(Seq<u8>, (u32, u32))> {
    spec_word_two_numbers(input, "P", "\\set_pos")
}

pub open spec fn spec_move(input: Seq<u8>) -> Option<(Seq<u8>, (u32, u32))> {
    spec_word_two_numbers(input, "M", "\\move")
}

pub open spec fn spec_dump_state(input: Seq<u8>) -> Option<(Seq<u8>, Seq<u8>)> {
    spec_tag(input, "\\dump_state".spec_bytes())
}

pub open spec fn spec_reset(input: Seq<u8>) -> Option<(Seq<u8>, Seq<u8>)> {
    match spec_alt_tag(input, "R", "\\reset") {
        None => None,
        Some((_, matched)) => Some((Seq::empty(), matched)),
    }
}

/// `C` or `\set_conf`, blanks, then a token up to the first space and a value
/// after it, both without trailing whitespace.
pub open spec fn spec_set_conf(input: Seq<u8>) -> Option<(Seq<u8>, (Seq<u8>, Seq<u8>))> {
    match spec_alt_tag(input, "C", "\\set_conf") {
        None => None,
        Some((r1, _)) => match spec_space1(r1) {
            None => None,
            Some((r2, _)) => match first_space(r2, 0) {
                Some(p) => Some((Seq::empty(), (r2.take(p), trim_end(r2.skip(p + 1))))),
                None => Some((Seq::empty(), (trim_end(r2), Seq::empty()))),
            },
        },
    }
}

/// `\get_conf`, blanks, then a token without trailing whitespace.
pub open spec fn spec_get_conf(input: Seq<u8>) -> Option<(Seq<u8>, Seq<u8>)> {
    match spec_tag(input, "\\get_conf".spec_bytes()) {
        None => None,
        Some((r1, _)) => match spec_space1(r1) {
            None => None,
            Some((r2, _)) => Some((Seq::empty(), trim_end(r2))),
        },
    }
}

pub open spec fn spec_get_info(input: Seq<u8>) -> Option<(Seq<u8>, Seq<u8>)> {
    spec_alt_tag(input, "_", "\\get_info")
}

pub open spec fn spec_get_pos(input: Seq<u8>) -> Option<(Seq<u8>, Seq<u8>)> {
    spec_alt_tag(input, "p", "\\get_pos")
}

pub open spec fn spec_stop(input: Seq<u8>) -> Option<(Seq<u8>, Seq<u8>)> {
    spec_alt_tag(input, "S", "\\stop")
}

pub open spec fn spec_park(input: Seq<u8>) -> Option<(Seq<u8>, Seq<u8>)> {
    spec_alt_tag(input, "K", "\\park")
}

pub open spec fn spec_quit(input: Seq<u8>) -> Option<(Seq<u8>, Seq<u8>)> {
    spec_alt_tag(input, "q", "\\quit")
}

pub open spec fn spec_dump_caps(input: Seq<u8>) -> Option<(Seq<u8>, Seq<u8>)> {
    spec_alt_tag(input, "1", "\\dump_caps")
}

pub open spec fn spec_get_status(input: Seq<u8>) -> Option<(Seq<u8>, Seq<u8>)> {
    spec_alt_tag(input, "s", "\\get_status")
}

pub open spec fn spec_dump_conf(input: Seq<u8>) -> Option<(Seq<u8>, Seq<u8>)> {
    spec_alt_tag(input, "3", "\\dump_conf")
}

pub open spec fn spec_set_level(input: Seq<u8>) -> Option<(Seq<u8>, Seq<u8>)> {
    spec_word_rest(input, "V", "\\set_level")
}

pub open spec fn spec_get_level(input: Seq<u8>) -> Option<(Seq<u8>, Seq<u8>)> {
    spec_word_rest(input, "v", "\\get_level")
}

pub open spec fn spec_set_func(input: Seq<u8>) -> Option<(Seq<u8>, Seq<u8>)> {
    spec_word_rest(input, "U", "\\set_func")
}

pub open spec fn spec_get_func(input: Seq<u8>) -> Option<(Seq<u8>, Seq<u8>)> {
    spec_word_rest(input, "u", "\\get_func")
}

pub open spec fn spec_set_parm(input: Seq<u8>) -> Option<(Seq<u8>, Seq<u8>)> {
    spec_word_rest(input, "X", "\\set_parm")
}

pub open spec fn spec_get_parm(input: Seq<u8>) -> Option<(Seq<u8>, Seq<u8>)> {
    spec_word_rest(input, "x", "\\get_parm")
}

pub open spec fn spec_send_cmd(input: Seq<u8>) -> Option<(Seq<u8>, Seq<u8>)> {
    spec_word_rest(input, "w", "\\send_cmd")
}

pub open spec fn spec_lonlat2loc(input: Seq<u8>) -> Option<(Seq<u8>, Seq<u8>)> {
    spec_word_rest(input, "L", "\\lonlat2loc")
}

pub open spec fn spec_loc2lonlat(input: Seq<u8>) -> Option<(Seq<u8>, Seq<u8>)> {
    spec_word_rest(input, "l", "\\loc2lonlat")
}

pub open spec fn spec_dms2dec(input: Seq<u8>) -> Option<(Seq<u8>, Seq<u8>)> {
    spec_word_rest(input, "D", "\\dms2dec")
}

pub open spec fn spec_dec2dms(input: Seq<u8>) -> Option<(Seq<u8>, Seq<u8>)> {
    spec_word_rest(input, "d", "\\dec2dms")
}

pub open spec fn spec_dmmm2dec(input: Seq<u8>) -> Option<(Seq<u8>, Seq<u8>)> {
    spec_word_rest(input, "E", "\\dmmm2dec")
}

pub open spec fn spec_dec2dmmm(input: Seq<u8>) -> Option<(Seq<u8>, Seq<u8>)> {
    spec_word_rest(input, "e", "\\dec2dmmm")
}

pub open spec fn spec_qrb(input: Seq<u8>) -> Option<(Seq<u8>, Seq<u8>)> {
    spec_word_rest(input, "B", "\\qrb")
}

pub open spec fn spec_az_sp2az_lp(input: Seq<u8>) -> Option<(Seq<u8>, Seq<u8>)> {
    spec_word_rest(input, "A", "\\a_sp2a_lp")
}

pub open spec fn spec_dist_sp2dist_lp(input: Seq<u8>) -> Option<(Seq<u8>, Seq<u8>)> {
    spec_word_rest(input, "a", "\\d_sp2d_lp")
}

/// The commands this adaptor understands.
#[derive(Clone, Copy, Debug, PartialEq, Eq, Structural)]
pub enum HamlibCommand {
    /// Device information.
    GetInfo,
    /// Current azimuth and elevation.
    GetPos,
    /// Stop moving.
    Stop,
    /// Drive to the park position.
    Park,
    /// Drive to an azimuth and elevation.
    SetPos,
    /// Drive in a direction.
    Move,
    /// Close the connection.
    Quit,
    /// Protocol state for `rotctl`.
    DumpState,
    /// Capabilities.
    DumpCaps,
    /// Reset the device.
    Reset,
    /// Movement status flags.
    GetStatus,
    /// Set a configuration token.
    SetConf,
    /// Read a configuration token.
    GetConf,
    /// All configuration tokens.
    DumpConf,
    /// Recognised, answered as not implemented.
    SetLevel,
    /// Recognised, answered as not implemented.
    GetLevel,
    /// Recognised, answered as not implemented.
    SetFunc,
    /// Recognised, answered as not implemented.
    GetFunc,
    /// Recognised, answered as not implemented.
    SetParm,
    /// Recognised, answered as not implemented.
    GetParm,
    /// Recognised, answered as not implemented.
    SendCmd,
    /// Recognised, answered as not implemented.
    Lonlat2Loc,
    /// Recognised, answered as not implemented.
    Loc2Lonlat,
    /// Recognised, answered as not implemented.
    Dms2Dec,
    /// Recognised, answered as not implemented.
    Dec2Dms,
    /// Recognised, answered as not implemented.
    Dmmm2Dec,
    /// Recognised, answered as not implemented.
    Dec2Dmmm,
    /// Recognised, answered as not implemented.
    Qrb,
    /// Recognised, answered as not implemented.
    AzSp2AzLp,
    /// Recognised, answered as not implemented.
    DistSp2DistLp,
    /// Not a command.
    _None,
}

/// The outcome of parsing a command line: the command, two numbers as
/// bit patterns (azimuth and elevation for `SetPos`, direction and speed for
/// `Move`, zero otherwise) and the token/value text of `SetConf` and `GetConf`.
pub open spec fn spec_parse(input: Seq<u8>) -> (HamlibCommand, u32, u32, Option<(Seq<u8>, Seq<u8>)>) {
    if spec_get_info(input) is Some {
        (HamlibCommand::GetInfo, 0, 0, None)
    } else if spec_set_pos(input) is Some {
        (HamlibCommand::SetPos, spec_set_pos(input).unwrap().1.0, spec_set_pos(input).unwrap().1.1, None)
    } else if spec_get_pos(input) is Some {
        (HamlibCommand::GetPos, 0, 0, None)
    } else if spec_stop(input) is Some {
        (HamlibCommand::Stop, 0, 0, None)
    } else if spec_park(input) is Some {
        (HamlibCommand::Park, 0, 0, None)
    } else if spec_quit(input) is Some {
        (HamlibCommand::Quit, 0, 0, None)
    } else if spec_dump_state(input) is Some {
        (HamlibCommand::DumpState, 0, 0, None)
    } else if spec_reset(input) is Some {
        (HamlibCommand::Reset, 0, 0, None)
    } else if spec_move(input) is Some {
        (HamlibCommand::Move, spec_move(input).unwrap().1.0, spec_move(input).unwrap().1.1, None)
    } else if spec_dump_caps(input) is Some {
        (HamlibCommand::DumpCaps, 0, 0, None)
    } else if spec_get_status(input) is Some {
        (HamlibCommand::GetStatus, 0, 0, None)
    } else if spec_set_conf(input) is Some {
        (HamlibCommand::SetConf, 0, 0, Some(spec_set_conf(input).unwrap().1))
    } else if spec_get_conf(input) is Some {
        (HamlibCommand::GetConf, 0, 0, Some((spec_get_conf(input).unwrap().1, Seq::empty())))
    } else if spec_dump_conf(input) is Some {
        (HamlibCommand::DumpConf, 0, 0, None)
    } else if spec_set_level(input) is Some {
        (HamlibCommand::SetLevel, 0, 0, None)
    } else if spec_get_level(input) is Some {
        (HamlibCommand::GetLevel, 0, 0, None)
    } else if spec_set_func(input) is Some {
        (HamlibCommand::SetFunc, 0, 0, None)
    } else if spec_get_func(input) is Some {
        (HamlibCommand::GetFunc, 0, 0, None)
    } else if spec_set_parm(input) is Some {
        (HamlibCommand::SetParm, 0, 0, None)
    } else if spec_get_parm(input) is Some {
        (HamlibCommand::GetParm, 0, 0, None)
    } else if spec_send_cmd(input) is Some {
        (HamlibCommand::SendCmd, 0, 0, None)
    } else if spec_lonlat2loc(input) is Some {
        (HamlibCommand::Lonlat2Loc, 0, 0, None)
    } else if spec_loc2lonlat(input) is Some {
        (HamlibCommand::Loc2Lonlat, 0, 0, None)
    } else if spec_dms2dec(input) is Some {
        (HamlibCommand::Dms2Dec, 0, 0, None)
    } else if spec_dec2dms(input) is Some {
        (HamlibCommand::Dec2Dms, 0, 0, None)
    } else if spec_dmmm2dec(input) is Some {
        (HamlibCommand::Dmmm2Dec, 0, 0, None)
    } else if spec_dec2dmmm(input) is Some {
        (HamlibCommand::Dec2Dmmm, 0, 0, None)
    } else if spec_qrb(input) is Some {
        (HamlibCommand::Qrb, 0, 0, None)
    } else if spec_az_sp2az_lp(input) is Some {
        (HamlibCommand::AzSp2AzLp, 0, 0, None)
    } else if spec_dist_sp2dist_lp(input) is Some {
        (HamlibCommand::DistSp2DistLp, 0, 0, None)
    } else {
        (HamlibCommand::_None, 0, 0, None)
    }
}

/// The views of the token/value part of a parse result.
pub open spec fn args_view(r: Option<(&[u8], &[u8])>) -> Option<(Seq<u8>, Seq<u8>)> {
    split_view(r)
}

fn tag<'a>(input: &'a [u8], t: &str) -> (r: Option<(&'a [u8], &'a [u8])>)
    ensures
        split_view(r) == spec_tag(input@, t.spec_bytes()),
{
    let tb = t.as_bytes();
    if starts_with(input, tb) {
        let rest = &input[tb.len()..input.len()];
        let matched = &input[0..tb.len()];
        assert(rest@ =~= input@.skip(tb@.len() as int));
        assert(matched@ =~= input@.take(tb@.len() as int));
        Some((rest, matched))
    } else {
        None
    }
}

fn alt_tag<'a>(input: &'a [u8], a: &str, b: &str) -> (r: Option<(&'a [u8], &'a [u8])>)
    ensures
        split_view(r) == spec_alt_tag(input@, a, b),
{
    match tag(input, a) {
        Some(r) => Some(r),
        None => tag(input, b),
    }
}

fn space1<'a>(input: &'a [u8]) -> (r: Option<(&'a [u8], &'a [u8])>)
    ensures
        split_view(r) == spec_space1(input@),
{
    let mut i: usize = 0;
    while i < input.len() && (input[i] == 0x20 || input[i] == 0x09)
        invariant
            i <= input@.len(),
            blank_end(input@, 0) == blank_end(input@, i as int),
        decreases input@.len() - i,
    {
        i = i + 1;
    }
    if i == 0 {
        None
    } else {
        let rest = &input[i..input.len()];
        let blanks = &input[0..i];
        assert(rest@ =~= input@.skip(i as int));
        assert(blanks@ =~= input@.take(i as int));
        Some((rest, blanks))
    }
}

fn ascii_ws(b: u8) -> (r: bool)
    ensures
        r == is_ascii_ws(b),
{
    b == 0x20 || b == 0x09 || b == 0x0A || b == 0x0C || b == 0x0D
}

fn trim_end_exec(s: &[u8]) -> (r: &[u8])
    ensures
        r@ == trim_end(s@),
{
    let mut n: usize = s.len();
    while n > 0 && ascii_ws(s[n - 1])
        invariant
            n <= s@.len(),
            trimmed_len(s@, s@.len()) == trimmed_len(s@, n as nat),
        decreases n,
    {
        n = n - 1;
    }
    if n == 0 {
        s
    } else {
        let r = &s[0..n];
        assert(r@ =~= s@.take(n as int));
        r
    }
}

fn first_space_exec(s: &[u8]) -> (r: Option<usize>)
    ensures
        match r {
            Some(p) => first_space(s@, 0) == Some(p as int) && p < s@.len(),
            None => first_space(s@, 0) is None,
        },
{
    let mut i: usize = 0;
    while i < s.len()
        invariant
            i <= s@.len(),
            first_space(s@, 0) == first_space(s@, i as int),
        decreases s@.len() - i,
    {
        if s[i] == 0x20 {
            return Some(i);
        }
        i = i + 1;
    }
    None
}

fn two_numbers(input: &[u8]) -> (r: Option<(&[u8], (u32, u32))>)
    ensures
        match r {
            Some((rest, v)) => spec_two_numbers(input@) == Some((rest@, v)),
            None => spec_two_numbers(input@) is None,
        },
{
    let (r1, a) = match nom_float(input) {
        Some(x) => x,
        None => return None,
    };
    let (r2, _) = match space1(r1) {
        Some(x) => x,
        None => return None,
    };
    let (r3, b) = match nom_float(r2) {
        Some(x) => x,
        None => return None,
    };
    Some((r3, (a, b)))
}

fn word_two_numbers<'a>(input: &'a [u8], a: &str, b: &str) -> (r: Option<(&'a [u8], (u32, u32))>)
    ensures
        match r {
            Some((rest, v)) => spec_word_two_numbers(input@, a, b) == Some((rest@, v)),
            None => spec_word_two_numbers(input@, a, b) is None,
        },
{
    let (r1, _) = match alt_tag(input, a, b) {
        Some(x) => x,
        None => return None,
    };
    let (r2, _) = match space1(r1) {
        Some(x) => x,
        None => return None,
    };
    two_numbers(r2)
}

fn word_rest<'a>(input: &'a [u8], a: &str, b: &str) -> (r: Option<(&'a [u8], &'a [u8])>)
    ensures
        split_view(r) == spec_word_rest(input@, a, b),
{
    match alt_tag(input, a, b) {
        None => None,
        Some((r1, _)) => {
            let empty = &r1[r1.len()..r1.len()];
            assert(empty@ =~= Seq::<u8>::empty());
            Some((empty, empty))
        },
    }
}

/// The tokens of `set_conf` and `get_conf`.
#[derive(Clone, Copy, Debug, PartialEq, Eq, Structural)]
pub enum ConfigToken {
    MinAz,
    MaxAz,
    MinEl,
    MaxEl,
    ParkAz,
    ParkEl,
}

pub open spec fn spec_config_token(input: Seq<u8>) -> Option<ConfigToken> {
    if input == "min_az".spec_bytes() {
        Some(ConfigToken::MinAz)
    } else if input == "max_az".spec_bytes() {
        Some(ConfigToken::MaxAz)
    } else if input == "min_el".spec_bytes() {
        Some(ConfigToken::MinEl)
    } else if input == "max_el".spec_bytes() {
        Some(ConfigToken::MaxEl)
    } else if input == "park_az".spec_bytes() {
        Some(ConfigToken::ParkAz)
    } else if input == "park_el".spec_bytes() {
        Some(ConfigToken::ParkEl)
    } else {
        None
    }
}

impl ConfigToken {
    /// The token whose name is exactly `input`.
    pub fn from_bytes(input: &[u8]) -> (r: Option<Self>)
        ensures
            r == spec_config_token(input@),
    {
        if bytes_equal(input, "min_az".as_bytes()) {
            Some(ConfigToken::MinAz)
        } else if bytes_equal(input, "max_az".as_bytes()) {
            Some(ConfigToken::MaxAz)
        } else if bytes_equal(input, "min_el".as_bytes()) {
            Some(ConfigToken::MinEl)
        } else if bytes_equal(input, "max_el".as_bytes()) {
            Some(ConfigToken::MaxEl)
        } else if bytes_equal(input, "park_az".as_bytes()) {
            Some(ConfigToken::ParkAz)
        } else if bytes_equal(input, "park_el".as_bytes()) {
            Some(ConfigToken::ParkEl)
        } else {
            None
        }
    }
}

/// Namespace of the command parsers.
pub struct Command {
    pub command_type: HamlibCommand,
}

impl Command {
    /// `_` or `\get_info`.
    pub fn parse_get_info(input: &[u8]) -> (r: Option<(&[u8], &[u8])>)
        ensures
            split_view(r) == spec_get_info(input@),
    {
        alt_tag(input, "_", "\\get_info")
    }

    /// `p` or `\get_pos`.
    pub fn parse_get_pos(input: &[u8]) -> (r: Option<(&[u8], &[u8])>)
        ensures
            split_view(r) == spec_get_pos(input@),
    {
        alt_tag(input, "p", "\\get_pos")
    }

    /// `S` or `\stop`.
    pub fn parse_stop(input: &[u8]) -> (r: Option<(&[u8], &[u8])>)
        ensures
            split_view(r) == spec_stop(input@),
    {
        alt_tag(input, "S", "\\stop")
    }

    /// `K` or `\park`.
    pub fn parse_park(input: &[u8]) -> (r: Option<(&[u8], &[u8])>)
        ensures
            split_view(r) == spec_park(input@),
    {
        alt_tag(input, "K", "\\park")
    }

    /// `q` or `\quit`.
    pub fn parse_quit(input: &[u8]) -> (r: Option<(&[u8], &[u8])>)
        ensures
            split_view(r) == spec_quit(input@),
    {
        alt_tag(input, "q", "\\quit")
    }

    /// `1` or `\dump_caps`.
    pub fn parse_dump_caps(input: &[u8]) -> (r: Option<(&[u8], &[u8])>)
        ensures
            split_view(r) == spec_dump_caps(input@),
    {
        alt_tag(input, "1", "\\dump_caps")
    }

    /// `s` or `\get_status`.
    pub fn parse_get_status(input: &[u8]) -> (r: Option<(&[u8], &[u8])>)
        ensures
            split_view(r) == spec_get_status(input@),
    {
        alt_tag(input, "s", "\\get_status")
    }

    /// `3` or `\dump_conf`.
    pub fn parse_dump_conf(input: &[u8]) -> (r: Option<(&[u8], &[u8])>)
        ensures
            split_view(r) == spec_dump_conf(input@),
    {
        alt_tag(input, "3", "\\dump_conf")
    }

    /// `V` or `\set_level`; the arguments are consumed and ignored.
    pub fn parse_set_level(input: &[u8]) -> (r: Option<(&[u8], &[u8])>)
        ensures
            split_view(r) == spec_set_level(input@),
    {
        word_rest(input, "V", "\\set_level")
    }

    /// `v` or `\get_level`; the arguments are consumed and ignored.
    pub fn parse_get_level(input: &[u8]) -> (r: Option<(&[u8], &[u8])>)
        ensures
            split_view(r) == spec_get_level(input@),
    {
        word_rest(input, "v", "\\get_level")
    }

    /// `U` or `\set_func`; the arguments are consumed and ignored.
    pub fn parse_set_func(input: &[u8]) -> (r: Option<(&[u8], &[u8])>)
        ensures
            split_view(r) == spec_set_func(input@),
    {
        word_rest(input, "U", "\\set_func")
    }

    /// `u` or `\get_func`; the arguments are consumed and ignored.
    pub fn parse_get_func(input: &[u8]) -> (r: Option<(&[u8], &[u8])>)
        ensures
            split_view(r) == spec_get_func(input@),
    {
        word_rest(input, "u", "\\get_func")
    }

    /// `X` or `\set_parm`; the arguments are consumed and ignored.
    pub fn parse_set_parm(input: &[u8]) -> (r: Option<(&[u8], &[u8])>)
        ensures
            split_view(r) == spec_set_parm(input@),
    {
        word_rest(input, "X", "\\set_parm")
    }

    /// `x` or `\get_parm`; the arguments are consumed and ignored.
    pub fn parse_get_parm(input: &[u8]) -> (r: Option<(&[u8], &[u8])>)
        ensures
            split_view(r) == spec_get_parm(input@),
    {
        word_rest(input, "x", "\\get_parm")
    }

    /// `w` or `\send_cmd`; the arguments are consumed and ignored.
    pub fn parse_send_cmd(input: &[u8]) -> (r: Option<(&[u8], &[u8])>)
        ensures
            split_view(r) == spec_send_cmd(input@),
    {
        word_rest(input, "w", "\\send_cmd")
    }

    /// `L` or `\lonlat2loc`; the arguments are consumed and ignored.
    pub fn parse_lonlat2loc(input: &[u8]) -> (r: Option<(&[u8], &[u8])>)
        ensures
            split_view(r) == spec_lonlat2loc(input@),
    {
        word_rest(input, "L", "\\lonlat2loc")
    }

    /// `l` or `\loc2lonlat`; the arguments are consumed and ignored.
    pub fn parse_loc2lonlat(input: &[u8]) -> (r: Option<(&[u8], &[u8])>)
        ensures
            split_view(r) == spec_loc2lonlat(input@),
    {
        word_rest(input, "l", "\\loc2lonlat")
    }

    /// `D` or `\dms2dec`; the arguments are consumed and ignored.
    pub fn parse_dms2dec(input: &[u8]) -> (r: Option<(&[u8], &[u8])>)
        ensures
            split_view(r) == spec_dms2dec(input@),
    {
        word_rest(input, "D", "\\dms2dec")
    }

    /// `d` or `\dec2dms`; the arguments are consumed and ignored.
    pub fn parse_dec2dms(input: &[u8]) -> (r: Option<(&[u8], &[u8])>)
        ensures
            split_view(r) == spec_dec2dms(input@),
    {
        word_rest(input, "d", "\\dec2dms")
    }

    /// `E` or `\dmmm2dec`; the arguments are consumed and ignored.
    pub fn parse_dmmm2dec(input: &[u8]) -> (r: Option<(&[u8], &[u8])>)
        ensures
            split_view(r) == spec_dmmm2dec(input@),
    {
        word_rest(input, "E", "\\dmmm2dec")
    }

    /// `e` or `\dec2dmmm`; the arguments are consumed and ignored.
    pub fn parse_dec2dmmm(input: &[u8]) -> (r: Option<(&[u8], &[u8])>)
        ensures
            split_view(r) == spec_dec2dmmm(input@),
    {
        word_rest(input, "e", "\\dec2dmmm")
    }

    /// `B` or `\qrb`; the arguments are consumed and ignored.
    pub fn parse_qrb(input: &[u8]) -> (r: Option<(&[u8], &[u8])>)
        ensures
            split_view(r) == spec_qrb(input@),
    {
        word_rest(input, "B", "\\qrb")
    }

    /// `A` or `\a_sp2a_lp`; the arguments are consumed and ignored.
    pub fn parse_az_sp2az_lp(input: &[u8]) -> (r: Option<(&[u8], &[u8])>)
        ensures
            split_view(r) == spec_az_sp2az_lp(input@),
    {
        word_rest(input, "A", "\\a_sp2a_lp")
    }

    /// `a` or `\d_sp2d_lp`; the arguments are consumed and ignored.
    pub fn parse_dist_sp2dist_lp(input: &[u8]) -> (r: Option<(&[u8], &[u8])>)
        ensures
            split_view(r) == spec_dist_sp2dist_lp(input@),
    {
        word_rest(input, "a", "\\d_sp2d_lp")
    }

    /// `P AZ EL` or `\\set_pos AZ EL`.
    pub fn parse_set_pos(input: &[u8]) -> (r: Option<(&[u8], (u32, u32))>)
        ensures
            match r {
                Some((rest, v)) => spec_set_pos(input@) == Some((rest@, v)),
                None => spec_set_pos(input@) is None,
            },
    {
        word_two_numbers(input, "P", "\\set_pos")
    }

    /// `M DIR SPEED` or `\\move DIR SPEED`.
    pub fn parse_move(input: &[u8]) -> (r: Option<(&[u8], (u32, u32))>)
        ensures
            match r {
                Some((rest, v)) => spec_move(input@) == Some((rest@, v)),
                None => spec_move(input@) is None,
            },
    {
        word_two_numbers(input, "M", "\\move")
    }

    /// `\\dump_state` (no short form).
    pub fn parse_dump_state(input: &[u8]) -> (r: Option<(&[u8], &[u8])>)
        ensures
            split_view(r) == spec_dump_state(input@),
    {
        tag(input, "\\dump_state")
    }

    /// `R` or `\\reset`, with an optional argument that is ignored.
    pub fn parse_reset(input: &[u8]) -> (r: Option<(&[u8], &[u8])>)
        ensures
            split_view(r) == spec_reset(input@),
    {
        match alt_tag(input, "R", "\\reset") {
            None => None,
            Some((r1, matched)) => {
                let empty = &r1[r1.len()..r1.len()];
                assert(empty@ =~= Seq::<u8>::empty());
                Some((empty, matched))
            },
        }
    }

    /// `C TOKEN VALUE` or `\\set_conf TOKEN VALUE`.
    pub fn parse_set_conf(input: &[u8]) -> (r: Option<(&[u8], (&[u8], &[u8]))>)
        ensures
            match r {
                Some((rest, (token, value))) => spec_set_conf(input@) == Some(
                    (rest@, (token@, value@)),
                ),
                None => spec_set_conf(input@) is None,
            },
    {
        let (r1, _) = match alt_tag(input, "C", "\\set_conf") {
            Some(x) => x,
            None => return None,
        };
        let (r2, _) = match space1(r1) {
            Some(x) => x,
            None => return None,
        };
        let empty = &r2[r2.len()..r2.len()];
        assert(empty@ =~= Seq::<u8>::empty());
        match first_space_exec(r2) {
            Some(pos) => {
                let token = &r2[0..pos];
                let value = trim_end_exec(&r2[pos + 1..r2.len()]);
                assert(token@ =~= r2@.take(pos as int));
                assert(r2@.subrange(pos + 1, r2@.len() as int) =~= r2@.skip(pos + 1));
                Some((empty, (token, value)))
            },
            None => Some((empty, (trim_end_exec(r2), empty))),
        }
    }

    /// `\\get_conf TOKEN` (no short form).
    pub fn parse_get_conf(input: &[u8]) -> (r: Option<(&[u8], &[u8])>)
        ensures
            split_view(r) == spec_get_conf(input@),
    {
        let (r1, _) = match tag(input, "\\get_conf") {
            Some(x) => x,
            None => return None,
        };
        let (r2, _) = match space1(r1) {
            Some(x) => x,
            None => return None,
        };
        let empty = &r2[r2.len()..r2.len()];
        assert(empty@ =~= Seq::<u8>::empty());
        Some((empty, trim_end_exec(r2)))
    }

    /// Recognise a command line. The forms are tried in a fixed order and
    /// the first that matches a prefix of the input decides.
    pub fn parse(input: &[u8]) -> (r: (HamlibCommand, u32, u32, Option<(&[u8], &[u8])>))
        ensures
            (r.0, r.1, r.2, args_view(r.3)) == spec_parse(input@),
    {
        if Self::parse_get_info(input).is_some() {
            return (HamlibCommand::GetInfo, 0, 0, None);
        }
        if let Some((_, (x, y))) = Self::parse_set_pos(input) {
            return (HamlibCommand::SetPos, x, y, None);
        }
        if Self::parse_get_pos(input).is_some() {
            return (HamlibCommand::GetPos, 0, 0, None);
        }
        if Self::parse_stop(input).is_some() {
            return (HamlibCommand::Stop, 0, 0, None);
        }
        if Self::parse_park(input).is_some() {
            return (HamlibCommand::Park, 0, 0, None);
        }
        if Self::parse_quit(input).is_some() {
            return (HamlibCommand::Quit, 0, 0, None);
        }
        if Self::parse_dump_state(input).is_some() {
            return (HamlibCommand::DumpState, 0, 0, None);
        }
        if Self::parse_reset(input).is_some() {
            return (HamlibCommand::Reset, 0, 0, None);
        }
        if let Some((_, (x, y))) = Self::parse_move(input) {
            return (HamlibCommand::Move, x, y, None);
        }
        if Self::parse_dump_caps(input).is_some() {
            return (HamlibCommand::DumpCaps, 0, 0, None);
        }
        if Self::parse_get_status(input).is_some() {
            return (HamlibCommand::GetStatus, 0, 0, None);
        }
        if let Some((_, (token, value))) = Self::parse_set_conf(input) {
            return (HamlibCommand::SetConf, 0, 0, Some((token, value)));
        }
        if let Some((rest, token)) = Self::parse_get_conf(input) {
            assert(rest@ =~= Seq::<u8>::empty());
            return (HamlibCommand::GetConf, 0, 0, Some((token, rest)));
        }
        if Self::parse_dump_conf(input).is_some() {
            return (HamlibCommand::DumpConf, 0, 0, None);
        }
        if Self::parse_set_level(input).is_some() {
            return (HamlibCommand::SetLevel, 0, 0, None);
        }
        if Self::parse_get_level(input).is_some() {
            return (HamlibCommand::GetLevel, 0, 0, None);
        }
        if Self::parse_set_func(input).is_some() {
            return (HamlibCommand::SetFunc, 0, 0, None);
        }
        if Self::parse_get_func(input).is_some() {
            return (HamlibCommand::GetFunc, 0, 0, None);
        }
        if Self::parse_set_parm(input).is_some() {
            return (HamlibCommand::SetParm, 0, 0, None);
        }
        if Self::parse_get_parm(input).is_some() {
            return (HamlibCommand::GetParm, 0, 0, None);
        }
        if Self::parse_send_cmd(input).is_some() {
            return (HamlibCommand::SendCmd, 0, 0, None);
        }
        if Self::parse_lonlat2loc(input).is_some() {
            return (HamlibCommand::Lonlat2Loc, 0, 0, None);
        }
        if Self::parse_loc2lonlat(input).is_some() {
            return (HamlibCommand::Loc2Lonlat, 0, 0, None);
        }
        if Self::parse_dms2dec(input).is_some() {
            return (HamlibCommand::Dms2Dec, 0, 0, None);
        }
        if Self::parse_dec2dms(input).is_some() {
            return (HamlibCommand::Dec2Dms, 0, 0, None);
        }
        if Self::parse_dmmm2dec(input).is_some() {
            return (HamlibCommand::Dmmm2Dec, 0, 0, None);
        }
        if Self::parse_dec2dmmm(input).is_some() {
            return (HamlibCommand::Dec2Dmmm, 0, 0, None);
        }
        if Self::parse_qrb(input).is_some() {
            return (HamlibCommand::Qrb, 0, 0, None);
        }
        if Self::parse_az_sp2az_lp(input).is_some() {
            return (HamlibCommand::AzSp2AzLp, 0, 0, None);
        }
        if Self::parse_dist_sp2dist_lp(input).is_some() {
            return (HamlibCommand::DistSp2DistLp, 0, 0, None);
        }
        (HamlibCommand::_None, 0, 0, None)
    }
}

} // verus!
