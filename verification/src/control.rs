//! Rotator control decisions: the relay outputs for a demanded position,
//! the averaging of ADC samples, the network fallback and the status LED.

use vstd::prelude::*;
use crate::config::Config;

verus! {

/// The four direction relays.
#[derive(Clone, Copy, Debug, PartialEq, Eq, Structural)]
pub struct Relays {
    pub az_cw: bool,
    pub az_ccw: bool,
    pub el_up: bool,
    pub el_dn: bool,
}

/// One control step's outcome: the relay states, and whether the run flag
/// is to be cleared because both axes are on target.
#[derive(Clone, Copy, Debug, PartialEq, Eq, Structural)]
pub struct ControlStep {
    pub relays: Relays,
    pub stop_run: bool,
}

/// How far an axis is from its demand: below the demand by more than the
/// threshold, above it by more than the threshold, or neither.
#[derive(Clone, Copy, Debug, PartialEq, Eq, Structural)]
pub struct AxisError {
    pub below: bool,
    pub above: bool,
}

pub open spec fn axis_on_target(e: AxisError) -> bool {
    !e.below && !e.above
}

/// The control decision: while running, drive each axis towards its demand
/// (clockwise / up when below, counter-clockwise / down when above, neither
/// within the threshold) and stop running once both axes are on target;
/// when not running, every relay is off.
pub open spec fn spec_control_step(run: bool, az: AxisError, el: AxisError) -> ControlStep {
    if run {
        ControlStep {
            relays: Relays {
                az_cw: az.below,
                az_ccw: !az.below && az.above,
                el_up: el.below,
                el_dn: !el.below && el.above,
            },
            stop_run: axis_on_target(az) && axis_on_target(el),
        }
    } else {
        ControlStep {
            relays: Relays { az_cw: false, az_ccw: false, el_up: false, el_dn: false },
            stop_run: false,
        }
    }
}

/// Decide the relays for one control tick.
pub fn control_step(run: bool, az: AxisError, el: AxisError) -> (r: ControlStep)
    ensures
        r == spec_control_step(run, az, el),
        r.stop_run == (run && !az.below && !az.above && !el.below && !el.above),
        !(r.relays.az_cw && r.relays.az_ccw),
        !(r.relays.el_up && r.relays.el_dn),
{
    if !run {
        return ControlStep {
            relays: Relays { az_cw: false, az_ccw: false, el_up: false, el_dn: false },
            stop_run: false,
        };
    }
    let mut on_target = true;
    let (az_cw, az_ccw) = if az.below {
        on_target = false;
        (true, false)
    } else if az.above {
        on_target = false;
        (false, true)
    } else {
        (false, false)
    };
    let (el_up, el_dn) = if el.below {
        on_target = false;
        (true, false)
    } else if el.above {
        on_target = false;
        (false, true)
    } else {
        (false, false)
    };
    ControlStep { relays: Relays { az_cw, az_ccw, el_up, el_dn }, stop_run: on_target }
}

/// Samples per channel in one ADC burst.
pub const NUM_SAMPLES: usize = 512;

/// Readings at the ADC's differential non-linearity spikes, which are
/// skipped when averaging.
pub open spec fn is_dnl_spike(v: u16) -> bool {
    v == 512 || v == 1536 || v == 2560 || v == 3584
}

pub fn dnl_spike(v: u16) -> (r: bool)
    ensures
        r == is_dnl_spike(v),
        r <==> v < 4096 && v % 1024 == 512,
{
    v == 512 || v == 1536 || v == 2560 || v == 3584
}

/// Sum and count of the readings of channel `ch` (0 or 1) among the first
/// `n` interleaved sample pairs, spikes skipped.
pub open spec fn channel_sum(buf: Seq<u16>, ch: int, n: int) -> (int, int)
    decreases n,
{
    if n <= 0 {
        (0, 0)
    } else {
        let prev = channel_sum(buf, ch, n - 1);
        let v = buf[2 * (n - 1) + ch];
        if is_dnl_spike(v) {
            prev
        } else {
            (prev.0 + v, prev.1 + 1)
        }
    }
}

proof fn lemma_channel_sum_bound(buf: Seq<u16>, ch: int, n: int)
    requires
        0 <= n,
    ensures
        0 <= channel_sum(buf, ch, n).0 <= n * 65535,
        0 <= channel_sum(buf, ch, n).1 <= n,
    decreases n,
{
    if n > 0 {
        lemma_channel_sum_bound(buf, ch, n - 1);
    }
}

/// Accumulate a burst of interleaved azimuth/elevation samples: the sum and
/// count of each channel's readings, spikes skipped. The position reading
/// is the sum divided by the count.
pub fn accumulate_samples(buf: &[u16]) -> (r: (u32, u32, u32, u32))
    requires
        buf@.len() == 2 * NUM_SAMPLES,
    ensures
        (r.0 as int, r.1 as int) == channel_sum(buf@, 0, NUM_SAMPLES as int),
        (r.2 as int, r.3 as int) == channel_sum(buf@, 1, NUM_SAMPLES as int),
{
    let mut az_sum: u32 = 0;
    let mut az_count: u32 = 0;
    let mut el_sum: u32 = 0;
    let mut el_count: u32 = 0;
    let mut i: usize = 0;
    while i < NUM_SAMPLES
        invariant
            buf@.len() == 2 * NUM_SAMPLES,
            i <= NUM_SAMPLES,
            (az_sum as int, az_count as int) == channel_sum(buf@, 0, i as int),
            (el_sum as int, el_count as int) == channel_sum(buf@, 1, i as int),
        decreases NUM_SAMPLES - i,
    {
        proof {
            lemma_channel_sum_bound(buf@, 0, i as int);
            lemma_channel_sum_bound(buf@, 1, i as int);
        }
        let az_val = buf[2 * i];
        let el_val = buf[2 * i + 1];
        if !dnl_spike(az_val) {
            az_sum = az_sum + az_val as u32;
            az_count = az_count + 1;
        }
        if !dnl_spike(el_val) {
            el_sum = el_sum + el_val as u32;
            el_count = el_count + 1;
        }
        i = i + 1;
    }
    (az_sum, az_count, el_sum, el_count)
}

/// The run is stopped exactly when the rotator is running and both axes are
/// on target; an error on either axis keeps it running. While running, each
/// axis is driven towards its demand (clockwise / up when below, counter-
/// clockwise / down when above) and left alone on target, so the run stops
/// exactly when no relay needs to be driven; when not running every relay is
/// off and nothing changes.
pub proof fn lemma_control_step_laws(run: bool, az: AxisError, el: AxisError)
    ensures
        ({
            let s = spec_control_step(run, az, el);
            &&& s.stop_run == (run && !az.below && !az.above && !el.below && !el.above)
            &&& (el.below || el.above) ==> !s.stop_run
            &&& (az.below || az.above) ==> !s.stop_run
            &&& run ==> (s.stop_run <==> !s.relays.az_cw && !s.relays.az_ccw && !s.relays.el_up
                && !s.relays.el_dn)
            &&& run && az.below ==> s.relays.az_cw && !s.relays.az_ccw
            &&& run && !az.below && az.above ==> s.relays.az_ccw && !s.relays.az_cw
            &&& run && el.below ==> s.relays.el_up && !s.relays.el_dn
            &&& run && !el.below && el.above ==> s.relays.el_dn && !s.relays.el_up
            &&& !run ==> !s.stop_run && !s.relays.az_cw && !s.relays.az_ccw && !s.relays.el_up
                && !s.relays.el_dn
        }),
{
}

/// The readings skipped as spikes are exactly the odd multiples of 512 on
/// the 12-bit scale: 512, 1536, 2560 and 3584. Every other reading, such as
/// mid-scale 2048, counts.
pub proof fn lemma_dnl_spikes(v: u16)
    ensures
        is_dnl_spike(v) <==> v < 4096 && v % 1024 == 512,
        v == 0 || v == 1024 || v == 2048 || v == 3072 || v == 4095 ==> !is_dnl_spike(v),
{
}

/// A burst whose readings on one channel are all the same value `v`, not a
/// spike, sums to `n * v` over `n` readings, every one of them counted; a
/// burst of spikes only counts nothing.
pub proof fn lemma_constant_burst(buf: Seq<u16>, ch: int, n: int, v: u16)
    requires
        0 <= n,
        0 <= ch <= 1,
        2 * n <= buf.len(),
        forall|i: int| 0 <= i < n ==> #[trigger] buf[2 * i + ch] == v,
    ensures
        !(v < 4096 && v % 1024 == 512) ==> channel_sum(buf, ch, n) == (n * v, n),
        v < 4096 && v % 1024 == 512 ==> channel_sum(buf, ch, n) == (0int, 0int),
    decreases n,
{
    if n > 0 {
        lemma_constant_burst(buf, ch, n - 1, v);
        assert(buf[2 * (n - 1) + ch] == v);
        assert((n - 1) * v + v == n * v) by (nonlinear_arith);
    }
}

/// How long the system LED stays in each state before it toggles: half
/// the blink period, so that it blinks at 2 Hz (250 ms on, 250 ms off) when
/// the network is up and at 1 Hz (500 ms on, 500 ms off) while it waits.
pub fn blink_interval_ms(network_connected: bool) -> (ms: u64)
    ensures
        ms == (if network_connected { 250u64 } else { 500u64 }),
{
    if network_connected {
        250
    } else {
        500
    }
}

/// How long the device waits for a DHCP lease before it gives up.
pub const DHCP_TIMEOUT_MS: u64 = 5000;

/// What the wait for a DHCP lease does next.
#[derive(Clone, Copy, Debug, PartialEq, Eq, Structural)]
pub enum DhcpWait {
    /// A lease has arrived: stop waiting and use it.
    Configured,
    /// More than the timeout has passed without a lease: give up.
    TimedOut,
    /// Yield and poll again.
    KeepWaiting,
}

/// One poll of the wait for a DHCP lease, `elapsed_ms` after it began:
/// a lease that has arrived is taken even when late; without one the wait
/// goes on until more than `DHCP_TIMEOUT_MS` has passed.
pub fn dhcp_wait_step(configured: bool, elapsed_ms: u64) -> (r: DhcpWait)
    ensures
        r == (if configured {
            DhcpWait::Configured
        } else if elapsed_ms > DHCP_TIMEOUT_MS {
            DhcpWait::TimedOut
        } else {
            DhcpWait::KeepWaiting
        }),
{
    if configured {
        DhcpWait::Configured
    } else if elapsed_ms > DHCP_TIMEOUT_MS {
        DhcpWait::TimedOut
    } else {
        DhcpWait::KeepWaiting
    }
}

/// The static IPv4 setup used when DHCP fails: the stored address with a
/// /24 prefix and gateway `a.b.c.1`, when a stored configuration enables
/// it; otherwise the network stays down.
pub fn static_fallback(stored: Option<&Config>) -> (r: Option<([u8; 4], u8, [u8; 4])>)
    ensures
        match stored {
            Some(c) if c.static_ip_enabled => r matches Some((addr, prefix, gw)) && addr == c.static_ip
                && prefix == 24 && gw@ == c.static_ip@.update(3, 1u8),
            _ => r is None,
        },
{
    match stored {
        Some(c) => {
            if c.static_ip_enabled {
                let ip = c.static_ip;
                let gw = [ip[0], ip[1], ip[2], 1];
                assert(gw@ =~= ip@.update(3, 1u8));
                Some((ip, 24, gw))
            } else {
                None
            }
        },
        None => None,
    }
}

} // verus!
