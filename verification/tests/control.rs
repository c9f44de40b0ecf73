use g5500_hamlib_adaptor::config::Config;
use g5500_hamlib_adaptor::control::{
    accumulate_samples, blink_interval_ms, control_step, dhcp_wait_step, static_fallback, AxisError,
    ControlStep, DhcpWait, Relays, DHCP_TIMEOUT_MS, NUM_SAMPLES,
};

const ON: AxisError = AxisError { below: false, above: false };
const BELOW: AxisError = AxisError { below: true, above: false };
const ABOVE: AxisError = AxisError { below: false, above: true };

#[test]
fn stopped_means_all_relays_off() {
    for az in [ON, BELOW, ABOVE] {
        for el in [ON, BELOW, ABOVE] {
            let r = control_step(false, az, el);
            assert_eq!(r.relays, Relays { az_cw: false, az_ccw: false, el_up: false, el_dn: false });
            assert!(!r.stop_run);
        }
    }
}

#[test]
fn drives_towards_demand() {
    let r = control_step(true, BELOW, ABOVE);
    assert_eq!(
        r,
        ControlStep {
            relays: Relays { az_cw: true, az_ccw: false, el_up: false, el_dn: true },
            stop_run: false,
        }
    );
    let r = control_step(true, ABOVE, ON);
    assert_eq!(r.relays, Relays { az_cw: false, az_ccw: true, el_up: false, el_dn: false });
    assert!(!r.stop_run);
    let r = control_step(true, ON, BELOW);
    assert_eq!(r.relays, Relays { az_cw: false, az_ccw: false, el_up: true, el_dn: false });
}

#[test]
fn on_target_stops_running() {
    let r = control_step(true, ON, ON);
    assert_eq!(r.relays, Relays { az_cw: false, az_ccw: false, el_up: false, el_dn: false });
    assert!(r.stop_run);
}

#[test]
fn sample_averaging_skips_spikes() {
    let mut buf = vec![0u16; 2 * NUM_SAMPLES];
    for i in 0..NUM_SAMPLES {
        buf[2 * i] = 1000;
        buf[2 * i + 1] = 2000;
    }
    buf[0] = 512;
    buf[2] = 1536;
    buf[3] = 3584;
    buf[5] = 2560;
    let (az_sum, az_count, el_sum, el_count) = accumulate_samples(&buf);
    assert_eq!(az_count, 510);
    assert_eq!(az_sum, 510 * 1000);
    assert_eq!(el_count, 510);
    assert_eq!(el_sum, 510 * 2000);
    let all_spikes = vec![512u16; 2 * NUM_SAMPLES];
    assert_eq!(accumulate_samples(&all_spikes), (0, 0, 0, 0));
    let full = vec![4095u16; 2 * NUM_SAMPLES];
    assert_eq!(accumulate_samples(&full), (4095 * 512, 512, 4095 * 512, 512));
}

#[test]
fn led_blink_rate() {
    assert_eq!(blink_interval_ms(true), 250);
    assert_eq!(blink_interval_ms(false), 500);
}

#[test]
fn static_ip_fallback() {
    assert_eq!(static_fallback(None), None);
    let mut c = Config::default();
    assert_eq!(static_fallback(Some(&c)), None);
    c.static_ip_enabled = true;
    c.static_ip = [10, 1, 2, 3];
    assert_eq!(static_fallback(Some(&c)), Some(([10, 1, 2, 3], 24, [10, 1, 2, 1])));
}

#[test]
fn dhcp_wait_gives_up_after_timeout() {
    assert_eq!(DHCP_TIMEOUT_MS, 5000);
    assert_eq!(dhcp_wait_step(false, 0), DhcpWait::KeepWaiting);
    assert_eq!(dhcp_wait_step(false, 5000), DhcpWait::KeepWaiting);
    assert_eq!(dhcp_wait_step(false, 5001), DhcpWait::TimedOut);
    assert_eq!(dhcp_wait_step(true, 10), DhcpWait::Configured);
    assert_eq!(dhcp_wait_step(true, 60000), DhcpWait::Configured);
}
