use barrier_gate::capture::{PulseCapture, MAX_PULSES};

#[test]
fn records_time_between_edges() {
    let mut c = PulseCapture::new(1_000);
    assert!(!c.record_edge(10_000));
    assert!(!c.record_edge(14_500));
    assert!(!c.record_edge(15_060));
    assert_eq!(c.pulses(), &[9000, 4500, 560]);
    assert_eq!(c.last_edge_us, 15_060);
}

#[test]
fn capture_stops_when_full() {
    let mut c = PulseCapture::new(0);
    let mut t = 0u64;
    for i in 0..MAX_PULSES {
        t += 100;
        let full = c.record_edge(t);
        assert_eq!(full, i + 1 == MAX_PULSES);
    }
    assert!(c.is_full());
    assert!(c.record_edge(t + 100));
    assert_eq!(c.pulses().len(), MAX_PULSES);
    assert_eq!(c.last_edge_us, t);
}

#[test]
fn durations_are_held_within_u32() {
    let mut c = PulseCapture::new(500);
    c.record_edge(400);
    c.record_edge(400 + (1u64 << 33));
    assert_eq!(c.pulses(), &[0, u32::MAX]);
}
