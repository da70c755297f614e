use pony_core::netmon::{
    best_latency_ms, classify_probe, collect_sample, health_of_round, is_loopback_name, NetQuality,
    QualityGate,
};

#[test]
fn test_classify_empty_is_offline() {
    assert_eq!(classify_probe(&[]), NetQuality::Offline);
}

#[test]
fn test_classify_all_failed_is_offline() {
    assert_eq!(classify_probe(&[None, None, None]), NetQuality::Offline);
}

#[test]
fn test_classify_minority_success_is_poor() {
    assert_eq!(classify_probe(&[Some(10), None, None]), NetQuality::Poor);
    assert_eq!(classify_probe(&[Some(10), Some(20), None]), NetQuality::Good);
}

#[test]
fn test_classify_boundary_exactly_600ms_is_poor() {
    assert_eq!(classify_probe(&[Some(599), Some(599), Some(599)]), NetQuality::Good);
    assert_eq!(classify_probe(&[Some(600), Some(600), Some(600)]), NetQuality::Poor);
}

#[test]
fn classify_uses_best_latency() {
    // The best of the successful probes decides.
    assert_eq!(classify_probe(&[Some(900), Some(20), Some(700)]), NetQuality::Good);
    // Exactly half reachable is still poor.
    assert_eq!(classify_probe(&[Some(5), None]), NetQuality::Poor);
}

#[test]
fn test_gate_first_read_commits_immediately() {
    for q in [NetQuality::Good, NetQuality::Poor, NetQuality::Offline] {
        let mut gate = QualityGate::new();
        assert_eq!(gate.get(), None);
        assert_eq!(gate.push(q), q);
        assert_eq!(gate.get(), Some(q));
    }
}

#[test]
fn test_gate_offline_is_immediate() {
    let mut gate = QualityGate::new();
    gate.push(NetQuality::Good);
    assert_eq!(gate.push(NetQuality::Offline), NetQuality::Offline);
}

#[test]
fn test_gate_good_poor_needs_two_confirmations() {
    let mut gate = QualityGate::new();
    gate.push(NetQuality::Good);
    assert_eq!(gate.push(NetQuality::Poor), NetQuality::Good);
    assert_eq!(gate.push(NetQuality::Poor), NetQuality::Poor);
}

#[test]
fn test_gate_oscillation_never_flips() {
    let mut gate = QualityGate::new();
    gate.push(NetQuality::Good);
    for _ in 0..10 {
        assert_eq!(gate.push(NetQuality::Poor), NetQuality::Good);
        assert_eq!(gate.push(NetQuality::Good), NetQuality::Good);
    }
}

#[test]
fn test_gate_commit_clears_pending_residual() {
    let mut gate = QualityGate::new();
    gate.push(NetQuality::Good);
    assert_eq!(gate.push(NetQuality::Poor), NetQuality::Good);
    assert_eq!(gate.push(NetQuality::Offline), NetQuality::Offline);
    assert_eq!(gate.push(NetQuality::Poor), NetQuality::Offline);
    assert_eq!(gate.push(NetQuality::Poor), NetQuality::Poor);
}

#[test]
fn test_gate_recovery_needs_two_confirmations() {
    let mut gate = QualityGate::new();
    gate.push(NetQuality::Offline);
    assert_eq!(gate.push(NetQuality::Good), NetQuality::Offline);
    assert_eq!(gate.push(NetQuality::Good), NetQuality::Good);
}

#[test]
fn test_gate_poor_to_offline_immediate() {
    let mut gate = QualityGate::new();
    gate.push(NetQuality::Poor);
    assert_eq!(gate.push(NetQuality::Offline), NetQuality::Offline);
    assert_eq!(gate.push(NetQuality::Offline), NetQuality::Offline);
}

#[test]
fn test_gate_poor_recovery_needs_two_confirmations() {
    let mut gate = QualityGate::new();
    gate.push(NetQuality::Poor);
    assert_eq!(gate.push(NetQuality::Good), NetQuality::Poor);
    assert_eq!(gate.push(NetQuality::Good), NetQuality::Good);
}

#[test]
fn test_gate_reverse_pending_residual_cleared() {
    let mut gate = QualityGate::new();
    gate.push(NetQuality::Offline);
    assert_eq!(gate.push(NetQuality::Poor), NetQuality::Offline);
    assert_eq!(gate.push(NetQuality::Offline), NetQuality::Offline);
    assert_eq!(gate.push(NetQuality::Poor), NetQuality::Offline);
    assert_eq!(gate.push(NetQuality::Poor), NetQuality::Poor);
}

#[test]
fn gate_pending_replaced_by_other_candidate() {
    // A reading equal to the committed one clears the candidate: the next different
    // reading has to be confirmed again.
    let mut gate = QualityGate::new();
    gate.push(NetQuality::Poor);
    assert_eq!(gate.push(NetQuality::Good), NetQuality::Poor);
    assert_eq!(gate.push(NetQuality::Poor), NetQuality::Poor);
    assert_eq!(gate.push(NetQuality::Good), NetQuality::Poor);
    assert_eq!(gate.push(NetQuality::Good), NetQuality::Good);
}

#[test]
fn test_collect_sample_skips_loopback_case_insensitive() {
    let (down, up) = collect_sample(&[
        ("Loopback Pseudo-Interface 1", 9999u64, 9999u64),
        ("以太网", 100u64, 50u64),
        ("lo", 123u64, 123u64),
    ]);
    assert_eq!(down, 100);
    assert_eq!(up, 50);
}

#[test]
fn test_collect_sample_saturating_on_huge_values() {
    let (down, _) = collect_sample(&[("eth0", u64::MAX, 0u64), ("eth1", 1u64, 0u64)]);
    assert_eq!(down, u64::MAX);
}

#[test]
fn loopback_names() {
    assert!(is_loopback_name("lo"));
    assert!(is_loopback_name("LO0"));
    assert!(is_loopback_name("Loopback Pseudo-Interface 1"));
    assert!(!is_loopback_name("eth0"));
    assert!(!is_loopback_name("lo1"));
}

#[test]
fn health_reports_best_latency() {
    assert_eq!(best_latency_ms(&[Some(40), None, Some(25)]), Some(25));
    assert_eq!(best_latency_ms(&[None, None]), None);
    let h = health_of_round(NetQuality::Good, &[Some(40), Some(30)]);
    assert_eq!(h.quality, NetQuality::Good);
    assert_eq!(h.latency_ms, Some(30));
    let unready = health_of_round(NetQuality::Offline, &[None]);
    assert_eq!(unready.latency_ms, None);
}

#[test]
fn gate_long_alternation_never_flips() {
    let mut g = QualityGate::new();
    g.push(NetQuality::Good);
    for i in 0..20 {
        let q = if i % 2 == 0 { NetQuality::Poor } else { NetQuality::Good };
        assert_eq!(g.push(q), NetQuality::Good);
    }
    assert_eq!(g.get(), Some(NetQuality::Good));
    g.push(NetQuality::Poor);
    assert_eq!(g.push(NetQuality::Poor), NetQuality::Poor);
}
