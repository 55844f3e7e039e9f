use station_shell::contract::TapVerdict;
use station_shell::keying::{
    answer_for, chip_ref_from_digest, fabricate_chip_ref, force_for_verdict, ChipPresentation,
    ForcedOutcome, KeyingOutcome, PolicyPatch, SimArming, SimKeying, SimPolicy,
};

fn tap() -> ChipPresentation {
    ChipPresentation { reader_id: "test".into(), at: Some(1_000), atr: vec![0x3b, 0x00] }
}

#[test]
fn fabricated_refs_are_unique_per_presentation_and_carry_nothing_raw() {
    let atr = [0x3b, 0x8f, 0x80, 0x01, 0x80, 0x4f];
    let t1 = Some(1_000);
    let t2 = Some(2_000);
    let a = fabricate_chip_ref(&atr, t1);
    let b = fabricate_chip_ref(&atr, t2);
    assert_ne!(a, b, "same card type, different presentations → different refs");
    assert_eq!(a, fabricate_chip_ref(&atr, t1), "deterministic");
    assert!(a.starts_with("sim-") && a.len() == 4 + 24);
    // Nothing of the card-type data appears verbatim in the token.
    assert!(!a.contains("3b8f"));
    // Timestamp-only path (no card, e.g. sim-console taps) works too.
    assert_ne!(fabricate_chip_ref(&[], t1), fabricate_chip_ref(&[], t2));
}

#[test]
fn a_fabricated_ref_is_the_digest_over_data_and_stamp() {
    // SHA-256 over sixteen zero bytes: no card data, the epoch itself.
    assert_eq!(fabricate_chip_ref(&[], None), "sim-374708fff7719dd5979ec875");
    assert_eq!(fabricate_chip_ref(&[], Some(0)), fabricate_chip_ref(&[], None));
    assert_eq!(
        chip_ref_from_digest(&[0, 1, 0x2a, 0xff, 4, 5, 6, 7, 8, 9, 10, 0xb0, 0xcc]),
        "sim-00012aff0405060708090ab0"
    );
}

#[test]
fn what_is_forced_comes_once() {
    let mut keying = SimKeying::new(SimPolicy { latency_ms: 7, ..SimPolicy::default() });
    keying.arm(|p| p.take_arming(SimArming::Force { outcome: ForcedOutcome::Permanent }));
    let (answer, latency) = keying.key_chip(&tap());
    assert_eq!(latency, 7);
    match answer {
        KeyingOutcome::Permanent { class, chip_ref } => {
            assert_eq!(class, "S2");
            assert_eq!(chip_ref.0, fabricate_chip_ref(&[0x3b, 0x00], Some(1_000)));
        }
        other => panic!("unexpected {other:?}"),
    }
    assert_eq!(keying.policy().forced_next, None);
}

#[test]
fn a_layer_that_is_not_ready_says_so() {
    let mut keying = SimKeying::new(SimPolicy::default());
    assert!(keying.ready());
    keying.arm(|p| p.take_arming(SimArming::Ready { ready: false }));
    assert!(!keying.ready());
    assert!(matches!(keying.key_chip(&tap()).0, KeyingOutcome::NotReady));
}

#[test]
fn the_weights_decide_what_is_not_forced() {
    let weights = |k: u32, r: u32, p: u32| SimPolicy {
        weight_keyed: k,
        weight_recoverable: r,
        weight_permanent: p,
        ..SimPolicy::default()
    };
    for _ in 0..20 {
        assert!(matches!(
            SimKeying::new(weights(5, 0, 0)).key_chip(&tap()).0,
            KeyingOutcome::Keyed { .. }
        ));
        assert!(matches!(
            SimKeying::new(weights(0, 5, 0)).key_chip(&tap()).0,
            KeyingOutcome::Recoverable { .. }
        ));
        assert!(matches!(
            SimKeying::new(weights(0, 0, 0)).key_chip(&tap()).0,
            KeyingOutcome::Permanent { .. }
        ));
    }
    let policy = weights(85, 12, 3);
    assert_eq!(policy.outcome_for_roll(84), ForcedOutcome::Keyed);
    assert_eq!(policy.outcome_for_roll(85), ForcedOutcome::Recoverable);
    assert_eq!(policy.outcome_for_roll(96), ForcedOutcome::Recoverable);
    assert_eq!(policy.outcome_for_roll(97), ForcedOutcome::Permanent);
    assert!(policy.weights_fit());
    assert!(!weights(u32::MAX, 1, 0).weights_fit());
    assert!(!weights(u32::MAX - 1, 1, 1).weights_fit());
}

#[test]
fn weights_are_not_looked_at_unless_they_decide() {
    let heavy = SimPolicy {
        weight_keyed: u32::MAX,
        weight_recoverable: u32::MAX,
        ..SimPolicy::default()
    };
    assert!(!heavy.weights_fit());
    let mut forced = SimKeying::new(SimPolicy {
        forced_next: Some(ForcedOutcome::Recoverable),
        ..heavy.clone()
    });
    assert!(matches!(forced.key_chip(&tap()).0, KeyingOutcome::Recoverable { .. }));
    let mut unready = SimKeying::new(SimPolicy { ready: false, ..heavy });
    assert!(matches!(unready.key_chip(&tap()).0, KeyingOutcome::NotReady));
}

#[test]
fn rolls_reach_every_outcome() {
    let mut seen = [false; 3];
    let mut keying = SimKeying::new(SimPolicy {
        weight_keyed: 1,
        weight_recoverable: 1,
        weight_permanent: 1,
        ..SimPolicy::default()
    });
    for _ in 0..400 {
        match keying.key_chip(&tap()).0 {
            KeyingOutcome::Keyed { .. } => seen[0] = true,
            KeyingOutcome::Recoverable { .. } => seen[1] = true,
            KeyingOutcome::Permanent { .. } => seen[2] = true,
            KeyingOutcome::NotReady => unreachable!(),
        }
    }
    assert_eq!(seen, [true, true, true]);
}

#[test]
fn a_patch_changes_what_it_names() {
    let nothing = || PolicyPatch {
        forced_next: None,
        weight_keyed: None,
        weight_recoverable: None,
        weight_permanent: None,
        latency_ms: None,
        sticky_chip: None,
    };
    let mut policy = SimPolicy::default();
    policy.apply(PolicyPatch {
        latency_ms: Some(50_000),
        sticky_chip: Some("chip-x".into()),
        weight_permanent: Some(9),
        ..nothing()
    });
    assert_eq!(policy.latency_ms, 10_000);
    assert_eq!(policy.sticky_chip.as_deref(), Some("chip-x"));
    assert_eq!((policy.weight_keyed, policy.weight_recoverable, policy.weight_permanent), (85, 12, 9));
    policy.apply(PolicyPatch {
        forced_next: Some(ForcedOutcome::Keyed),
        weight_keyed: Some(1),
        weight_recoverable: Some(2),
        sticky_chip: Some("".into()),
        ..nothing()
    });
    assert_eq!(policy.sticky_chip, None);
    assert_eq!(policy.forced_next, Some(ForcedOutcome::Keyed));
    assert_eq!((policy.weight_keyed, policy.weight_recoverable, policy.latency_ms), (1, 2, 10_000));
    policy.take_arming(SimArming::Reset);
    assert_eq!((policy.forced_next, policy.latency_ms, policy.ready), (None, 0, true));
}

#[test]
fn a_verdict_maps_to_the_outcome_that_rules_it() {
    assert_eq!(force_for_verdict(TapVerdict::Success), ForcedOutcome::Keyed);
    assert_eq!(force_for_verdict(TapVerdict::Retry), ForcedOutcome::Recoverable);
    assert_eq!(force_for_verdict(TapVerdict::Dead), ForcedOutcome::Permanent);
    let answer = answer_for(ForcedOutcome::Recoverable, Some("chip-x".into()), &tap());
    match answer {
        KeyingOutcome::Recoverable { class, chip_ref } => {
            assert_eq!((class.as_str(), chip_ref.0.as_str()), ("S1", "chip-x"))
        }
        other => panic!("unexpected {other:?}"),
    }
    let names: Vec<&str> = [
        ForcedOutcome::Keyed,
        ForcedOutcome::Recoverable,
        ForcedOutcome::Permanent,
        ForcedOutcome::Notready,
    ]
    .iter()
    .map(|f| f.name())
    .collect();
    assert_eq!(names, vec!["keyed", "recoverable", "permanent", "notready"]);
}
