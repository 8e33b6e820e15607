use discord_rpc::rotation::{advance, enabled_count, initial_active};

#[test]
fn advance_skips_disabled_kinds() {
    let enabled = vec![true, false, true];
    assert_eq!(advance(&enabled, 0), Some(2));
    assert_eq!(advance(&enabled, 1), Some(2));
}

#[test]
fn advance_wraps_around() {
    let enabled = vec![true, false, true];
    assert_eq!(advance(&enabled, 2), Some(0));
}

#[test]
fn advance_stays_on_the_only_enabled_kind() {
    let enabled = vec![false, true, false];
    assert_eq!(advance(&enabled, 1), Some(1));
}

#[test]
fn advance_finds_nothing_when_all_disabled() {
    let enabled = vec![false, false, false];
    assert_eq!(advance(&enabled, 0), None);
    assert_eq!(advance(&enabled, 2), None);
}

#[test]
fn rotation_is_cyclic_over_enabled_kinds() {
    // Starting from any enabled kind, one advance per enabled kind walks
    // through every enabled kind exactly once and returns to the start.
    let enabled = vec![true, false, true, true, false];
    let members = [0usize, 2, 3];
    for &start in members.iter() {
        let mut seen = Vec::new();
        let mut at = start;
        for _ in 0..members.len() {
            seen.push(at);
            at = advance(&enabled, at).unwrap();
        }
        assert_eq!(at, start);
        let mut sorted = seen.clone();
        sorted.sort();
        assert_eq!(sorted, members.to_vec());
    }
}

#[test]
fn initial_active_is_first_enabled() {
    assert_eq!(initial_active(&vec![false, true, true]), Some(1));
    assert_eq!(initial_active(&vec![true, false, false]), Some(0));
    assert_eq!(initial_active(&vec![false, false, false]), None);
    assert_eq!(initial_active(&Vec::new()), None);
}

#[test]
fn enabled_count_counts_true_flags() {
    assert_eq!(enabled_count(&vec![true, false, true]), 2);
    assert_eq!(enabled_count(&vec![false, false]), 0);
    assert_eq!(enabled_count(&Vec::new()), 0);
}
