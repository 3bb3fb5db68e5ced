use super_gunzip::gate::Gate;

#[test]
fn gate_starts_empty_with_requested_capacity() {
    let gate = Gate::new(4);
    assert_eq!(gate.capacity(), 4);
    assert_eq!(gate.held(), 0);
    assert_eq!(gate.available(), 4);
}

#[test]
fn gate_of_zero_permits_has_one() {
    let mut gate = Gate::new(0);
    assert_eq!(gate.capacity(), 1);
    assert!(gate.try_acquire());
    assert!(!gate.try_acquire());
    assert_eq!(gate.held(), 1);
}

#[test]
fn gate_grants_up_to_capacity_and_no_more() {
    let mut gate = Gate::new(3);
    assert!(gate.try_acquire());
    assert!(gate.try_acquire());
    assert!(gate.try_acquire());
    assert_eq!(gate.available(), 0);
    assert!(!gate.try_acquire());
    assert!(!gate.try_acquire());
    assert_eq!(gate.held(), 3);
}

#[test]
fn gate_release_frees_one_permit() {
    let mut gate = Gate::new(2);
    assert!(gate.try_acquire());
    assert!(gate.try_acquire());
    assert!(gate.release());
    assert_eq!(gate.held(), 1);
    assert_eq!(gate.available(), 1);
    assert!(gate.try_acquire());
    assert!(!gate.try_acquire());
}

#[test]
fn gate_release_without_holder_changes_nothing() {
    let mut gate = Gate::new(2);
    assert!(!gate.release());
    assert_eq!(gate.held(), 0);
    assert_eq!(gate.capacity(), 2);
}

#[test]
fn gate_holders_never_exceed_capacity_over_a_long_run() {
    let mut gate = Gate::new(3);
    let mut high_water = 0;
    for round in 0..200usize {
        if round % 3 == 2 {
            gate.release();
        } else {
            gate.try_acquire();
        }
        if gate.held() > high_water {
            high_water = gate.held();
        }
        assert!(gate.held() <= gate.capacity());
    }
    assert_eq!(high_water, 3);
}
