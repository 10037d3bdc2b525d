//! Tests for the validator-membership state machine. The session-rotation
//! collaborator that would call `change_members_sorted` and read
//! `new_session` is driven directly from the tests.

use chain_pallets::poa::{Poa, PoaEvent};

const VALIDATOR_01: u64 = 1;
const VALIDATOR_02: u64 = 2;
const VALIDATOR_03: u64 = 3;

#[test]
fn validators_update_propagate() {
    // The session pallet that rotates sessions is an external
    // collaborator; what it installs is exactly what `new_session`
    // stages, which this test reads directly.
    let mut poa = Poa::new(1);
    poa.change_members_sorted(&vec![], &vec![], &vec![VALIDATOR_01]);

    let expected = vec![PoaEvent::ValidatorsUpdated(1)];
    assert_eq!(poa.events, expected);

    assert_eq!(poa.new_session(0), Some(vec![VALIDATOR_01]));
    assert_eq!(poa.new_session(1), Some(vec![VALIDATOR_01]));
}

#[test]
fn change_members_sorted() {
    let mut poa = Poa::new(1);
    poa.change_members_sorted(&vec![], &vec![], &vec![VALIDATOR_01]);

    let expected = vec![PoaEvent::ValidatorsUpdated(1)];
    assert_eq!(poa.events, expected);

    assert_eq!(poa.new_session(0), Some(vec![VALIDATOR_01]));
}

#[test]
fn new_session_return_members() {
    let mut poa = Poa::new(1);
    poa.initialize_members(&vec![VALIDATOR_01]);

    let expected = vec![PoaEvent::ValidatorsUpdated(1)];
    assert_eq!(poa.events, expected);

    assert_eq!(poa.new_session(0), Some(vec![VALIDATOR_01]));
}

#[test]
fn change_members_overflow_check() {
    let mut poa = Poa::new(1);
    poa.change_members_sorted(&vec![], &vec![], &vec![VALIDATOR_01]);

    let expected = vec![PoaEvent::ValidatorsUpdated(1)];
    assert_eq!(poa.events, expected);

    poa.set_max_validators(2);

    poa.change_members_sorted(&vec![], &vec![], &vec![VALIDATOR_01, VALIDATOR_02]);

    let expected = vec![PoaEvent::ValidatorsUpdated(1), PoaEvent::ValidatorsUpdated(2)];
    assert_eq!(poa.events, expected);

    poa.change_members_sorted(
        &vec![],
        &vec![],
        &vec![VALIDATOR_01, VALIDATOR_02, VALIDATOR_03],
    );

    let expected = vec![
        PoaEvent::ValidatorsUpdated(1),
        PoaEvent::ValidatorsUpdated(2),
        PoaEvent::ValidatorsMaxOverflow(2, 3),
        PoaEvent::ValidatorsUpdated(2),
    ];
    assert_eq!(poa.events, expected);

    assert_eq!(poa.new_session(0), Some(vec![VALIDATOR_01, VALIDATOR_02]));
}

#[test]
fn change_members_overflow_check_cfg_min() {
    let mut poa = Poa::new(1);
    assert_eq!(poa.new_session(0), None);

    poa.set_max_validators(0);

    poa.change_members_sorted(&vec![], &vec![], &vec![VALIDATOR_01]);

    let expected = vec![
        PoaEvent::ValidatorsMaxOverflow(0, 1),
        PoaEvent::ValidatorsUpdated(0),
    ];
    assert_eq!(poa.events, expected);

    assert_eq!(poa.new_session(0), None);

    poa.set_max_validators(2);

    poa.change_members_sorted(&vec![], &vec![], &vec![VALIDATOR_01, VALIDATOR_02]);

    let expected = vec![
        PoaEvent::ValidatorsMaxOverflow(0, 1),
        PoaEvent::ValidatorsUpdated(0),
        PoaEvent::ValidatorsUpdated(2),
    ];
    assert_eq!(poa.events, expected);

    assert_eq!(poa.new_session(0), Some(vec![VALIDATOR_01, VALIDATOR_02]));
}

#[test]
fn change_members_overflow_check_cfg_max() {
    let mut poa = Poa::new(1);
    assert_eq!(poa.new_session(0), None);

    let validator_max: u32 = 10_000;

    poa.set_max_validators(validator_max);

    let validator_list: Vec<u64> = (0u64..(validator_max + 1).into()).collect();

    poa.change_members_sorted(&vec![], &vec![], &validator_list);

    let expected = vec![
        PoaEvent::ValidatorsMaxOverflow(validator_max, validator_max + 1),
        PoaEvent::ValidatorsUpdated(validator_max),
    ];
    assert_eq!(poa.events, expected);

    let validator_list: Vec<u64> = (0u64..validator_max.into()).collect();

    poa.change_members_sorted(&vec![], &vec![], &validator_list);

    let expected = vec![
        PoaEvent::ValidatorsMaxOverflow(validator_max, validator_max + 1),
        PoaEvent::ValidatorsUpdated(validator_max),
        PoaEvent::ValidatorsUpdated(validator_max),
    ];
    assert_eq!(poa.events, expected);

    assert_eq!(poa.new_session(0), Some(validator_list));
}

#[test]
fn initialize_members_overflow_check() {
    let mut poa = Poa::new(1);
    poa.initialize_members(&vec![VALIDATOR_01]);

    let expected = vec![PoaEvent::ValidatorsUpdated(1)];
    assert_eq!(poa.events, expected);

    poa.set_max_validators(2);

    poa.initialize_members(&vec![VALIDATOR_01, VALIDATOR_02]);

    let expected = vec![PoaEvent::ValidatorsUpdated(1), PoaEvent::ValidatorsUpdated(2)];
    assert_eq!(poa.events, expected);

    poa.initialize_members(&vec![VALIDATOR_01, VALIDATOR_02, VALIDATOR_03]);

    let expected = vec![
        PoaEvent::ValidatorsUpdated(1),
        PoaEvent::ValidatorsUpdated(2),
        PoaEvent::ValidatorsMaxOverflow(2, 3),
        PoaEvent::ValidatorsUpdated(2),
    ];
    assert_eq!(poa.events, expected);

    assert_eq!(poa.new_session(0), Some(vec![VALIDATOR_01, VALIDATOR_02]));
}

#[test]
fn initialize_members_overflow_check_cfg_min() {
    let mut poa = Poa::new(1);
    assert_eq!(poa.new_session(0), None);

    poa.set_max_validators(0);

    poa.initialize_members(&vec![VALIDATOR_01]);

    let expected = vec![
        PoaEvent::ValidatorsMaxOverflow(0, 1),
        PoaEvent::ValidatorsUpdated(0),
    ];
    assert_eq!(poa.events, expected);

    assert_eq!(poa.new_session(0), None);

    poa.set_max_validators(2);

    poa.initialize_members(&vec![VALIDATOR_01, VALIDATOR_02]);

    let expected = vec![
        PoaEvent::ValidatorsMaxOverflow(0, 1),
        PoaEvent::ValidatorsUpdated(0),
        PoaEvent::ValidatorsUpdated(2),
    ];
    assert_eq!(poa.events, expected);

    assert_eq!(poa.new_session(0), Some(vec![VALIDATOR_01, VALIDATOR_02]));
}

#[test]
fn initialize_members_overflow_check_cfg_max() {
    let mut poa = Poa::new(1);
    assert_eq!(poa.new_session(0), None);

    let validator_max: u32 = 10_000;

    poa.set_max_validators(validator_max);

    let validator_list: Vec<u64> = (0u64..(validator_max + 1).into()).collect();

    poa.initialize_members(&validator_list);

    let expected = vec![
        PoaEvent::ValidatorsMaxOverflow(validator_max, validator_max + 1),
        PoaEvent::ValidatorsUpdated(validator_max),
    ];
    assert_eq!(poa.events, expected);

    let validator_list: Vec<u64> = (0u64..validator_max.into()).collect();

    poa.initialize_members(&validator_list);

    let expected = vec![
        PoaEvent::ValidatorsMaxOverflow(validator_max, validator_max + 1),
        PoaEvent::ValidatorsUpdated(validator_max),
        PoaEvent::ValidatorsUpdated(validator_max),
    ];
    assert_eq!(poa.events, expected);

    assert_eq!(poa.new_session(0), Some(validator_list));
}

#[test]
fn overflow_with_bound_one_keeps_the_first_validator() {
    let mut poa = Poa::new(1);
    poa.change_members_sorted(&vec![], &vec![], &vec![VALIDATOR_01, VALIDATOR_02]);
    assert_eq!(
        poa.events,
        vec![
            PoaEvent::ValidatorsMaxOverflow(1, 2),
            PoaEvent::ValidatorsUpdated(1),
        ]
    );
    assert_eq!(poa.new_session(0), Some(vec![VALIDATOR_01]));
}

#[test]
fn truncation_keeps_the_first_members_in_given_order() {
    let mut poa = Poa::new(2);
    // not sorted: the given order is kept, not re-sorted
    poa.initialize_members(&vec![VALIDATOR_03, VALIDATOR_01, VALIDATOR_02]);
    assert_eq!(poa.members, vec![VALIDATOR_03, VALIDATOR_01]);
    assert_eq!(
        poa.events,
        vec![
            PoaEvent::ValidatorsMaxOverflow(2, 3),
            PoaEvent::ValidatorsUpdated(2),
        ]
    );
}

#[test]
fn empty_update_clears_the_candidate_set() {
    let mut poa = Poa::new(2);
    poa.initialize_members(&vec![VALIDATOR_01]);
    assert_eq!(poa.new_session(0), Some(vec![VALIDATOR_01]));
    poa.change_members_sorted(&vec![VALIDATOR_01], &vec![], &vec![]);
    assert_eq!(poa.new_session(1), None);
    assert_eq!(
        poa.events,
        vec![PoaEvent::ValidatorsUpdated(1), PoaEvent::ValidatorsUpdated(0)]
    );
}
