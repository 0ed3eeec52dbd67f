use hotshot_core::election::{is_leader, leader_for, mix, ticket_holder};
use hotshot_core::stake_table::{StakeTable, StakeTableEntry};

fn four_equal() -> StakeTable {
    StakeTable::new(vec![
        StakeTableEntry { identity: 1, weight: 1 },
        StakeTableEntry { identity: 2, weight: 1 },
        StakeTableEntry { identity: 3, weight: 1 },
        StakeTableEntry { identity: 4, weight: 1 },
    ])
    .expect("valid table")
}

fn weighted() -> StakeTable {
    StakeTable::new(vec![
        StakeTableEntry { identity: 10, weight: 10 },
        StakeTableEntry { identity: 20, weight: 0 },
        StakeTableEntry { identity: 30, weight: 5 },
    ])
    .expect("valid table")
}

#[test]
fn mix_has_known_values() {
    assert_eq!(mix(0), 16294208416658607535);
    assert_eq!(mix(1), 10451216379200822465);
    assert_eq!(mix(2), 10905525725756348110);
    assert_eq!(mix(3), 2092789425003139053);
    assert_eq!(mix(u64::MAX), 16490336266968443936);
}

#[test]
fn tickets_fall_into_intervals_as_long_as_the_weights() {
    let table = weighted();
    for ticket in 0..10 {
        assert_eq!(ticket_holder(ticket, &table), Some(10));
    }
    for ticket in 10..15 {
        assert_eq!(ticket_holder(ticket, &table), Some(30));
    }
    assert_eq!(ticket_holder(15, &table), None);
    assert_eq!(ticket_holder(u64::MAX, &table), None);
}

#[test]
fn leaders_of_equal_table() {
    let table = four_equal();
    let leaders: Vec<Option<u64>> = (0..10).map(|view| leader_for(view, &table)).collect();
    let expected: Vec<Option<u64>> =
        vec![4, 2, 3, 2, 3, 3, 1, 4, 3, 1].into_iter().map(Some).collect();
    assert_eq!(leaders, expected);
}

#[test]
fn leaders_of_weighted_table() {
    let table = weighted();
    let leaders: Vec<Option<u64>> = (0..10).map(|view| leader_for(view, &table)).collect();
    let expected: Vec<Option<u64>> =
        vec![30, 10, 30, 10, 30, 10, 10, 30, 10, 30].into_iter().map(Some).collect();
    assert_eq!(leaders, expected);
}

#[test]
fn weightless_member_never_leads_and_shares_follow_stake() {
    let table = weighted();
    let mut heavy = 0;
    let mut light = 0;
    for view in 0..3000 {
        match leader_for(view, &table) {
            Some(10) => heavy += 1,
            Some(30) => light += 1,
            other => panic!("unexpected leader {:?}", other),
        }
    }
    assert_eq!(heavy, 1984);
    assert_eq!(light, 1016);
}

#[test]
fn election_is_the_same_for_every_caller() {
    let first = four_equal();
    let second = first.snapshot();
    for view in 0..200 {
        assert_eq!(leader_for(view, &first), leader_for(view, &second));
    }
}

#[test]
fn table_without_weight_elects_nobody() {
    let empty = StakeTable::new(Vec::new()).expect("valid table");
    assert_eq!(leader_for(1, &empty), None);
    let weightless = StakeTable::new(vec![StakeTableEntry { identity: 1, weight: 0 }])
        .expect("valid table");
    assert_eq!(leader_for(1, &weightless), None);
    assert!(!is_leader(1, 1, &weightless));
}

#[test]
fn is_leader_agrees_with_leader_for() {
    let table = four_equal();
    assert!(is_leader(1, 2, &table));
    assert!(!is_leader(1, 3, &table));
    assert!(is_leader(2, 3, &table));
    assert!(is_leader(3, 2, &table));
}

#[test]
fn single_member_leads_every_view() {
    let table = StakeTable::new(vec![StakeTableEntry { identity: 5, weight: 9 }])
        .expect("valid table");
    for view in 0..50 {
        assert_eq!(leader_for(view, &table), Some(5));
    }
}
