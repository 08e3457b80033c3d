use moderation::dispatch::{audit_plan, plan, succeeded_of, tally, Strategy, Tally};
use moderation::platform::{Attempt, AuditWrite, PlatformCall};
use moderation::selection::{reject, select};
use moderation::timestamp::Timestamp;

fn outcome(applied: bool, logged: bool) -> Attempt {
    Attempt { applied, logged }
}

#[test]
fn a_ban_deletes_no_messages_and_carries_the_reason() {
    let strategy = Strategy::Ban { reason: "spam".to_string() };
    assert_eq!(
        strategy.apply(111),
        PlatformCall::Ban { user: 111, delete_message_days: 0, reason: "spam".to_string() }
    );
}

#[test]
fn a_timeout_carries_its_end_in_rfc3339() {
    let until = Timestamp::from_unix_seconds(1_700_003_600).unwrap();
    let strategy = Strategy::Timeout { until };
    assert_eq!(
        strategy.apply(5),
        PlatformCall::DisableCommunication {
            user: 5,
            until: "2023-11-14T23:13:20+00:00".to_string()
        }
    );
}

#[test]
fn a_strike_tells_the_user_why() {
    let strategy = Strategy::Strike { message: "be kind".to_string() };
    assert_eq!(
        strategy.apply(9),
        PlatformCall::DirectMessage { user: 9, text: "You received a strike:\nbe kind".to_string() }
    );
}

#[test]
fn plans_one_call_per_target_in_order() {
    let strategy = Strategy::Ban { reason: "r".to_string() };
    let calls = plan(&strategy, &vec![3, 1, 3]);
    assert_eq!(
        calls,
        vec![
            PlatformCall::Ban { user: 3, delete_message_days: 0, reason: "r".to_string() },
            PlatformCall::Ban { user: 1, delete_message_days: 0, reason: "r".to_string() },
            PlatformCall::Ban { user: 3, delete_message_days: 0, reason: "r".to_string() },
        ]
    );
    assert_eq!(plan(&strategy, &vec![]), Vec::<PlatformCall>::new());
}

#[test]
fn every_target_of_a_timeout_gets_the_same_end() {
    let strategy = Strategy::Timeout { until: Timestamp::from_unix_seconds(0).unwrap() };
    let calls = plan(&strategy, &vec![1, 2, 3]);
    assert_eq!(calls.len(), 3);
    for (i, call) in calls.iter().enumerate() {
        assert_eq!(
            *call,
            PlatformCall::DisableCommunication {
                user: i as u64 + 1,
                until: "1970-01-01T00:00:00+00:00".to_string()
            }
        );
    }
}

#[test]
fn plans_one_audit_entry_per_target() {
    assert_eq!(
        audit_plan(&vec![111, 222, 111], 7),
        vec![
            AuditWrite { user: 111, infraction_id: 7 },
            AuditWrite { user: 222, infraction_id: 7 },
            AuditWrite { user: 111, infraction_id: 7 },
        ]
    );
    assert_eq!(audit_plan(&vec![], 7), Vec::<AuditWrite>::new());
}

#[test]
fn sorts_targets_by_how_their_call_went() {
    let attempts =
        vec![outcome(true, true), outcome(false, true), outcome(true, false), outcome(false, false)];
    let sorted = tally(&vec![1, 2, 3, 4], &attempts);
    assert_eq!(sorted, Tally { succeeded: vec![1, 3], failed: vec![2, 4], unlogged: vec![3, 4] });
}

#[test]
fn a_target_without_outcome_counts_as_not_punished_and_not_logged() {
    let sorted = tally(&vec![1, 2, 3], &vec![outcome(true, true)]);
    assert_eq!(sorted, Tally { succeeded: vec![1], failed: vec![2, 3], unlogged: vec![2, 3] });
}

#[test]
fn outcomes_beyond_the_targets_are_ignored() {
    let sorted = tally(&vec![1], &vec![outcome(false, true), outcome(true, true), outcome(true, true)]);
    assert_eq!(sorted, Tally { succeeded: vec![], failed: vec![1], unlogged: vec![] });
}

#[test]
fn every_place_of_the_targets_lands_on_exactly_one_side() {
    let targets = vec![5, 6, 5, 7, 5];
    let attempts = vec![
        outcome(true, true),
        outcome(false, true),
        outcome(false, true),
        outcome(true, true),
        outcome(true, true),
    ];
    let sorted = tally(&targets, &attempts);
    assert_eq!(sorted.succeeded, vec![5, 7, 5]);
    assert_eq!(sorted.failed, vec![6, 5]);
    let mut both = sorted.succeeded.clone();
    both.extend(sorted.failed.iter());
    both.sort();
    let mut all = targets.clone();
    all.sort();
    assert_eq!(both, all);
    assert_eq!(succeeded_of(&targets, &attempts), sorted.succeeded);
}

#[test]
fn distinct_targets_are_never_on_both_sides() {
    let targets = vec![1, 2, 3, 4, 5, 6];
    let attempts = vec![outcome(true, true), outcome(false, true), outcome(true, true)];
    let sorted = tally(&targets, &attempts);
    for user in targets {
        assert!(sorted.succeeded.contains(&user) != sorted.failed.contains(&user));
    }
}

#[test]
fn picks_by_marks() {
    assert_eq!(select(&vec![1, 2, 3], &vec![true, false, true]), vec![1, 3]);
    assert_eq!(reject(&vec![1, 2, 3], &vec![true, false, true]), vec![2]);
    assert_eq!(select(&vec![1, 2, 3], &vec![]), Vec::<u64>::new());
    assert_eq!(reject(&vec![1, 2, 3], &vec![]), vec![1, 2, 3]);
}
