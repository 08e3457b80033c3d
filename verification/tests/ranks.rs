use moderation::privilege::{is_authorized, user_ids_below_user, Authorization};

#[test]
fn authorized_when_every_target_is_strictly_below() {
    let targets = vec![Some(1), Some(9), Some(-3)];
    assert_eq!(is_authorized(Some(10), &targets), Authorization::Authorized);
}

#[test]
fn authorized_when_there_is_no_target() {
    assert_eq!(is_authorized(Some(0), &vec![]), Authorization::Authorized);
}

#[test]
fn a_target_of_equal_rank_is_refused() {
    assert_eq!(is_authorized(Some(10), &vec![Some(1), Some(10)]), Authorization::Unauthorized);
}

#[test]
fn a_target_of_higher_rank_is_refused() {
    assert_eq!(is_authorized(Some(10), &vec![Some(11), Some(1)]), Authorization::Unauthorized);
    assert_eq!(is_authorized(Some(i64::MIN), &vec![Some(i64::MIN)]), Authorization::Unauthorized);
}

#[test]
fn an_unknown_actor_rank_is_no_refusal() {
    assert_eq!(is_authorized(None, &vec![Some(1)]), Authorization::Unresolved);
    assert_eq!(is_authorized(None, &vec![]), Authorization::Unresolved);
    assert_eq!(is_authorized(None, &vec![Some(i64::MAX)]), Authorization::Unresolved);
}

#[test]
fn an_unknown_target_rank_is_no_permission() {
    assert_eq!(is_authorized(Some(10), &vec![Some(1), None]), Authorization::Unresolved);
}

#[test]
fn the_first_target_that_settles_the_matter_settles_it() {
    assert_eq!(is_authorized(Some(10), &vec![Some(1), None, Some(10)]), Authorization::Unresolved);
    assert_eq!(
        is_authorized(Some(10), &vec![Some(1), Some(10), None]),
        Authorization::Unauthorized
    );
}

#[test]
fn keeps_only_the_users_below_the_actor() {
    let users = vec![1, 2, 3, 4, 5];
    let ranks = vec![Some(3), Some(7), None, Some(6), Some(8)];
    assert_eq!(user_ids_below_user(&users, &ranks, Some(7)), vec![1, 4]);
}

#[test]
fn keeps_nobody_below_an_unknown_actor() {
    assert_eq!(user_ids_below_user(&vec![1, 2], &vec![Some(0), Some(1)], None), Vec::<u64>::new());
}

#[test]
fn a_user_without_a_rank_entry_is_not_kept() {
    assert_eq!(user_ids_below_user(&vec![1, 2, 3], &vec![Some(0)], Some(5)), vec![1]);
    assert_eq!(user_ids_below_user(&vec![1], &vec![Some(0), Some(1), Some(2)], Some(5)), vec![1]);
}

#[test]
fn a_user_named_twice_is_weighed_twice() {
    let ranks = vec![Some(1), Some(8), Some(2)];
    assert_eq!(user_ids_below_user(&vec![9, 9, 9], &ranks, Some(5)), vec![9, 9]);
}
