//! Who may act on whom.
//!
//! A user's rank is the position of the highest role that they hold in the
//! group. An actor may act on a target only if the target's rank is strictly
//! below the actor's own. A rank that could not be looked up is `None`: the
//! user is no member of the group, or the role data could not be had.
//!
//! The targets are weighed in the order in which they were named, and the
//! first one that settles the matter settles it: a target without a rank
//! makes the question unanswerable, a target of the actor's rank or above
//! answers it with no.

use vstd::prelude::*;
use crate::selection::{lemma_selected_contains, marked, selected};

verus! {

/// The answer to the question whether an actor may act on a set of targets.
#[derive(Clone, Copy, Debug, PartialEq, Eq, Structural)]
pub enum Authorization {
    /// Every target ranks strictly below the actor.
    Authorized,
    /// A target ranks as high as the actor, or higher.
    Unauthorized,
    /// The rank of the actor or of a target is not known.
    Unresolved,
}

/// Whether a target with the rank `target` lets an actor of the rank `actor`
/// go on to the next target.
pub open spec fn ranks_below(target: Option<i64>, actor: i64) -> bool {
    target matches Some(rank) && rank < actor
}

/// Whether every one of the first `n` targets ranks strictly below `actor`.
pub open spec fn all_below(targets: Seq<Option<i64>>, actor: i64, n: int) -> bool {
    forall|j: int| 0 <= j < n ==> ranks_below(#[trigger] targets[j], actor)
}

/// Whether the target at `k` is the first that does not rank below `actor`.
pub open spec fn first_not_below(targets: Seq<Option<i64>>, actor: i64, k: int) -> bool {
    0 <= k < targets.len() && !ranks_below(targets[k], actor) && all_below(targets, actor, k)
}

/// The answer for an actor and targets with the given ranks.
pub open spec fn authorization(actor: Option<i64>, targets: Seq<Option<i64>>) -> Authorization {
    match actor {
        None => Authorization::Unresolved,
        Some(actor) => {
            if all_below(targets, actor, targets.len() as int) {
                Authorization::Authorized
            } else {
                let k = choose|k: int| first_not_below(targets, actor, k);
                if targets[k] is None {
                    Authorization::Unresolved
                } else {
                    Authorization::Unauthorized
                }
            }
        },
    }
}

/// At most one target is the first that does not rank below the actor.
pub proof fn lemma_first_not_below_unique(
    targets: Seq<Option<i64>>,
    actor: i64,
    k: int,
    m: int,
)
    requires
        first_not_below(targets, actor, k),
        first_not_below(targets, actor, m),
    ensures
        k == m,
{
    if k < m {
        assert(ranks_below(targets[k], actor));
    } else if m < k {
        assert(ranks_below(targets[m], actor));
    }
}

/// The answer is settled by the first target that does not rank below the
/// actor: it is no where that target has a rank, and open where it has none.
pub proof fn lemma_settled_by_first(targets: Seq<Option<i64>>, actor: i64, k: int)
    requires
        first_not_below(targets, actor, k),
    ensures
        authorization(Some(actor), targets) == if targets[k] is None {
            Authorization::Unresolved
        } else {
            Authorization::Unauthorized
        },
{
    assert(!all_below(targets, actor, targets.len() as int));
    let chosen = choose|c: int| first_not_below(targets, actor, c);
    lemma_first_not_below_unique(targets, actor, k, chosen);
}

/// An actor whose rank is known, and targets whose ranks are all known, one
/// of them at least as high as the actor's: the answer is no.
pub proof fn lemma_outranked_is_unauthorized(targets: Seq<Option<i64>>, actor: i64, i: int)
    requires
        forall|j: int| 0 <= j < targets.len() ==> (#[trigger] targets[j]) is Some,
        0 <= i < targets.len(),
        targets[i]->0 >= actor,
    ensures
        authorization(Some(actor), targets) == Authorization::Unauthorized,
{
    let k = lemma_first_exists(targets, actor, i);
    lemma_settled_by_first(targets, actor, k);
}

/// Where some target among the first `i + 1` does not rank below the actor,
/// there is a first such target.
proof fn lemma_first_exists(targets: Seq<Option<i64>>, actor: i64, i: int) -> (k: int)
    requires
        0 <= i < targets.len(),
        !ranks_below(targets[i], actor),
    ensures
        first_not_below(targets, actor, k),
        k <= i,
    decreases i,
{
    if all_below(targets, actor, i) {
        i
    } else {
        let j = choose|j: int| 0 <= j < i && !ranks_below(#[trigger] targets[j], actor);
        lemma_first_exists(targets, actor, j)
    }
}

/// Answers whether an actor of the rank `actor` may act on targets of the
/// ranks `targets`.
pub fn is_authorized(actor: Option<i64>, targets: &Vec<Option<i64>>) -> (answer: Authorization)
    ensures
        answer == authorization(actor, targets@),
        answer == Authorization::Authorized <==> actor is Some && all_below(
            targets@,
            actor->0,
            targets.len() as int,
        ),
        answer == Authorization::Unauthorized <==> actor is Some && exists|k: int|
            first_not_below(targets@, actor->0, k) && targets[k] is Some,
        answer == Authorization::Unresolved <==> actor is None || exists|k: int|
            first_not_below(targets@, actor->0, k) && targets[k] is None,
{
    let actor_rank = match actor {
        Some(rank) => rank,
        None => {
            return Authorization::Unresolved;
        },
    };
    let mut i: usize = 0;
    while i < targets.len()
        invariant
            i <= targets.len(),
            actor == Some(actor_rank),
            all_below(targets@, actor_rank, i as int),
        decreases targets.len() - i,
    {
        match targets[i] {
            Some(rank) => {
                if rank >= actor_rank {
                    proof {
                        assert(first_not_below(targets@, actor_rank, i as int));
                        assert(targets@[i as int] is Some);
                        lemma_settled_by_first(targets@, actor_rank, i as int);
                        assert forall|k: int|
                            first_not_below(targets@, actor_rank, k) implies targets[k] is Some by {
                            lemma_first_not_below_unique(targets@, actor_rank, k, i as int);
                        }
                    }
                    return Authorization::Unauthorized;
                }
            },
            None => {
                proof {
                    assert(first_not_below(targets@, actor_rank, i as int));
                    assert(targets@[i as int] is None);
                    lemma_settled_by_first(targets@, actor_rank, i as int);
                    assert forall|k: int|
                        first_not_below(targets@, actor_rank, k) implies targets[k] is None by {
                        lemma_first_not_below_unique(targets@, actor_rank, k, i as int);
                    }
                }
                return Authorization::Unresolved;
            },
        }
        i += 1;
    }
    Authorization::Authorized
}

/// The marks that point out the places whose rank is known and strictly
/// below the actor's. Nobody ranks below an actor whose rank is not known.
pub open spec fn below_marks(ranks: Seq<Option<i64>>, actor: Option<i64>) -> Seq<bool> {
    ranks.map_values(|rank: Option<i64>| actor is Some && ranks_below(rank, actor->0))
}

/// The users among `users` that rank strictly below `actor`, in their order.
/// `ranks[i]` is the rank of `users[i]`; a user without an entry in `ranks`
/// has no known rank and ranks below nobody.
pub open spec fn below_actor(users: Seq<u64>, ranks: Seq<Option<i64>>, actor: Option<i64>) -> Seq<
    u64,
> {
    selected(users, below_marks(ranks, actor))
}

/// Keeps the users that rank strictly below the actor and leaves the others
/// out without a word.
pub fn user_ids_below_user(users: &Vec<u64>, ranks: &Vec<Option<i64>>, actor: Option<i64>) -> (kept:
    Vec<u64>)
    ensures
        kept@ == below_actor(users@, ranks@, actor),
{
    let mut kept: Vec<u64> = Vec::new();
    let mut i: usize = 0;
    while i < users.len()
        invariant
            i <= users.len(),
            kept@ == below_actor(users@.take(i as int), ranks@, actor),
        decreases users.len() - i,
    {
        assert(users@.take(i + 1).drop_last() =~= users@.take(i as int));
        let below = match actor {
            Some(actor_rank) => i < ranks.len() && match ranks[i] {
                Some(rank) => rank < actor_rank,
                None => false,
            },
            None => false,
        };
        assert(below == marked(below_marks(ranks@, actor), i as int));
        if below {
            kept.push(users[i]);
        }
        i += 1;
    }
    assert(users@.take(users.len() as int) =~= users@);
    kept
}

/// A user of equal or higher rank than the actor is never kept, unless the
/// same user is also named at a place with a rank below the actor's.
pub proof fn lemma_kept_rank_below(
    users: Seq<u64>,
    ranks: Seq<Option<i64>>,
    actor: Option<i64>,
    user: u64,
)
    ensures
        below_actor(users, ranks, actor).contains(user) <==> actor is Some && exists|i: int|
            0 <= i < users.len() && i < ranks.len() && users[i] == user && ranks_below(
                ranks[i],
                actor->0,
            ),
{
    let marks = below_marks(ranks, actor);
    lemma_selected_contains(users, marks, user);
    if below_actor(users, ranks, actor).contains(user) {
        let i = choose|i: int| 0 <= i < users.len() && users[i] == user && marked(marks, i);
        assert(i < ranks.len() && ranks_below(ranks[i], actor->0));
    }
    if actor is Some && exists|i: int|
        0 <= i < users.len() && i < ranks.len() && users[i] == user && ranks_below(
            ranks[i],
            actor->0,
        ) {
        let i = choose|i: int|
            0 <= i < users.len() && i < ranks.len() && users[i] == user && ranks_below(
                ranks[i],
                actor->0,
            );
        assert(marked(marks, i));
    }
}

} // verus!
