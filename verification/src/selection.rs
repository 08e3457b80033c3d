//! Picking the users of a list that a row of marks points out.
//!
//! The list and the marks run in step: `marks[i]` speaks of `users[i]`. A user
//! for whom there is no mark counts as not marked. What is picked keeps the
//! order of the list, and a user who is in the list twice is weighed twice.

use vstd::prelude::*;
use vstd::multiset::{group_multiset_axioms, lemma_multiset_empty_len};
use vstd::seq_lib::{group_to_multiset_ensures, to_multiset_build};

verus! {

/// Whether the place `i` is marked.
pub open spec fn marked(marks: Seq<bool>, i: int) -> bool {
    0 <= i < marks.len() && marks[i]
}

/// The marks that point out, among `n` places, those that `marks` does not.
pub open spec fn complement(marks: Seq<bool>, n: nat) -> Seq<bool> {
    Seq::new(n, |i: int| !marked(marks, i))
}

/// The users at the marked places, in the order of the list.
pub open spec fn selected(users: Seq<u64>, marks: Seq<bool>) -> Seq<u64>
    decreases users.len(),
{
    if users.len() == 0 {
        Seq::empty()
    } else if marked(marks, users.len() - 1) {
        selected(users.drop_last(), marks).push(users.last())
    } else {
        selected(users.drop_last(), marks)
    }
}

/// The users at the places that are not marked, in the order of the list.
pub open spec fn rejected(users: Seq<u64>, marks: Seq<bool>) -> Seq<u64> {
    selected(users, complement(marks, users.len()))
}

/// Marks beyond the end of the list do not count, and only the marks of the
/// places in the list do.
pub proof fn lemma_selected_depends_on_prefix(users: Seq<u64>, a: Seq<bool>, b: Seq<bool>)
    requires
        forall|i: int| 0 <= i < users.len() ==> marked(a, i) == marked(b, i),
    ensures
        selected(users, a) == selected(users, b),
    decreases users.len(),
{
    if users.len() > 0 {
        lemma_selected_depends_on_prefix(users.drop_last(), a, b);
    }
}

/// A user is picked exactly where they stand at a marked place.
pub proof fn lemma_selected_contains(users: Seq<u64>, marks: Seq<bool>, user: u64)
    ensures
        selected(users, marks).contains(user) <==> exists|i: int|
            0 <= i < users.len() && users[i] == user && marked(marks, i),
    decreases users.len(),
{
    let picked = selected(users, marks);
    if users.len() == 0 {
        assert(!picked.contains(user));
    } else {
        let front_users = users.drop_last();
        let front = selected(front_users, marks);
        let last = users.len() - 1;
        lemma_selected_contains(front_users, marks, user);
        if picked.contains(user) {
            let at = choose|at: int| 0 <= at < picked.len() && picked[at] == user;
            if marked(marks, last) && at == front.len() {
                assert(users[last] == user);
            } else {
                assert(front[at] == user);
                assert(front.contains(user));
                let i = choose|i: int|
                    0 <= i < front_users.len() && front_users[i] == user && marked(marks, i);
                assert(users[i] == user);
            }
        }
        if exists|i: int| 0 <= i < users.len() && users[i] == user && marked(marks, i) {
            let i = choose|i: int| 0 <= i < users.len() && users[i] == user && marked(marks, i);
            if i == last {
                assert(picked[picked.len() - 1] == user);
            } else {
                assert(front_users[i] == user);
                assert(front.contains(user));
                let at = choose|at: int| 0 <= at < front.len() && front[at] == user;
                assert(picked[at] == user);
            }
        }
    }
}

/// Each place of the list goes to exactly one side: what is picked and what
/// is not, taken together, hold every user as often as the list does.
pub proof fn lemma_selected_and_rejected_partition(users: Seq<u64>, marks: Seq<bool>)
    ensures
        selected(users, marks).to_multiset().add(rejected(users, marks).to_multiset())
            == users.to_multiset(),
        selected(users, marks).len() + rejected(users, marks).len() == users.len(),
    decreases users.len(),
{
    broadcast use to_multiset_build;

    let picked = selected(users, marks);
    let left = rejected(users, marks);
    if users.len() == 0 {
        assert(picked.to_multiset().add(left.to_multiset()) =~= users.to_multiset()) by {
            broadcast use group_to_multiset_ensures;
            broadcast use group_multiset_axioms;
            broadcast use lemma_multiset_empty_len;

            assert(picked =~= users);
            assert(left =~= users);
            assert(users.to_multiset().len() == 0);
        }
    } else {
        let front = users.drop_last();
        let last = users.last();
        lemma_selected_and_rejected_partition(front, marks);
        lemma_selected_depends_on_prefix(
            front,
            complement(marks, users.len()),
            complement(marks, front.len()),
        );
        assert(users =~= front.push(last));
        assert(users.to_multiset() =~= front.to_multiset().insert(last));
        if marked(marks, users.len() - 1) {
            assert(picked == selected(front, marks).push(last));
            assert(left == rejected(front, marks));
        } else {
            assert(picked == selected(front, marks));
            assert(left == rejected(front, marks).push(last));
        }
        assert(picked.to_multiset().add(left.to_multiset()) =~= users.to_multiset());
    }
}

/// In a list that names nobody twice, nobody is both picked and not picked,
/// and everybody in the list is one of the two.
pub proof fn lemma_selected_or_rejected(users: Seq<u64>, marks: Seq<bool>, user: u64)
    requires
        users.no_duplicates(),
    ensures
        !(selected(users, marks).contains(user) && rejected(users, marks).contains(user)),
        users.contains(user) <==> selected(users, marks).contains(user) || rejected(
            users,
            marks,
        ).contains(user),
{
    lemma_selected_contains(users, marks, user);
    lemma_selected_contains(users, complement(marks, users.len()), user);
    if users.contains(user) {
        let i = choose|i: int| 0 <= i < users.len() && users[i] == user;
        if marked(marks, i) {
        } else {
            assert(marked(complement(marks, users.len()), i));
        }
    }
}

/// Picks the users at the marked places.
pub fn select(users: &Vec<u64>, marks: &Vec<bool>) -> (picked: Vec<u64>)
    ensures
        picked@ == selected(users@, marks@),
{
    let mut picked: Vec<u64> = Vec::new();
    let mut i: usize = 0;
    while i < users.len()
        invariant
            i <= users.len(),
            picked@ == selected(users@.take(i as int), marks@),
        decreases users.len() - i,
    {
        assert(users@.take(i + 1).drop_last() =~= users@.take(i as int));
        if i < marks.len() && marks[i] {
            picked.push(users[i]);
        }
        i += 1;
    }
    assert(users@.take(users.len() as int) =~= users@);
    picked
}

/// Picks the users at the places that are not marked.
pub fn reject(users: &Vec<u64>, marks: &Vec<bool>) -> (left: Vec<u64>)
    ensures
        left@ == rejected(users@, marks@),
{
    let mut left: Vec<u64> = Vec::new();
    let mut i: usize = 0;
    while i < users.len()
        invariant
            i <= users.len(),
            left@ == rejected(users@.take(i as int), marks@),
        decreases users.len() - i,
    {
        proof {
            let shorter = users@.take(i as int);
            let longer = users@.take(i + 1);
            assert(longer.drop_last() =~= shorter);
            lemma_selected_depends_on_prefix(
                shorter,
                complement(marks@, longer.len()),
                complement(marks@, shorter.len()),
            );
        }
        if !(i < marks.len() && marks[i]) {
            left.push(users[i]);
        }
        i += 1;
    }
    assert(users@.take(users.len() as int) =~= users@);
    left
}

} // verus!
