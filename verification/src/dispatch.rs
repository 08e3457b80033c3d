//! The bulk dispatcher: one punishment, applied to each of a list of users.
//!
//! A [`Strategy`] knows how one kind of punishment turns into a platform
//! call for one user. [`plan`] lays out the calls for a whole list, one per
//! user, and [`audit_plan`] the entries for the audit trail, again one per
//! user: an entry is written after every attempt, whether it succeeded or
//! not. The calls are then made independently of each other, and [`tally`]
//! sorts the users by how their call went. A user for whom no outcome came
//! back counts as not punished and not logged.
//!
//! Whether a user counts as punished is decided by the platform call alone.
//! A user whose audit entry could not be written is still reported as
//! punished where the call went through, and is listed as unlogged beside
//! that, so that the gap in the trail can be followed up.

use vstd::prelude::*;
use vstd::seq_lib::lemma_multiset_commutative;
use crate::ids::{mention_list, write_mention_list};
use crate::platform::{call_views, Attempt, AuditWrite, PlatformCall, PlatformCallView};
use crate::selection::{
    lemma_selected_and_rejected_partition,
    lemma_selected_or_rejected,
    reject,
    rejected,
    select,
    selected,
};
use crate::text::push_text;
use crate::timestamp::{in_calendar, rfc3339_text, Timestamp};

verus! {

/// How one kind of punishment is applied.
#[derive(Clone, Debug, PartialEq, Eq)]
pub enum Strategy {
    /// Ban the user, for the given reason.
    Ban { reason: String },
    /// Forbid the user to communicate until the given instant.
    Timeout { until: Timestamp },
    /// Tell the user in a direct message that they received a strike, and
    /// why.
    Strike { message: String },
}

/// A [`Strategy`] with its texts as sequences of characters and its instant
/// in microseconds.
pub enum StrategyView {
    Ban { reason: Seq<char> },
    Timeout { until: int },
    Strike { message: Seq<char> },
}

impl View for Strategy {
    type V = StrategyView;

    open spec fn view(&self) -> StrategyView {
        match *self {
            Strategy::Ban { reason } => StrategyView::Ban { reason: reason@ },
            Strategy::Timeout { until } => StrategyView::Timeout { until: until@ },
            Strategy::Strike { message } => StrategyView::Strike { message: message@ },
        }
    }
}

/// What a user is told who received a strike.
pub open spec fn strike_text(message: Seq<char>) -> Seq<char> {
    "You received a strike:\n"@ + message
}

/// The platform call that applies `strategy` to `user`. A ban deletes none of
/// the user's messages.
pub open spec fn strategy_call(strategy: StrategyView, user: u64) -> PlatformCallView {
    match strategy {
        StrategyView::Ban { reason } => PlatformCallView::Ban {
            user,
            delete_message_days: 0,
            reason,
        },
        StrategyView::Timeout { until } => PlatformCallView::DisableCommunication {
            user,
            until: rfc3339_text(until),
        },
        StrategyView::Strike { message } => PlatformCallView::DirectMessage {
            user,
            text: strike_text(message),
        },
    }
}

/// The calls that apply `strategy` to each of `targets`, in their order.
pub open spec fn planned_calls(strategy: StrategyView, targets: Seq<u64>) -> Seq<
    PlatformCallView,
> {
    targets.map_values(|user: u64| strategy_call(strategy, user))
}

/// The audit entries for `targets`, in their order: one for each.
pub open spec fn planned_audits(targets: Seq<u64>, infraction_id: i32) -> Seq<AuditWrite> {
    targets.map_values(|user: u64| AuditWrite { user, infraction_id })
}

/// The instant at which a timeout of `duration` seconds ends that starts
/// `now` seconds after the epoch, in microseconds, if the calendar covers
/// it.
pub open spec fn timeout_end(now: int, duration: int) -> Option<int> {
    if in_calendar((now + duration) * 1_000_000) {
        Some((now + duration) * 1_000_000)
    } else {
        None
    }
}

/// Computes when a timeout of `duration` seconds ends that starts at `now`,
/// given in seconds since the epoch.
pub fn timeout_expiry(now: i64, duration: i64) -> (until: Option<Timestamp>)
    ensures
        until is Some <==> timeout_end(now as int, duration as int) is Some,
        until matches Some(at) ==> Some(at@) == timeout_end(now as int, duration as int),
{
    match now.checked_add(duration) {
        Some(end) => Timestamp::from_unix_seconds(end),
        None => None,
    }
}

/// Writes the instant `duration` seconds after `now` in RFC 3339 form, the
/// form in which the platform takes the end of a timeout.
pub fn to_iso8601(now: i64, duration: i64) -> (text: Option<String>)
    ensures
        text is Some <==> timeout_end(now as int, duration as int) is Some,
        text matches Some(t) ==> t@ == rfc3339_text(timeout_end(now as int, duration as int)->0),
{
    match timeout_expiry(now, duration) {
        Some(until) => Some(until.to_rfc3339()),
        None => None,
    }
}

impl Strategy {
    /// The platform call that applies the punishment to `user`.
    pub fn apply(&self, user: u64) -> (call: PlatformCall)
        ensures
            call@ == strategy_call(self@, user),
    {
        match self {
            Strategy::Ban { reason } => PlatformCall::Ban {
                user,
                delete_message_days: 0,
                reason: reason.clone(),
            },
            Strategy::Timeout { until } => PlatformCall::DisableCommunication {
                user,
                until: until.to_rfc3339(),
            },
            Strategy::Strike { message } => {
                let mut text = String::new();
                push_text(&mut text, "You received a strike:\n");
                push_text(&mut text, message.as_str());
                assert(text@ =~= strike_text(message@));
                PlatformCall::DirectMessage { user, text }
            },
        }
    }
}

/// Lays out the platform calls for a batch: the punishment of `strategy`,
/// once for each target, in the order of the targets.
pub fn plan(strategy: &Strategy, targets: &Vec<u64>) -> (calls: Vec<PlatformCall>)
    ensures
        call_views(calls@) == planned_calls(strategy@, targets@),
{
    let mut calls: Vec<PlatformCall> = Vec::new();
    let mut i: usize = 0;
    while i < targets.len()
        invariant
            i <= targets.len(),
            calls.len() == i,
            call_views(calls@) == planned_calls(strategy@, targets@.take(i as int)),
        decreases targets.len() - i,
    {
        let call = strategy.apply(targets[i]);
        let ghost before = calls@;
        calls.push(call);
        i += 1;
        proof {
            let goal = planned_calls(strategy@, targets@.take(i as int));
            assert forall|k: int| 0 <= k < goal.len() implies call_views(calls@)[k]
                == goal[k] by {
                if k < i - 1 {
                    assert(call_views(before)[k] == planned_calls(
                        strategy@,
                        targets@.take(i - 1),
                    )[k]);
                    assert(calls@[k] == before[k]);
                }
            }
            assert(call_views(calls@) =~= goal);
        }
    }
    assert(targets@.take(targets.len() as int) =~= targets@);
    calls
}

/// Lays out the audit entries for a batch: one for each target, in the order
/// of the targets, each naming the infraction `infraction_id`.
pub fn audit_plan(targets: &Vec<u64>, infraction_id: i32) -> (audits: Vec<AuditWrite>)
    ensures
        audits@ == planned_audits(targets@, infraction_id),
{
    let mut audits: Vec<AuditWrite> = Vec::new();
    let mut i: usize = 0;
    while i < targets.len()
        invariant
            i <= targets.len(),
            audits@ == planned_audits(targets@.take(i as int), infraction_id),
        decreases targets.len() - i,
    {
        audits.push(AuditWrite { user: targets[i], infraction_id });
        i += 1;
        assert(audits@ =~= planned_audits(targets@.take(i as int), infraction_id));
    }
    assert(targets@.take(targets.len() as int) =~= targets@);
    audits
}

/// For each attempt, whether the platform carried the call out.
pub open spec fn applied_marks(attempts: Seq<Attempt>) -> Seq<bool> {
    attempts.map_values(|attempt: Attempt| attempt.applied)
}

/// For each attempt, whether the store took the audit entry.
pub open spec fn logged_marks(attempts: Seq<Attempt>) -> Seq<bool> {
    attempts.map_values(|attempt: Attempt| attempt.logged)
}

/// The targets whose call went through, in the order of the targets.
pub open spec fn succeeded(targets: Seq<u64>, attempts: Seq<Attempt>) -> Seq<u64> {
    selected(targets, applied_marks(attempts))
}

/// The targets whose call did not go through, or for whom no outcome is
/// known, in the order of the targets.
pub open spec fn failed(targets: Seq<u64>, attempts: Seq<Attempt>) -> Seq<u64> {
    rejected(targets, applied_marks(attempts))
}

/// The targets whose audit entry is not known to be written, in the order of
/// the targets.
pub open spec fn unlogged(targets: Seq<u64>, attempts: Seq<Attempt>) -> Seq<u64> {
    rejected(targets, logged_marks(attempts))
}

/// The targets of a batch, sorted by how their attempt went.
#[derive(Clone, Debug, PartialEq, Eq)]
pub struct Tally {
    /// The users who were punished.
    pub succeeded: Vec<u64>,
    /// The users who were not punished.
    pub failed: Vec<u64>,
    /// The users for whom the audit trail has no entry of this batch.
    pub unlogged: Vec<u64>,
}

/// Sorts the targets of a batch by the outcomes that came back.
/// `attempts[i]` speaks of `targets[i]`.
pub fn tally(targets: &Vec<u64>, attempts: &Vec<Attempt>) -> (sorted: Tally)
    ensures
        sorted.succeeded@ == succeeded(targets@, attempts@),
        sorted.failed@ == failed(targets@, attempts@),
        sorted.unlogged@ == unlogged(targets@, attempts@),
{
    let (applied, logged) = marks_of(attempts);
    Tally {
        succeeded: select(targets, &applied),
        failed: reject(targets, &applied),
        unlogged: reject(targets, &logged),
    }
}

/// Picks the targets whose call went through.
pub fn succeeded_of(targets: &Vec<u64>, attempts: &Vec<Attempt>) -> (done: Vec<u64>)
    ensures
        done@ == succeeded(targets@, attempts@),
{
    let (applied, logged) = marks_of(attempts);
    select(targets, &applied)
}

fn marks_of(attempts: &Vec<Attempt>) -> (marks: (Vec<bool>, Vec<bool>))
    ensures
        marks.0@ == applied_marks(attempts@),
        marks.1@ == logged_marks(attempts@),
{
    let mut applied: Vec<bool> = Vec::new();
    let mut logged: Vec<bool> = Vec::new();
    let mut i: usize = 0;
    while i < attempts.len()
        invariant
            i <= attempts.len(),
            applied@ == applied_marks(attempts@.take(i as int)),
            logged@ == logged_marks(attempts@.take(i as int)),
        decreases attempts.len() - i,
    {
        applied.push(attempts[i].applied);
        logged.push(attempts[i].logged);
        i += 1;
        assert(applied@ =~= applied_marks(attempts@.take(i as int)));
        assert(logged@ =~= logged_marks(attempts@.take(i as int)));
    }
    assert(attempts@.take(attempts.len() as int) =~= attempts@);
    (applied, logged)
}

/// The summary of a batch: the users who were punished and those who were
/// not, as mentions.
pub open spec fn punish_response_text(punished: Seq<u64>, not_punished: Seq<u64>) -> Seq<char> {
    "Punished users: "@ + mention_list(punished) + "\nNot punished users: "@ + mention_list(
        not_punished,
    )
}

/// Writes the summary of a batch. `result.0` holds the users who were
/// punished, `result.1` those who were not.
pub fn punish_response(result: (Vec<u64>, Vec<u64>)) -> (text: String)
    ensures
        text@ == punish_response_text(result.0@, result.1@),
{
    write_punish_response(&result.0, &result.1)
}

/// Writes the summary of a batch from borrowed lists.
pub fn write_punish_response(punished_users: &Vec<u64>, not_punished_users: &Vec<u64>) -> (text:
    String)
    ensures
        text@ == punish_response_text(punished_users@, not_punished_users@),
{
    let punished = write_mention_list(punished_users);
    let not_punished = write_mention_list(not_punished_users);
    let mut text = String::new();
    push_text(&mut text, "Punished users: ");
    push_text(&mut text, punished.as_str());
    push_text(&mut text, "\nNot punished users: ");
    push_text(&mut text, not_punished.as_str());
    assert(text@ =~= punish_response_text(punished_users@, not_punished_users@));
    text
}

/// Every place of the target list is sorted to exactly one side: the users
/// who were punished and those who were not, taken together, hold each user
/// as often as the targets name them, neither more nor less.
pub proof fn lemma_each_target_sorted_once(targets: Seq<u64>, attempts: Seq<Attempt>)
    ensures
        succeeded(targets, attempts).to_multiset().add(failed(targets, attempts).to_multiset())
            == targets.to_multiset(),
        succeeded(targets, attempts).len() + failed(targets, attempts).len() == targets.len(),
{
    lemma_selected_and_rejected_partition(targets, applied_marks(attempts));
}

/// Where the targets name nobody twice, every target is either among the
/// punished or among the not punished, never among both, and nobody else is
/// among either.
pub proof fn lemma_target_in_exactly_one(targets: Seq<u64>, attempts: Seq<Attempt>, user: u64)
    requires
        targets.no_duplicates(),
    ensures
        targets.contains(user) ==> (succeeded(targets, attempts).contains(user) != failed(
            targets,
            attempts,
        ).contains(user)),
        !targets.contains(user) ==> !succeeded(targets, attempts).contains(user) && !failed(
            targets,
            attempts,
        ).contains(user),
{
    lemma_selected_or_rejected(targets, applied_marks(attempts), user);
}

/// A timeout ends at the same instant for every target of a batch: the
/// instant `duration` seconds after `now`, written once.
pub proof fn lemma_timeout_shared_by_batch(
    now: int,
    duration: int,
    targets: Seq<u64>,
    i: int,
)
    requires
        timeout_end(now, duration) is Some,
        0 <= i < targets.len(),
    ensures
        timeout_end(now, duration)->0 == (now + duration) * 1_000_000,
        planned_calls(
            StrategyView::Timeout { until: timeout_end(now, duration)->0 },
            targets,
        )[i] == (PlatformCallView::DisableCommunication {
            user: targets[i],
            until: rfc3339_text((now + duration) * 1_000_000),
        }),
{
}

/// The audit entries of two batches for the same targets are all written:
/// nothing recognises the second batch as a repetition, so each entry of one
/// batch is in the trail twice as often after both.
pub proof fn lemma_audit_not_deduplicated(targets: Seq<u64>, infraction_id: i32, user: u64)
    ensures
        (planned_audits(targets, infraction_id) + planned_audits(
            targets,
            infraction_id,
        )).to_multiset().count(AuditWrite { user, infraction_id }) == 2 * planned_audits(
            targets,
            infraction_id,
        ).to_multiset().count(AuditWrite { user, infraction_id }),
        targets.contains(user) ==> planned_audits(targets, infraction_id).to_multiset().count(
            AuditWrite { user, infraction_id },
        ) >= 1,
{
    let once = planned_audits(targets, infraction_id);
    lemma_multiset_commutative(once, once);
    once.to_multiset_ensures();
    if targets.contains(user) {
        let i = choose|i: int| 0 <= i < targets.len() && targets[i] == user;
        assert(once[i] == AuditWrite { user, infraction_id });
        assert(once.contains(AuditWrite { user, infraction_id }));
    }
}

} // verus!
