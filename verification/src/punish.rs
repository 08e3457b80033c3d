//! The command that punishes a list of users for an infraction of the
//! catalog.
//!
//! An invocation passes through four states. The targets are parsed from the
//! input. Before anything is done, the infraction is looked up and the
//! ranks of the targets are weighed against the rank of the acting user; an
//! unknown infraction, a target that is not strictly below the actor, or a
//! rank that cannot be had each end the command there, before anything is
//! done to anyone. The punishment is then dispatched to every target, and at
//! last the outcome is reported. A timeout needs the time of day: the clock
//! is read once, before the dispatch, so that the timeout of every target
//! ends at the same instant.
//!
//! An event that does not answer the request that was made last is taken as
//! a failure of the infrastructure and ends the command.

use vstd::prelude::*;
use vstd::string::StringExecFns;
use crate::dispatch::{
    audit_plan,
    failed,
    lemma_each_target_sorted_once,
    plan,
    planned_audits,
    planned_calls,
    punish_response_text,
    succeeded,
    tally,
    timeout_end,
    timeout_expiry,
    unlogged,
    write_punish_response,
    Strategy,
    StrategyView,
    Tally,
};
use crate::ids::{user_ids, user_ids_from};
use crate::models::{InfractionModel, Punishment};
use crate::platform::{
    failure_reply,
    failure_text,
    Attempt,
    Event,
    EventView,
    Lookup,
    PlatformCallView,
    Request,
    RequestView,
};
use crate::privilege::{
    all_below,
    authorization,
    first_not_below,
    is_authorized,
    lemma_settled_by_first,
    Authorization,
};
use crate::timestamp::{in_calendar, rfc3339_text, Timestamp};

verus! {

/// How an invocation of the command ended.
#[derive(Clone, Debug, PartialEq, Eq)]
pub enum Outcome {
    /// The catalog holds no infraction of the given id.
    NotFound,
    /// A target ranks as high as the acting user, or higher.
    Unauthorized,
    /// The platform or the store could not be asked, or answered beside the
    /// question.
    InfrastructureFailure,
    /// The punishment was dispatched to every target.
    Dispatched { tally: Tally },
}

/// An [`Outcome`] with its lists as sequences.
pub enum OutcomeView {
    NotFound,
    Unauthorized,
    InfrastructureFailure,
    Dispatched { succeeded: Seq<u64>, failed: Seq<u64>, unlogged: Seq<u64> },
}

impl View for Outcome {
    type V = OutcomeView;

    open spec fn view(&self) -> OutcomeView {
        match *self {
            Outcome::NotFound => OutcomeView::NotFound,
            Outcome::Unauthorized => OutcomeView::Unauthorized,
            Outcome::InfrastructureFailure => OutcomeView::InfrastructureFailure,
            Outcome::Dispatched { tally } => OutcomeView::Dispatched {
                succeeded: tally.succeeded@,
                failed: tally.failed@,
                unlogged: tally.unlogged@,
            },
        }
    }
}

/// An invocation of the command, between two requests.
#[derive(Clone, Debug, PartialEq, Eq)]
pub enum Punish {
    /// Authorizing: the store was asked for the infraction.
    FindingInfraction { id: i32, targets: Vec<u64>, message: String },
    /// Authorizing: the ranks were asked for.
    WeighingRanks { infraction: InfractionModel, targets: Vec<u64>, message: String },
    /// Authorized, before a timeout is dispatched: the clock was asked.
    ReadingClock { infraction: InfractionModel, targets: Vec<u64> },
    /// The punishment was dispatched to `targets`.
    Dispatching { targets: Vec<u64> },
    /// The outcome was reported. The command is over.
    Reporting { outcome: Outcome },
}

/// A [`Punish`] with its texts and lists as sequences.
pub enum PunishView {
    FindingInfraction { id: i32, targets: Seq<u64>, message: Seq<char> },
    WeighingRanks { infraction: InfractionModel, targets: Seq<u64>, message: Seq<char> },
    ReadingClock { infraction: InfractionModel, targets: Seq<u64> },
    Dispatching { targets: Seq<u64> },
    Reporting { outcome: OutcomeView },
}

impl View for Punish {
    type V = PunishView;

    open spec fn view(&self) -> PunishView {
        match *self {
            Punish::FindingInfraction { id, targets, message } => PunishView::FindingInfraction {
                id,
                targets: targets@,
                message: message@,
            },
            Punish::WeighingRanks { infraction, targets, message } => PunishView::WeighingRanks {
                infraction,
                targets: targets@,
                message: message@,
            },
            Punish::ReadingClock { infraction, targets } => PunishView::ReadingClock {
                infraction,
                targets: targets@,
            },
            Punish::Dispatching { targets } => PunishView::Dispatching { targets: targets@ },
            Punish::Reporting { outcome } => PunishView::Reporting { outcome: outcome@ },
        }
    }
}

/// What the acting user is told about an outcome.
pub open spec fn outcome_reply(outcome: OutcomeView) -> Seq<char> {
    match outcome {
        OutcomeView::NotFound => "This infraction ID doesn't exists!"@,
        OutcomeView::Unauthorized => "One of the users have a role higher than yours."@,
        OutcomeView::InfrastructureFailure => failure_text(),
        OutcomeView::Dispatched { succeeded, failed, .. } => punish_response_text(
            succeeded,
            failed,
        ),
    }
}

/// The state and the first request of an invocation with the given
/// arguments.
pub open spec fn punish_start(id: i32, users: Seq<char>, message: Seq<char>) -> (
    PunishView,
    RequestView,
) {
    (
        PunishView::FindingInfraction { id, targets: user_ids(users), message },
        RequestView::FindInfraction { id },
    )
}

/// The end of an invocation with `outcome`.
pub open spec fn finish(outcome: OutcomeView) -> (PunishView, RequestView) {
    (PunishView::Reporting { outcome }, RequestView::Reply { text: outcome_reply(outcome) })
}

/// The dispatch of `strategy` to `targets`, for the infraction
/// `infraction_id`.
pub open spec fn dispatching(infraction_id: i32, strategy: StrategyView, targets: Seq<u64>) -> (
    PunishView,
    RequestView,
) {
    (
        PunishView::Dispatching { targets },
        RequestView::Dispatch {
            calls: planned_calls(strategy, targets),
            audits: planned_audits(targets, infraction_id),
        },
    )
}

/// What being authorized leads to: the dispatch of a ban or a strike, or the
/// reading of the clock for a timeout.
pub open spec fn once_authorized(
    infraction: InfractionModel,
    targets: Seq<u64>,
    message: Seq<char>,
) -> (PunishView, RequestView) {
    match infraction.punishment {
        Punishment::Ban => dispatching(
            infraction.id,
            StrategyView::Ban { reason: message },
            targets,
        ),
        Punishment::Strike => dispatching(
            infraction.id,
            StrategyView::Strike { message },
            targets,
        ),
        Punishment::Timeout => (
            PunishView::ReadingClock { infraction, targets },
            RequestView::ReadClock,
        ),
    }
}

/// The state that follows `state` on `event`, and the request that is made
/// then.
pub open spec fn punish_step(state: PunishView, event: EventView) -> (PunishView, RequestView) {
    match state {
        PunishView::FindingInfraction { id, targets, message } => match event {
            EventView::Infraction { lookup: Lookup::Found(infraction) } => (
                PunishView::WeighingRanks { infraction, targets, message },
                RequestView::ResolveRanks { targets },
            ),
            EventView::Infraction { lookup: Lookup::Missing } => finish(OutcomeView::NotFound),
            _ => finish(OutcomeView::InfrastructureFailure),
        },
        PunishView::WeighingRanks { infraction, targets, message } => match event {
            EventView::Ranks { actor, targets: ranks } => if ranks.len() != targets.len() {
                finish(OutcomeView::InfrastructureFailure)
            } else {
                match authorization(actor, ranks) {
                    Authorization::Authorized => once_authorized(infraction, targets, message),
                    Authorization::Unauthorized => finish(OutcomeView::Unauthorized),
                    Authorization::Unresolved => finish(OutcomeView::InfrastructureFailure),
                }
            },
            _ => finish(OutcomeView::InfrastructureFailure),
        },
        PunishView::ReadingClock { infraction, targets } => match event {
            EventView::Clock { now } => match timeout_end(now as int, infraction.duration as int) {
                Some(until) => dispatching(
                    infraction.id,
                    StrategyView::Timeout { until },
                    targets,
                ),
                None => finish(OutcomeView::InfrastructureFailure),
            },
            _ => finish(OutcomeView::InfrastructureFailure),
        },
        PunishView::Dispatching { targets } => match event {
            EventView::Attempts { attempts } => finish(dispatched(targets, attempts)),
            _ => finish(OutcomeView::InfrastructureFailure),
        },
        PunishView::Reporting { outcome } => (state, RequestView::Done),
    }
}

/// The requests that are made, one after the other, when `events` come in
/// while the invocation is in `state`.
pub open spec fn punish_requests(state: PunishView, events: Seq<EventView>) -> Seq<RequestView>
    decreases events.len(),
{
    if events.len() == 0 {
        Seq::empty()
    } else {
        let (next, request) = punish_step(state, events[0]);
        seq![request] + punish_requests(next, events.skip(1))
    }
}

/// The state that an invocation is in after `events` came in while it was in
/// `state`.
pub open spec fn punish_state_after(state: PunishView, events: Seq<EventView>) -> PunishView
    decreases events.len(),
{
    if events.len() == 0 {
        state
    } else {
        punish_state_after(punish_step(state, events[0]).0, events.skip(1))
    }
}

/// The outcome of a dispatch to `targets` that `attempts` came back from.
pub open spec fn dispatched(targets: Seq<u64>, attempts: Seq<Attempt>) -> OutcomeView {
    OutcomeView::Dispatched {
        succeeded: succeeded(targets, attempts),
        failed: failed(targets, attempts),
        unlogged: unlogged(targets, attempts),
    }
}

/// The requests of a run, one by one: there is one for each event, the first
/// is the one that the first event leads to, and the others are those of the
/// run that goes on from the next state.
pub proof fn lemma_requests_unfold(state: PunishView, events: Seq<EventView>, i: int)
    requires
        0 <= i < events.len(),
    ensures
        punish_requests(state, events).len() == events.len(),
        i == 0 ==> punish_requests(state, events)[i] == punish_step(state, events[0]).1,
        i > 0 ==> punish_requests(state, events)[i] == punish_requests(
            punish_step(state, events[0]).0,
            events.skip(1),
        )[i - 1],
    decreases events.len(),
{
    let next = punish_step(state, events[0]).0;
    lemma_requests_len(next, events.skip(1));
}

/// A run makes one request for each event.
pub proof fn lemma_requests_len(state: PunishView, events: Seq<EventView>)
    ensures
        punish_requests(state, events).len() == events.len(),
    decreases events.len(),
{
    if events.len() > 0 {
        lemma_requests_len(punish_step(state, events[0]).0, events.skip(1));
    }
}

/// Once the outcome is reported the command is over: whatever comes in, no
/// further request is made.
pub proof fn lemma_reporting_is_final(outcome: OutcomeView, events: Seq<EventView>, i: int)
    requires
        0 <= i < events.len(),
    ensures
        punish_requests(PunishView::Reporting { outcome }, events)[i] == RequestView::Done,
    decreases events.len(),
{
    let state = PunishView::Reporting { outcome };
    lemma_requests_unfold(state, events, i);
    if i > 0 {
        lemma_reporting_is_final(outcome, events.skip(1), i - 1);
    }
}

/// An infraction that the catalog does not hold: the command reports that it
/// was not found, and neither before nor after does it ask for a platform
/// call or for an entry in the audit trail, whatever else comes in.
pub proof fn lemma_unknown_infraction_acts_on_nobody(
    id: i32,
    users: Seq<char>,
    message: Seq<char>,
    events: Seq<EventView>,
    i: int,
)
    requires
        0 <= i < events.len(),
        events[0] == (EventView::Infraction { lookup: Lookup::Missing }),
    ensures
        !punish_start(id, users, message).1.acts(),
        punish_requests(punish_start(id, users, message).0, events)[0] == (RequestView::Reply {
            text: outcome_reply(OutcomeView::NotFound),
        }),
        !punish_requests(punish_start(id, users, message).0, events)[i].acts(),
{
    let start = punish_start(id, users, message).0;
    lemma_requests_unfold(start, events, 0);
    lemma_requests_unfold(start, events, i);
    if i > 0 {
        lemma_reporting_is_final(OutcomeView::NotFound, events.skip(1), i - 1);
    }
}

/// A target that ranks as high as the acting user, or higher, and no target
/// before it whose rank is unknown: the command reports that the actor is
/// not authorized, and neither before nor after does it ask for a platform
/// call or for an entry in the audit trail, whatever else comes in.
pub proof fn lemma_outranked_acts_on_nobody(
    id: i32,
    users: Seq<char>,
    message: Seq<char>,
    infraction: InfractionModel,
    actor: i64,
    ranks: Seq<Option<i64>>,
    k: int,
    events: Seq<EventView>,
    i: int,
)
    requires
        0 <= i < events.len(),
        events.len() >= 2,
        events[0] == (EventView::Infraction { lookup: Lookup::Found(infraction) }),
        events[1] == (EventView::Ranks { actor: Some(actor), targets: ranks }),
        ranks.len() == user_ids(users).len(),
        first_not_below(ranks, actor, k),
        ranks[k] is Some,
    ensures
        !punish_start(id, users, message).1.acts(),
        punish_requests(punish_start(id, users, message).0, events)[1] == (RequestView::Reply {
            text: outcome_reply(OutcomeView::Unauthorized),
        }),
        !punish_requests(punish_start(id, users, message).0, events)[i].acts(),
{
    let start = punish_start(id, users, message).0;
    let targets = user_ids(users);
    let weighing = PunishView::WeighingRanks { infraction, targets, message };
    let rest = events.skip(1);
    lemma_settled_by_first(ranks, actor, k);
    lemma_requests_unfold(start, events, 0);
    lemma_requests_unfold(start, events, 1);
    lemma_requests_unfold(start, events, i);
    assert(punish_step(start, events[0]).0 == weighing);
    assert(rest[0] == events[1]);
    assert(punish_step(weighing, rest[0]) == finish(OutcomeView::Unauthorized));
    lemma_requests_unfold(weighing, rest, 0);
    if i > 0 {
        lemma_requests_unfold(weighing, rest, i - 1);
        if i > 1 {
            lemma_reporting_is_final(OutcomeView::Unauthorized, rest.skip(1), i - 2);
        }
    }
}

/// A platform call or an entry in the audit trail is asked for only where
/// the actor is authorized: the catalog held the infraction, the rank of the actor and of
/// every target was known, and every target ranked strictly below the actor.
pub proof fn lemma_acts_only_when_authorized(
    id: i32,
    users: Seq<char>,
    message: Seq<char>,
    events: Seq<EventView>,
    i: int,
)
    requires
        0 <= i < events.len(),
        punish_requests(punish_start(id, users, message).0, events)[i].acts(),
    ensures
        events.len() >= 2,
        events[0] matches EventView::Infraction { lookup: Lookup::Found(_) },
        events[1] matches EventView::Ranks { actor, targets: ranks } && authorization(actor, ranks)
            == Authorization::Authorized && ranks.len() == user_ids(users).len(),
{
    let start = punish_start(id, users, message).0;
    lemma_requests_unfold(start, events, 0);
    lemma_requests_unfold(start, events, i);
    let (second, first_request) = punish_step(start, events[0]);
    if second is Reporting {
        if i > 0 {
            lemma_reporting_is_final(second->outcome, events.skip(1), i - 1);
        }
    } else {
        assert(i > 0);
        let rest = events.skip(1);
        assert(rest[0] == events[1]);
        lemma_requests_unfold(second, rest, 0);
        lemma_requests_unfold(second, rest, i - 1);
        let (third, second_request) = punish_step(second, rest[0]);
        if third is Reporting {
            if i > 1 {
                lemma_reporting_is_final(third->outcome, rest.skip(1), i - 2);
            }
        }
    }
}

/// A ban or a strike by an actor who ranks above every target: one call and
/// one audit entry are asked for per target, each naming the infraction, and
/// when the attempts are back every place of the target list is sorted to
/// exactly one side. The users who were punished and those who were not,
/// taken together, hold each target as often as the input names them.
pub proof fn lemma_authorized_run_sorts_every_target(
    id: i32,
    users: Seq<char>,
    message: Seq<char>,
    infraction: InfractionModel,
    actor: i64,
    ranks: Seq<Option<i64>>,
    attempts: Seq<Attempt>,
)
    requires
        infraction.punishment != Punishment::Timeout,
        ranks.len() == user_ids(users).len(),
        all_below(ranks, actor, ranks.len() as int),
    ensures
        ({
            let targets = user_ids(users);
            let events = seq![
                EventView::Infraction { lookup: Lookup::Found(infraction) },
                EventView::Ranks { actor: Some(actor), targets: ranks },
                EventView::Attempts { attempts },
            ];
            let start = punish_start(id, users, message).0;
            let requests = punish_requests(start, events);
            &&& requests[1] matches RequestView::Dispatch { calls, audits }
            &&& calls.len() == targets.len()
            &&& audits == planned_audits(targets, infraction.id)
            &&& requests[2] == (RequestView::Reply {
                text: punish_response_text(
                    succeeded(targets, attempts),
                    failed(targets, attempts),
                ),
            })
            &&& punish_state_after(start, events) == (PunishView::Reporting {
                outcome: dispatched(targets, attempts),
            })
            &&& succeeded(targets, attempts).to_multiset().add(
                failed(targets, attempts).to_multiset(),
            ) == targets.to_multiset()
        }),
{
    let targets = user_ids(users);
    let events = seq![
        EventView::Infraction { lookup: Lookup::Found(infraction) },
        EventView::Ranks { actor: Some(actor), targets: ranks },
        EventView::Attempts { attempts },
    ];
    let start = punish_start(id, users, message).0;
    let weighing = PunishView::WeighingRanks { infraction, targets, message };
    let dispatching = PunishView::Dispatching { targets };
    let reporting = PunishView::Reporting { outcome: dispatched(targets, attempts) };
    lemma_each_target_sorted_once(targets, attempts);
    let rest = events.skip(1);
    let last = rest.skip(1);
    assert(punish_step(start, events[0]).0 == weighing);
    assert(punish_step(weighing, rest[0]).0 == dispatching);
    assert(punish_step(dispatching, last[0]).0 == reporting);
    assert(last.skip(1).len() == 0);
    assert(punish_state_after(reporting, last.skip(1)) == reporting);
    assert(punish_state_after(dispatching, last) == reporting);
    assert(punish_state_after(weighing, rest) == reporting);
    lemma_requests_unfold(start, events, 1);
    lemma_requests_unfold(start, events, 2);
    lemma_requests_unfold(weighing, rest, 0);
    lemma_requests_unfold(weighing, rest, 1);
    lemma_requests_unfold(dispatching, last, 0);
}

/// A timeout by an actor who ranks above every target: the clock is asked
/// once, and the call for every target carries the same end, the instant
/// `duration` seconds after the time that the clock gave. When the attempts
/// are back every place of the target list is sorted to exactly one side.
pub proof fn lemma_timeout_run_shares_one_end(
    id: i32,
    users: Seq<char>,
    message: Seq<char>,
    infraction: InfractionModel,
    actor: i64,
    ranks: Seq<Option<i64>>,
    now: i64,
    attempts: Seq<Attempt>,
    i: int,
)
    requires
        infraction.punishment == Punishment::Timeout,
        ranks.len() == user_ids(users).len(),
        all_below(ranks, actor, ranks.len() as int),
        in_calendar((now + infraction.duration) * 1_000_000),
        0 <= i < user_ids(users).len(),
    ensures
        ({
            let targets = user_ids(users);
            let events = seq![
                EventView::Infraction { lookup: Lookup::Found(infraction) },
                EventView::Ranks { actor: Some(actor), targets: ranks },
                EventView::Clock { now },
                EventView::Attempts { attempts },
            ];
            let start = punish_start(id, users, message).0;
            let requests = punish_requests(start, events);
            &&& requests[1] == RequestView::ReadClock
            &&& requests[2] matches RequestView::Dispatch { calls, audits }
            &&& calls.len() == targets.len()
            &&& calls[i] == (PlatformCallView::DisableCommunication {
                user: targets[i],
                until: rfc3339_text((now + infraction.duration) * 1_000_000),
            })
            &&& audits == planned_audits(targets, infraction.id)
            &&& punish_state_after(start, events) == (PunishView::Reporting {
                outcome: dispatched(targets, attempts),
            })
            &&& succeeded(targets, attempts).to_multiset().add(
                failed(targets, attempts).to_multiset(),
            ) == targets.to_multiset()
        }),
{
    let targets = user_ids(users);
    let events = seq![
        EventView::Infraction { lookup: Lookup::Found(infraction) },
        EventView::Ranks { actor: Some(actor), targets: ranks },
        EventView::Clock { now },
        EventView::Attempts { attempts },
    ];
    let start = punish_start(id, users, message).0;
    let weighing = PunishView::WeighingRanks { infraction, targets, message };
    let reading = PunishView::ReadingClock { infraction, targets };
    let dispatching = PunishView::Dispatching { targets };
    let reporting = PunishView::Reporting { outcome: dispatched(targets, attempts) };
    lemma_each_target_sorted_once(targets, attempts);
    let second = events.skip(1);
    let third = second.skip(1);
    let last = third.skip(1);
    assert(punish_step(start, events[0]).0 == weighing);
    assert(punish_step(weighing, second[0]).0 == reading);
    assert(punish_step(reading, third[0]).0 == dispatching);
    assert(punish_step(dispatching, last[0]).0 == reporting);
    assert(last.skip(1).len() == 0);
    assert(punish_state_after(reporting, last.skip(1)) == reporting);
    assert(punish_state_after(dispatching, last) == reporting);
    assert(punish_state_after(reading, third) == reporting);
    assert(punish_state_after(weighing, second) == reporting);
    lemma_requests_unfold(start, events, 1);
    lemma_requests_unfold(start, events, 2);
    lemma_requests_unfold(weighing, second, 0);
    lemma_requests_unfold(weighing, second, 1);
    lemma_requests_unfold(reading, third, 0);
}

fn end(outcome: Outcome) -> (next: (Punish, Request))
    ensures
        (next.0@, next.1@) == finish(outcome@),
{
    let request = match &outcome {
        Outcome::NotFound => Request::Reply {
            text: String::from_str("This infraction ID doesn't exists!"),
        },
        Outcome::Unauthorized => Request::Reply {
            text: String::from_str("One of the users have a role higher than yours."),
        },
        Outcome::InfrastructureFailure => failure_reply(),
        Outcome::Dispatched { tally } => Request::Reply {
            text: write_punish_response(&tally.succeeded, &tally.failed),
        },
    };
    (Punish::Reporting { outcome }, request)
}

fn dispatch(infraction_id: i32, strategy: Strategy, targets: Vec<u64>) -> (next: (Punish, Request))
    ensures
        (next.0@, next.1@) == dispatching(infraction_id, strategy@, targets@),
{
    let calls = plan(&strategy, &targets);
    let audits = audit_plan(&targets, infraction_id);
    (Punish::Dispatching { targets }, Request::Dispatch { calls, audits })
}

/// Dispatches a ban to each of the users: one call that bans the user for
/// the reason `message`, and one audit entry, for each.
pub fn ban_users(user_ids: Vec<u64>, message: String, infraction_id: i32) -> (next: (
    Punish,
    Request,
))
    ensures
        (next.0@, next.1@) == dispatching(
            infraction_id,
            StrategyView::Ban { reason: message@ },
            user_ids@,
        ),
{
    dispatch(infraction_id, Strategy::Ban { reason: message }, user_ids)
}

/// Dispatches a timeout to each of the users: one call that forbids the user
/// to communicate until `until`, and one audit entry, for each.
pub fn timeout_users(user_ids: Vec<u64>, until: Timestamp, infraction_id: i32) -> (next: (
    Punish,
    Request,
))
    ensures
        (next.0@, next.1@) == dispatching(
            infraction_id,
            StrategyView::Timeout { until: until@ },
            user_ids@,
        ),
{
    dispatch(infraction_id, Strategy::Timeout { until }, user_ids)
}

/// Dispatches a strike to each of the users: one direct message that tells
/// the user of the strike and of `message`, and one audit entry, for each.
pub fn strike_users(user_ids: Vec<u64>, message: String, infraction_id: i32) -> (next: (
    Punish,
    Request,
))
    ensures
        (next.0@, next.1@) == dispatching(
            infraction_id,
            StrategyView::Strike { message: message@ },
            user_ids@,
        ),
{
    dispatch(infraction_id, Strategy::Strike { message }, user_ids)
}

/// Starts the command: reads the targets out of `users` and asks for the
/// infraction `id`.
pub fn punish(id: i32, users: String, message: String) -> (start: (Punish, Request))
    ensures
        (start.0@, start.1@) == punish_start(id, users@, message@),
{
    let targets = user_ids_from(users.as_str());
    (Punish::FindingInfraction { id, targets, message }, Request::FindInfraction { id })
}

impl Punish {
    /// Takes the answer to the last request and says what to do next.
    pub fn step(self, event: Event) -> (next: (Punish, Request))
        ensures
            (next.0@, next.1@) == punish_step(self@, event@),
    {
        match self {
            Punish::FindingInfraction { id, targets, message } => match event {
                Event::Infraction { lookup: Lookup::Found(infraction) } => {
                    let request = Request::ResolveRanks { targets: targets.clone() };
                    (Punish::WeighingRanks { infraction, targets, message }, request)
                },
                Event::Infraction { lookup: Lookup::Missing } => end(Outcome::NotFound),
                _ => end(Outcome::InfrastructureFailure),
            },
            Punish::WeighingRanks { infraction, targets, message } => match event {
                Event::Ranks { actor, targets: ranks } => {
                    if ranks.len() != targets.len() {
                        end(Outcome::InfrastructureFailure)
                    } else {
                        match is_authorized(actor, &ranks) {
                            Authorization::Authorized => match infraction.punishment {
                                Punishment::Ban => ban_users(targets, message, infraction.id),
                                Punishment::Strike => strike_users(
                                    targets,
                                    message,
                                    infraction.id,
                                ),
                                Punishment::Timeout => (
                                    Punish::ReadingClock { infraction, targets },
                                    Request::ReadClock,
                                ),
                            },
                            Authorization::Unauthorized => end(Outcome::Unauthorized),
                            Authorization::Unresolved => end(Outcome::InfrastructureFailure),
                        }
                    }
                },
                _ => end(Outcome::InfrastructureFailure),
            },
            Punish::ReadingClock { infraction, targets } => match event {
                Event::Clock { now } => match timeout_expiry(now, infraction.duration) {
                    Some(until) => timeout_users(targets, until, infraction.id),
                    None => end(Outcome::InfrastructureFailure),
                },
                _ => end(Outcome::InfrastructureFailure),
            },
            Punish::Dispatching { targets } => match event {
                Event::Attempts { attempts } => end(
                    Outcome::Dispatched { tally: tally(&targets, &attempts) },
                ),
                _ => end(Outcome::InfrastructureFailure),
            },
            Punish::Reporting { outcome } => (Punish::Reporting { outcome }, Request::Done),
        }
    }
}

} // verus!
