//! The command that removes a list of users from the group.
//!
//! A kick is the lighter sibling of a punishment: it needs no infraction and
//! leaves no entry in the audit trail. A target that does not rank strictly
//! below the acting user does not stop the command. It is left out of the
//! removal without a word, and the others are removed, each on their own.

use vstd::prelude::*;
use vstd::string::StringExecFns;
use crate::dispatch::{applied_marks, succeeded, succeeded_of};
use crate::ids::{mention_list, user_ids, user_ids_from, write_mention_list};
use crate::platform::{
    call_views,
    failure_reply,
    failure_text,
    optional_text,
    Attempt,
    AuditWrite,
    Event,
    EventView,
    KickEmbed,
    KickEmbedView,
    PlatformCall,
    PlatformCallView,
    Request,
    RequestView,
};
use crate::privilege::{below_actor, lemma_kept_rank_below, ranks_below, user_ids_below_user};
use crate::selection::lemma_selected_contains;
use crate::text::{decimal, push_decimal, push_text};

verus! {

/// An invocation of the command, between two requests.
#[derive(Clone, Debug, PartialEq, Eq)]
pub enum Kick {
    /// The ranks were asked for.
    WeighingRanks { targets: Vec<u64>, reason: Option<String> },
    /// The removal of `targets` was dispatched.
    Removing { targets: Vec<u64>, reason: Option<String> },
    /// The command is over.
    Finished,
}

/// A [`Kick`] with its texts and lists as sequences.
pub enum KickView {
    WeighingRanks { targets: Seq<u64>, reason: Option<Seq<char>> },
    Removing { targets: Seq<u64>, reason: Option<Seq<char>> },
    Finished,
}

impl View for Kick {
    type V = KickView;

    open spec fn view(&self) -> KickView {
        match *self {
            Kick::WeighingRanks { targets, reason } => KickView::WeighingRanks {
                targets: targets@,
                reason: optional_text(reason),
            },
            Kick::Removing { targets, reason } => KickView::Removing {
                targets: targets@,
                reason: optional_text(reason),
            },
            Kick::Finished => KickView::Finished,
        }
    }
}

/// The call that removes `user`.
pub open spec fn removal_call(user: u64, reason: Option<Seq<char>>) -> PlatformCallView {
    PlatformCallView::RemoveMember { user, reason }
}

/// The calls that remove each of `targets`, in their order.
pub open spec fn removal_calls(targets: Seq<u64>, reason: Option<Seq<char>>) -> Seq<
    PlatformCallView,
> {
    targets.map_values(|user: u64| removal_call(user, reason))
}

/// The reason that the summary shows.
pub open spec fn shown_reason(reason: Option<Seq<char>>) -> Seq<char> {
    match reason {
        Some(reason) => reason,
        None => "No reason provided"@,
    }
}

/// The summary of a kick that removed `kicked`.
pub open spec fn kick_embed(kicked: Seq<u64>, reason: Seq<char>) -> KickEmbedView {
    KickEmbedView {
        title: "Kick"@,
        color: 0x3BA55C,
        description: "**"@ + decimal(kicked.len()) + "** users kicked out!"@,
        reason,
        users: mention_list(kicked),
    }
}

/// The state and the first request of an invocation with the given
/// arguments.
pub open spec fn kick_start(users: Seq<char>, reason: Option<Seq<char>>) -> (
    KickView,
    RequestView,
) {
    (
        KickView::WeighingRanks { targets: user_ids(users), reason },
        RequestView::ResolveRanks { targets: user_ids(users) },
    )
}

/// The state that follows `state` on `event`, and the request that is made
/// then.
pub open spec fn kick_step(state: KickView, event: EventView) -> (KickView, RequestView) {
    match state {
        KickView::WeighingRanks { targets, reason } => match event {
            EventView::Ranks { actor, targets: ranks } => {
                let kept = below_actor(targets, ranks, actor);
                (
                    KickView::Removing { targets: kept, reason },
                    RequestView::Dispatch {
                        calls: removal_calls(kept, reason),
                        audits: Seq::empty(),
                    },
                )
            },
            _ => (KickView::Finished, RequestView::Reply { text: failure_text() }),
        },
        KickView::Removing { targets, reason } => match event {
            EventView::Attempts { attempts } => (
                KickView::Finished,
                RequestView::ReplyEmbed {
                    embed: kick_embed(succeeded(targets, attempts), shown_reason(reason)),
                },
            ),
            _ => (KickView::Finished, RequestView::Reply { text: failure_text() }),
        },
        KickView::Finished => (KickView::Finished, RequestView::Done),
    }
}

fn copy_of(text: &Option<String>) -> (copy: Option<String>)
    ensures
        optional_text(copy) == optional_text(*text),
{
    match text {
        Some(text) => Some(text.clone()),
        None => None,
    }
}

/// The call that removes one user from the group.
pub fn kick_member(user_id: u64, reason: &Option<String>) -> (call: PlatformCall)
    ensures
        call@ == removal_call(user_id, optional_text(*reason)),
{
    PlatformCall::RemoveMember { user: user_id, reason: copy_of(reason) }
}

/// The calls that remove each of the users from the group, in their order.
pub fn kick_members(user_ids: &Vec<u64>, reason: &Option<String>) -> (calls: Vec<PlatformCall>)
    ensures
        call_views(calls@) == removal_calls(user_ids@, optional_text(*reason)),
{
    let mut calls: Vec<PlatformCall> = Vec::new();
    let mut i: usize = 0;
    while i < user_ids.len()
        invariant
            i <= user_ids.len(),
            calls.len() == i,
            call_views(calls@) == removal_calls(
                user_ids@.take(i as int),
                optional_text(*reason),
            ),
        decreases user_ids.len() - i,
    {
        let call = kick_member(user_ids[i], reason);
        let ghost before = calls@;
        calls.push(call);
        i += 1;
        proof {
            let goal = removal_calls(user_ids@.take(i as int), optional_text(*reason));
            assert forall|k: int| 0 <= k < goal.len() implies call_views(calls@)[k]
                == goal[k] by {
                if k < i - 1 {
                    assert(call_views(before)[k] == removal_calls(
                        user_ids@.take(i - 1),
                        optional_text(*reason),
                    )[k]);
                    assert(calls@[k] == before[k]);
                }
            }
            assert(call_views(calls@) =~= goal);
        }
    }
    assert(user_ids@.take(user_ids.len() as int) =~= user_ids@);
    calls
}

/// Writes the summary of a kick that removed `user_ids`.
pub fn build_kick_embed(user_ids: Vec<u64>, reason: &str) -> (embed: KickEmbed)
    ensures
        embed@ == kick_embed(user_ids@, reason@),
{
    let mut description = String::new();
    push_text(&mut description, "**");
    push_decimal(&mut description, user_ids.len() as u64);
    push_text(&mut description, "** users kicked out!");
    assert(description@ =~= "**"@ + decimal(user_ids@.len()) + "** users kicked out!"@);
    KickEmbed {
        title: String::from_str("Kick"),
        color: 0x3BA55C,
        description,
        reason: String::from_str(reason),
        users: write_mention_list(&user_ids),
    }
}

/// Starts the command: reads the targets out of `users` and asks for their
/// ranks.
pub fn kick(users: String, reason: Option<String>) -> (start: (Kick, Request))
    ensures
        (start.0@, start.1@) == kick_start(users@, optional_text(reason)),
{
    let targets = user_ids_from(users.as_str());
    let request = Request::ResolveRanks { targets: targets.clone() };
    (Kick::WeighingRanks { targets, reason }, request)
}

impl Kick {
    /// Takes the answer to the last request and says what to do next.
    pub fn step(self, event: Event) -> (next: (Kick, Request))
        ensures
            (next.0@, next.1@) == kick_step(self@, event@),
    {
        match self {
            Kick::WeighingRanks { targets, reason } => match event {
                Event::Ranks { actor, targets: ranks } => {
                    let kept = user_ids_below_user(&targets, &ranks, actor);
                    let calls = kick_members(&kept, &reason);
                    let audits: Vec<AuditWrite> = Vec::new();
                    (Kick::Removing { targets: kept, reason }, Request::Dispatch { calls, audits })
                },
                _ => (Kick::Finished, failure_reply()),
            },
            Kick::Removing { targets, reason } => match event {
                Event::Attempts { attempts } => {
                    let kicked = succeeded_of(&targets, &attempts);
                    let embed = match &reason {
                        Some(reason) => build_kick_embed(kicked, reason.as_str()),
                        None => build_kick_embed(kicked, "No reason provided"),
                    };
                    (Kick::Finished, Request::ReplyEmbed { embed })
                },
                _ => (Kick::Finished, failure_reply()),
            },
            Kick::Finished => (Kick::Finished, Request::Done),
        }
    }
}

/// Nobody is removed, or reported as removed, who was not named at a place
/// whose rank is known and strictly below the rank of the acting user.
pub proof fn lemma_only_lower_ranks_are_kicked(
    users: Seq<char>,
    reason: Option<Seq<char>>,
    actor: Option<i64>,
    ranks: Seq<Option<i64>>,
    attempts: Seq<Attempt>,
    user: u64,
)
    requires
        !(actor is Some && exists|i: int|
            0 <= i < user_ids(users).len() && i < ranks.len() && user_ids(users)[i] == user
                && ranks_below(ranks[i], actor->0)),
    ensures
        ({
            let weighed = kick_step(
                kick_start(users, reason).0,
                EventView::Ranks { actor, targets: ranks },
            );
            let reported = kick_step(weighed.0, EventView::Attempts { attempts });
            &&& weighed.1 matches RequestView::Dispatch { calls, audits }
            &&& audits.len() == 0
            &&& forall|j: int| 0 <= j < calls.len() ==> (#[trigger] calls[j]).user() != user
            &&& reported.1 matches RequestView::ReplyEmbed { embed }
            &&& embed == kick_embed(
                succeeded(below_actor(user_ids(users), ranks, actor), attempts),
                shown_reason(reason),
            )
            &&& !succeeded(below_actor(user_ids(users), ranks, actor), attempts).contains(user)
        }),
{
    let targets = user_ids(users);
    let kept = below_actor(targets, ranks, actor);
    lemma_kept_rank_below(targets, ranks, actor, user);
    assert(!kept.contains(user));
    lemma_selected_contains(kept, applied_marks(attempts), user);
    let calls = removal_calls(kept, reason);
    assert forall|j: int| 0 <= j < calls.len() implies (#[trigger] calls[j]).user() != user by {
        assert(calls[j].user() == kept[j]);
        assert(kept.contains(kept[j]));
    }
}

} // verus!
