//! What a command asks of the outside world, and what it is told in return.
//!
//! A command does no I/O. It hands out a [`Request`], and whoever drives it
//! performs the request against the chat platform or the store and hands the
//! matching [`Event`] back.

use vstd::prelude::*;
use vstd::string::StringExecFns;
use crate::models::{InfractionModel, UserInfractionModel};
use crate::text::text_views;

verus! {

/// What the store answered when it was asked for an infraction.
#[derive(Clone, Copy, Debug, PartialEq, Eq, Structural)]
pub enum Lookup {
    Found(InfractionModel),
    /// The catalog holds no infraction of that id.
    Missing,
    /// The store could not be asked.
    Unavailable,
}

/// One call of the chat platform, made for one user.
#[derive(Clone, Debug, PartialEq, Eq)]
#[allow(inconsistent_fields)]
pub enum PlatformCall {
    /// Ban the user, deleting their messages of the last
    /// `delete_message_days` days.
    Ban { user: u64, delete_message_days: u8, reason: String },
    /// Forbid the user to communicate until the instant `until`, written in
    /// RFC 3339 form.
    DisableCommunication { user: u64, until: String },
    /// Open a one-to-one channel with the user and send `text` through it.
    DirectMessage { user: u64, text: String },
    /// Remove the user from the group.
    RemoveMember { user: u64, reason: Option<String> },
}

/// A [`PlatformCall`] with its texts as sequences of characters.
#[allow(inconsistent_fields)]
pub enum PlatformCallView {
    Ban { user: u64, delete_message_days: u8, reason: Seq<char> },
    DisableCommunication { user: u64, until: Seq<char> },
    DirectMessage { user: u64, text: Seq<char> },
    RemoveMember { user: u64, reason: Option<Seq<char>> },
}

/// The characters of a text that may be absent.
pub open spec fn optional_text(text: Option<String>) -> Option<Seq<char>> {
    match text {
        Some(text) => Some(text@),
        None => None,
    }
}

impl View for PlatformCall {
    type V = PlatformCallView;

    open spec fn view(&self) -> PlatformCallView {
        match *self {
            PlatformCall::Ban { user, delete_message_days, reason } => PlatformCallView::Ban {
                user,
                delete_message_days,
                reason: reason@,
            },
            PlatformCall::DisableCommunication {
                user,
                until,
            } => PlatformCallView::DisableCommunication { user, until: until@ },
            PlatformCall::DirectMessage { user, text } => PlatformCallView::DirectMessage {
                user,
                text: text@,
            },
            PlatformCall::RemoveMember { user, reason } => PlatformCallView::RemoveMember {
                user,
                reason: optional_text(reason),
            },
        }
    }
}

impl PlatformCallView {
    /// The user that the call is made for.
    pub open spec fn user(self) -> u64 {
        match self {
            PlatformCallView::Ban { user, .. } => user,
            PlatformCallView::DisableCommunication { user, .. } => user,
            PlatformCallView::DirectMessage { user, .. } => user,
            PlatformCallView::RemoveMember { user, .. } => user,
        }
    }
}

/// One entry to append to the audit trail: `user` was punished, or was to be
/// punished, for the infraction `infraction_id`.
#[derive(Clone, Copy, Debug, PartialEq, Eq, Structural)]
pub struct AuditWrite {
    pub user: u64,
    pub infraction_id: i32,
}

/// How the attempt on one user went.
#[derive(Clone, Copy, Debug, PartialEq, Eq, Structural)]
pub struct Attempt {
    /// Whether the platform carried the call out.
    pub applied: bool,
    /// Whether the store took the audit entry. Without meaning where no
    /// entry was asked for.
    pub logged: bool,
}

/// The summary of a kick, to be shown as an embed.
#[derive(Clone, Debug, PartialEq, Eq)]
pub struct KickEmbed {
    pub title: String,
    pub color: u32,
    pub description: String,
    /// The value of the field "Reason".
    pub reason: String,
    /// The value of the field "Users".
    pub users: String,
}

/// A [`KickEmbed`] with its texts as sequences of characters.
pub struct KickEmbedView {
    pub title: Seq<char>,
    pub color: u32,
    pub description: Seq<char>,
    pub reason: Seq<char>,
    pub users: Seq<char>,
}

impl View for KickEmbed {
    type V = KickEmbedView;

    open spec fn view(&self) -> KickEmbedView {
        KickEmbedView {
            title: self.title@,
            color: self.color,
            description: self.description@,
            reason: self.reason@,
            users: self.users@,
        }
    }
}

/// A [`UserInfractionModel`] with its text as a sequence of characters and
/// its instant in microseconds.
pub struct UserInfractionView {
    pub id: i32,
    pub user_id: Seq<char>,
    pub infraction_id: i32,
    pub created_at: int,
}

impl View for UserInfractionModel {
    type V = UserInfractionView;

    open spec fn view(&self) -> UserInfractionView {
        UserInfractionView {
            id: self.id,
            user_id: self.user_id@,
            infraction_id: self.infraction_id,
            created_at: self.created_at@,
        }
    }
}

/// The view of each call of `calls`.
pub open spec fn call_views(calls: Seq<PlatformCall>) -> Seq<PlatformCallView> {
    calls.map_values(|call: PlatformCall| call@)
}

/// The view of each entry of `entries`.
pub open spec fn entry_views(entries: Seq<UserInfractionModel>) -> Seq<UserInfractionView> {
    entries.map_values(|entry: UserInfractionModel| entry@)
}

/// What the acting user is told where the platform or the store let the
/// command down.
pub open spec fn failure_text() -> Seq<char> {
    "Something went wrong. Please try again later."@
}

/// Writes what the acting user is told where the platform or the store let
/// the command down.
pub fn failure_reply() -> (request: Request)
    ensures
        request@ == (RequestView::Reply { text: failure_text() }),
{
    Request::Reply { text: String::from_str("Something went wrong. Please try again later.") }
}

/// What a command asks its driver to do next.
#[derive(Clone, Debug, PartialEq, Eq)]
pub enum Request {
    /// Ask the store for the infraction `id`. Answered by
    /// [`Event::Infraction`].
    FindInfraction { id: i32 },
    /// Ask the store to add an infraction to the catalog. Answered by
    /// [`Event::Created`].
    CreateInfraction { infraction: InfractionModel },
    /// Ask the store for the whole catalog, ordered by id. Answered by
    /// [`Event::Infractions`].
    ListInfractions,
    /// Ask the store to delete the infraction `id`. Answered by
    /// [`Event::Deleted`].
    DeleteInfraction { id: i32 },
    /// Ask the store for the audit entries of a user. Answered by
    /// [`Event::UserInfractions`].
    ListUserInfractions { user_id: String },
    /// Look up the rank of the acting user and of each of `targets`.
    /// Answered by [`Event::Ranks`].
    ResolveRanks { targets: Vec<u64> },
    /// Read the clock. Answered by [`Event::Clock`].
    ReadClock,
    /// Make every call of `calls`, each on its own and whatever becomes of
    /// the others, and after the call at `i` append `audits[i]` to the
    /// audit trail, if there is one. Answered by [`Event::Attempts`].
    Dispatch { calls: Vec<PlatformCall>, audits: Vec<AuditWrite> },
    /// Show `text` to the acting user. The command is over.
    Reply { text: String },
    /// Show `pages` to the acting user, one at a time. The command is over.
    Paginate { pages: Vec<String> },
    /// Show the summary of a kick to the acting user. The command is over.
    ReplyEmbed { embed: KickEmbed },
    /// Nothing: the command was over before the event came.
    Done,
}

/// A [`Request`] with its texts and lists as sequences.
pub enum RequestView {
    FindInfraction { id: i32 },
    CreateInfraction { infraction: InfractionModel },
    ListInfractions,
    DeleteInfraction { id: i32 },
    ListUserInfractions { user_id: Seq<char> },
    ResolveRanks { targets: Seq<u64> },
    ReadClock,
    Dispatch { calls: Seq<PlatformCallView>, audits: Seq<AuditWrite> },
    Reply { text: Seq<char> },
    Paginate { pages: Seq<Seq<char>> },
    ReplyEmbed { embed: KickEmbedView },
    Done,
}

impl View for Request {
    type V = RequestView;

    open spec fn view(&self) -> RequestView {
        match *self {
            Request::FindInfraction { id } => RequestView::FindInfraction { id },
            Request::CreateInfraction { infraction } => RequestView::CreateInfraction {
                infraction,
            },
            Request::ListInfractions => RequestView::ListInfractions,
            Request::DeleteInfraction { id } => RequestView::DeleteInfraction { id },
            Request::ListUserInfractions { user_id } => RequestView::ListUserInfractions {
                user_id: user_id@,
            },
            Request::ResolveRanks { targets } => RequestView::ResolveRanks { targets: targets@ },
            Request::ReadClock => RequestView::ReadClock,
            Request::Dispatch { calls, audits } => RequestView::Dispatch {
                calls: call_views(calls@),
                audits: audits@,
            },
            Request::Reply { text } => RequestView::Reply { text: text@ },
            Request::Paginate { pages } => RequestView::Paginate { pages: text_views(pages@) },
            Request::ReplyEmbed { embed } => RequestView::ReplyEmbed { embed: embed@ },
            Request::Done => RequestView::Done,
        }
    }
}

impl RequestView {
    /// Whether the request makes a platform call or writes to the audit
    /// trail.
    pub open spec fn acts(self) -> bool {
        self is Dispatch
    }

    /// Whether the command is over with this request.
    pub open spec fn is_final(self) -> bool {
        self is Reply || self is Paginate || self is ReplyEmbed || self is Done
    }
}

/// What the driver tells a command: the answer to the last request.
#[derive(Clone, Debug, PartialEq, Eq)]
pub enum Event {
    /// The store's answer to [`Request::FindInfraction`].
    Infraction { lookup: Lookup },
    /// The store's answer to [`Request::CreateInfraction`]: the row that it
    /// holds now, or `None` where it took none.
    Created { row: Option<InfractionModel> },
    /// The store's answer to [`Request::ListInfractions`]: the rows, or
    /// `None` where the store could not be asked.
    Infractions { rows: Option<Vec<InfractionModel>> },
    /// The store's answer to [`Request::DeleteInfraction`]: the number of
    /// rows that went, or `None` where the store could not be asked.
    Deleted { rows_affected: Option<u64> },
    /// The store's answer to [`Request::ListUserInfractions`].
    UserInfractions { entries: Option<Vec<UserInfractionModel>> },
    /// The ranks that [`Request::ResolveRanks`] asked for: `targets[i]` is
    /// the rank of the target at `i`, and `None` stands for a rank that
    /// could not be looked up.
    Ranks { actor: Option<i64>, targets: Vec<Option<i64>> },
    /// The time that [`Request::ReadClock`] asked for, in seconds since the
    /// Unix epoch.
    Clock { now: i64 },
    /// How the calls of [`Request::Dispatch`] went: `attempts[i]` speaks of
    /// the call at `i`.
    Attempts { attempts: Vec<Attempt> },
}

/// An [`Event`] with its lists as sequences.
pub enum EventView {
    Infraction { lookup: Lookup },
    Created { row: Option<InfractionModel> },
    Infractions { rows: Option<Seq<InfractionModel>> },
    Deleted { rows_affected: Option<u64> },
    UserInfractions { entries: Option<Seq<UserInfractionView>> },
    Ranks { actor: Option<i64>, targets: Seq<Option<i64>> },
    Clock { now: i64 },
    Attempts { attempts: Seq<Attempt> },
}

impl View for Event {
    type V = EventView;

    open spec fn view(&self) -> EventView {
        match *self {
            Event::Infraction { lookup } => EventView::Infraction { lookup },
            Event::Created { row } => EventView::Created { row },
            Event::Infractions { rows } => EventView::Infractions {
                rows: match rows {
                    Some(rows) => Some(rows@),
                    None => None,
                },
            },
            Event::Deleted { rows_affected } => EventView::Deleted { rows_affected },
            Event::UserInfractions { entries } => EventView::UserInfractions {
                entries: match entries {
                    Some(entries) => Some(entry_views(entries@)),
                    None => None,
                },
            },
            Event::Ranks { actor, targets } => EventView::Ranks { actor, targets: targets@ },
            Event::Clock { now } => EventView::Clock { now },
            Event::Attempts { attempts } => EventView::Attempts { attempts: attempts@ },
        }
    }
}

} // verus!
