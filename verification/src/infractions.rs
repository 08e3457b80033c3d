//! The commands that keep the catalog of infractions and show the audit
//! trail of a user: `add`, `list`, `remove` and `user`.
//!
//! Each of them asks the store one or two questions and shows the answer. The
//! catalog holds each id once: `add` asks for the id first and creates the
//! infraction only where the store does not show one.

use vstd::prelude::*;
use vstd::string::StringExecFns;
use crate::models::{
    format_infraction,
    infraction_text,
    user_infraction_text,
    write_user_infraction,
    InfractionModel,
    Punishment,
    Severity,
    UserInfractionModel,
};
use crate::platform::{
    entry_views,
    failure_reply,
    failure_text,
    Event,
    EventView,
    Lookup,
    Request,
    RequestView,
    UserInfractionView,
};
use crate::text::{
    decimal,
    pages_of,
    push_decimal,
    push_signed_decimal,
    push_text,
    signed_decimal,
    split_pages,
};

verus! {

/// An invocation of one of the commands, between two requests.
#[derive(Clone, Copy, Debug, PartialEq, Eq, Structural)]
pub enum Infractions {
    /// `add` asked whether the id is taken.
    CheckingId { infraction: InfractionModel },
    /// `add` asked for the infraction to be created.
    Creating,
    /// `list` asked for the catalog.
    Listing,
    /// `remove` asked for the infraction to be deleted.
    Deleting,
    /// `user` asked for the audit entries of a user.
    ListingUser,
    /// The command is over.
    Finished,
}

/// What `add` says where the id is taken.
pub open spec fn exists_text(id: i32) -> Seq<char> {
    "Infraction with ID `"@ + signed_decimal(id as int) + "` already exists!"@
}

/// What `add` says where the infraction was created.
pub open spec fn created_text(row: InfractionModel) -> Seq<char> {
    "Infraction created!\n"@ + infraction_text(row)
}

/// What `remove` says where `rows_affected` rows went.
pub open spec fn deleted_text(rows_affected: u64) -> Seq<char> {
    if rows_affected == 1 {
        "Infraction deleted!"@
    } else {
        "Infraction not deleted!"@
    }
}

/// The entries of the catalog, one after the other.
pub open spec fn catalog_text(rows: Seq<InfractionModel>) -> Seq<char>
    decreases rows.len(),
{
    if rows.len() == 0 {
        Seq::empty()
    } else {
        catalog_text(rows.drop_last()) + infraction_text(rows.last())
    }
}

/// The entries of an audit trail, one after the other.
pub open spec fn trail_text(entries: Seq<UserInfractionView>) -> Seq<char>
    decreases entries.len(),
{
    if entries.len() == 0 {
        Seq::empty()
    } else {
        trail_text(entries.drop_last()) + user_infraction_text(
            entries.last().user_id,
            entries.last().id as int,
            entries.last().infraction_id as int,
            entries.last().created_at,
        )
    }
}

/// The end of a command with a reply.
pub open spec fn reply(text: Seq<char>) -> (Infractions, RequestView) {
    (Infractions::Finished, RequestView::Reply { text })
}

/// The end of a command with the pages of `text`.
pub open spec fn paginate(text: Seq<char>) -> (Infractions, RequestView) {
    (Infractions::Finished, RequestView::Paginate { pages: pages_of(text) })
}

/// The state that follows `state` on `event`, and the request that is made
/// then.
pub open spec fn infractions_step(state: Infractions, event: EventView) -> (
    Infractions,
    RequestView,
) {
    match state {
        Infractions::CheckingId { infraction } => match event {
            EventView::Infraction { lookup: Lookup::Found(_) } => reply(exists_text(infraction.id)),
            EventView::Infraction { lookup } => (
                Infractions::Creating,
                RequestView::CreateInfraction { infraction },
            ),
            _ => reply(failure_text()),
        },
        Infractions::Creating => match event {
            EventView::Created { row: Some(row) } => reply(created_text(row)),
            _ => reply(failure_text()),
        },
        Infractions::Listing => match event {
            EventView::Infractions { rows: Some(rows) } => paginate(catalog_text(rows)),
            EventView::Infractions { rows: None } => reply("No infractions found in the table!"@),
            _ => reply(failure_text()),
        },
        Infractions::Deleting => match event {
            EventView::Deleted { rows_affected: Some(rows_affected) } => reply(
                deleted_text(rows_affected),
            ),
            _ => reply(failure_text()),
        },
        Infractions::ListingUser => match event {
            EventView::UserInfractions { entries: Some(entries) } => paginate(trail_text(entries)),
            EventView::UserInfractions { entries: None } => reply("User has no infractions!"@),
            _ => reply(failure_text()),
        },
        Infractions::Finished => (Infractions::Finished, RequestView::Done),
    }
}

/// The requests that are made, one after the other, when `events` come in
/// while a command is in `state`.
pub open spec fn infractions_requests(state: Infractions, events: Seq<EventView>) -> Seq<
    RequestView,
>
    decreases events.len(),
{
    if events.len() == 0 {
        Seq::empty()
    } else {
        let (next, request) = infractions_step(state, events[0]);
        seq![request] + infractions_requests(next, events.skip(1))
    }
}

/// Once a command is over, no further request is made, whatever comes in.
pub proof fn lemma_finished_is_final(events: Seq<EventView>, i: int)
    requires
        0 <= i < events.len(),
    ensures
        infractions_requests(Infractions::Finished, events).len() == events.len(),
        infractions_requests(Infractions::Finished, events)[i] == RequestView::Done,
    decreases events.len(),
{
    lemma_infractions_requests_len(Infractions::Finished, events.skip(1));
    if i > 0 {
        lemma_finished_is_final(events.skip(1), i - 1);
    }
}

/// A run makes one request for each event.
pub proof fn lemma_infractions_requests_len(state: Infractions, events: Seq<EventView>)
    ensures
        infractions_requests(state, events).len() == events.len(),
    decreases events.len(),
{
    if events.len() > 0 {
        lemma_infractions_requests_len(infractions_step(state, events[0]).0, events.skip(1));
    }
}

/// The catalog holds each id once: where the store shows an infraction of
/// the id, `add` says so and never asks for another to be created, whatever
/// else comes in.
pub proof fn lemma_add_keeps_ids_unique(
    infraction: InfractionModel,
    taken: InfractionModel,
    events: Seq<EventView>,
    i: int,
)
    requires
        0 <= i < events.len(),
        events[0] == (EventView::Infraction { lookup: Lookup::Found(taken) }),
    ensures
        infractions_requests(Infractions::CheckingId { infraction }, events).len()
            == events.len(),
        infractions_requests(Infractions::CheckingId { infraction }, events)[0] == (
        RequestView::Reply { text: exists_text(infraction.id) }),
        !(infractions_requests(Infractions::CheckingId { infraction }, events)[i]
            is CreateInfraction),
{
    let start = Infractions::CheckingId { infraction };
    lemma_infractions_requests_len(start, events);
    lemma_infractions_requests_len(Infractions::Finished, events.skip(1));
    if i > 0 {
        lemma_finished_is_final(events.skip(1), i - 1);
    }
}

/// The command that groups the others. By itself it asks for nothing.
pub fn infractions() -> (request: Request)
    ensures
        request@ == RequestView::Done,
{
    Request::Done
}

/// Starts `add`: asks whether the catalog holds an infraction of the id
/// already.
pub fn add(id: i32, severity: Severity, punishment: Punishment, duration: i64) -> (start: (
    Infractions,
    Request,
))
    ensures
        start.0 == (Infractions::CheckingId {
            infraction: InfractionModel { id, severity, punishment, duration },
        }),
        start.1@ == (RequestView::FindInfraction { id }),
{
    (
        Infractions::CheckingId {
            infraction: InfractionModel { id, severity, punishment, duration },
        },
        Request::FindInfraction { id },
    )
}

/// Starts `list`: asks for the catalog.
pub fn list() -> (start: (Infractions, Request))
    ensures
        start.0 == Infractions::Listing,
        start.1@ == RequestView::ListInfractions,
{
    (Infractions::Listing, Request::ListInfractions)
}

/// Starts `remove`: asks for the infraction `id` to be deleted.
pub fn remove(id: i32) -> (start: (Infractions, Request))
    ensures
        start.0 == Infractions::Deleting,
        start.1@ == (RequestView::DeleteInfraction { id }),
{
    (Infractions::Deleting, Request::DeleteInfraction { id })
}

/// Starts `user`: asks for the audit entries of `member`, whom the store
/// knows by their id in decimal.
pub fn user(member: u64) -> (start: (Infractions, Request))
    ensures
        start.0 == Infractions::ListingUser,
        start.1@ == (RequestView::ListUserInfractions { user_id: decimal(member as nat) }),
{
    let mut user_id = String::new();
    push_decimal(&mut user_id, member);
    assert(user_id@ =~= decimal(member as nat));
    (Infractions::ListingUser, Request::ListUserInfractions { user_id })
}

fn say(text: &str) -> (next: (Infractions, Request))
    ensures
        (next.0, next.1@) == reply(text@),
{
    (Infractions::Finished, Request::Reply { text: String::from_str(text) })
}

fn show(text: String) -> (next: (Infractions, Request))
    ensures
        (next.0, next.1@) == paginate(text@),
{
    (Infractions::Finished, Request::Paginate { pages: split_pages(text.as_str()) })
}

/// Writes the entries of the catalog one after the other.
pub fn format_catalog(rows: &Vec<InfractionModel>) -> (text: String)
    ensures
        text@ == catalog_text(rows@),
{
    let mut text = String::new();
    let mut i: usize = 0;
    while i < rows.len()
        invariant
            i <= rows.len(),
            text@ == catalog_text(rows@.take(i as int)),
        decreases rows.len() - i,
    {
        assert(rows@.take(i + 1).drop_last() =~= rows@.take(i as int));
        let entry = format_infraction(rows[i]);
        push_text(&mut text, entry.as_str());
        i += 1;
    }
    assert(rows@.take(rows.len() as int) =~= rows@);
    text
}

/// Writes the entries of an audit trail one after the other.
pub fn format_trail(entries: &Vec<UserInfractionModel>) -> (text: String)
    ensures
        text@ == trail_text(entry_views(entries@)),
{
    let mut text = String::new();
    let mut i: usize = 0;
    while i < entries.len()
        invariant
            i <= entries.len(),
            text@ == trail_text(entry_views(entries@).take(i as int)),
        decreases entries.len() - i,
    {
        proof {
            let longer = entry_views(entries@).take(i + 1);
            assert(longer.drop_last() =~= entry_views(entries@).take(i as int));
            assert(longer.last() == entries@[i as int]@);
        }
        let entry = write_user_infraction(&entries[i]);
        push_text(&mut text, entry.as_str());
        i += 1;
    }
    assert(entry_views(entries@).take(entries.len() as int) =~= entry_views(entries@));
    text
}

impl Infractions {
    /// Takes the answer to the last request and says what to do next.
    pub fn step(self, event: Event) -> (next: (Infractions, Request))
        ensures
            (next.0, next.1@) == infractions_step(self, event@),
    {
        match self {
            Infractions::CheckingId { infraction } => match event {
                Event::Infraction { lookup: Lookup::Found(_) } => {
                    let mut text = String::new();
                    push_text(&mut text, "Infraction with ID `");
                    push_signed_decimal(&mut text, infraction.id as i64);
                    push_text(&mut text, "` already exists!");
                    assert(text@ =~= exists_text(infraction.id));
                    (Infractions::Finished, Request::Reply { text })
                },
                Event::Infraction { lookup } => (
                    Infractions::Creating,
                    Request::CreateInfraction { infraction },
                ),
                _ => (Infractions::Finished, failure_reply()),
            },
            Infractions::Creating => match event {
                Event::Created { row: Some(row) } => {
                    let mut text = String::new();
                    push_text(&mut text, "Infraction created!\n");
                    let entry = format_infraction(row);
                    push_text(&mut text, entry.as_str());
                    assert(text@ =~= created_text(row));
                    (Infractions::Finished, Request::Reply { text })
                },
                _ => (Infractions::Finished, failure_reply()),
            },
            Infractions::Listing => match event {
                Event::Infractions { rows: Some(rows) } => show(format_catalog(&rows)),
                Event::Infractions { rows: None } => say("No infractions found in the table!"),
                _ => (Infractions::Finished, failure_reply()),
            },
            Infractions::Deleting => match event {
                Event::Deleted { rows_affected: Some(rows_affected) } => {
                    if rows_affected == 1 {
                        say("Infraction deleted!")
                    } else {
                        say("Infraction not deleted!")
                    }
                },
                _ => (Infractions::Finished, failure_reply()),
            },
            Infractions::ListingUser => match event {
                Event::UserInfractions { entries: Some(entries) } => show(format_trail(&entries)),
                Event::UserInfractions { entries: None } => say("User has no infractions!"),
                _ => (Infractions::Finished, failure_reply()),
            },
            Infractions::Finished => (Infractions::Finished, Request::Done),
        }
    }
}

} // verus!
