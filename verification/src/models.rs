//! The rows of the store: the infractions of the catalog and the punishments
//! that were applied.

use vstd::prelude::*;
use crate::text::{push_signed_decimal, push_text, signed_decimal};
use crate::timestamp::{naive_debug_text, Timestamp};

verus! {

/// How grave an infraction is, from the lightest to the gravest.
#[derive(Clone, Copy, Debug, PartialEq, Eq, PartialOrd, Ord, Structural)]
pub enum Severity {
    Low,
    Medium,
    High,
}

impl Severity {
    /// The place of the severity in the order from the lightest to the
    /// gravest.
    pub open spec fn level(self) -> nat {
        match self {
            Severity::Low => 0,
            Severity::Medium => 1,
            Severity::High => 2,
        }
    }

    /// Whether an infraction of this severity is at least as grave as one of
    /// the severity `other`.
    pub fn at_least(self, other: Severity) -> (graver: bool)
        ensures
            graver == (self.level() >= other.level()),
    {
        match other {
            Severity::Low => true,
            Severity::Medium => match self {
                Severity::Low => false,
                _ => true,
            },
            Severity::High => match self {
                Severity::High => true,
                _ => false,
            },
        }
    }
}

/// What is done to a user who committed an infraction.
#[derive(Clone, Copy, Debug, PartialEq, Eq, Structural)]
pub enum Punishment {
    /// The user is removed from the group for good.
    Ban,
    /// The user may not communicate until a given instant.
    Timeout,
    /// The user is warned in a direct message.
    Strike,
}

/// One entry of the catalog: a punishment template.
#[derive(Clone, Copy, Debug, PartialEq, Eq, Structural)]
pub struct InfractionModel {
    /// The id, unique in the catalog.
    pub id: i32,
    pub severity: Severity,
    pub punishment: Punishment,
    /// The length of a timeout in seconds; without meaning for the other
    /// punishments.
    pub duration: i64,
}

/// One entry of the audit trail: a punishment that was applied to a user.
#[derive(Clone, Debug, PartialEq, Eq)]
pub struct UserInfractionModel {
    /// The case id that the store assigned.
    pub id: i32,
    /// The user, as the store holds them: the id in decimal.
    pub user_id: String,
    /// The infraction that the user was punished for.
    pub infraction_id: i32,
    /// When the store took the entry.
    pub created_at: Timestamp,
}

/// The name of a severity.
pub open spec fn severity_name(severity: Severity) -> Seq<char> {
    match severity {
        Severity::Low => "Low"@,
        Severity::Medium => "Medium"@,
        Severity::High => "High"@,
    }
}

/// The name of a punishment.
pub open spec fn punishment_name(punishment: Punishment) -> Seq<char> {
    match punishment {
        Punishment::Ban => "Ban"@,
        Punishment::Timeout => "Timeout"@,
        Punishment::Strike => "Strike"@,
    }
}

/// The four lines that show one entry of the catalog, closed by a carriage
/// return and a line feed.
pub open spec fn infraction_text(infraction: InfractionModel) -> Seq<char> {
    "ID: "@ + signed_decimal(infraction.id as int) + "\nSeverity: "@ + severity_name(
        infraction.severity,
    ) + "\nPunishment: "@ + punishment_name(infraction.punishment) + "\nDuration: "@
        + signed_decimal(infraction.duration as int) + "\r\n"@
}

/// The three lines that show one entry of the audit trail, closed by a
/// carriage return and a line feed.
pub open spec fn user_infraction_text(
    user_id: Seq<char>,
    id: int,
    infraction_id: int,
    created_at: int,
) -> Seq<char> {
    "<@"@ + user_id + "> Case ID: "@ + signed_decimal(id) + "\nInfraction ID: "@
        + signed_decimal(infraction_id) + "\nCreated at: "@ + naive_debug_text(created_at)
        + "\r\n"@
}

fn push_severity(out: &mut String, severity: Severity)
    ensures
        final(out)@ == old(out)@ + severity_name(severity),
{
    match severity {
        Severity::Low => push_text(out, "Low"),
        Severity::Medium => push_text(out, "Medium"),
        Severity::High => push_text(out, "High"),
    }
}

fn push_punishment(out: &mut String, punishment: Punishment)
    ensures
        final(out)@ == old(out)@ + punishment_name(punishment),
{
    match punishment {
        Punishment::Ban => push_text(out, "Ban"),
        Punishment::Timeout => push_text(out, "Timeout"),
        Punishment::Strike => push_text(out, "Strike"),
    }
}

/// Shows one entry of the catalog.
pub fn format_infraction(infraction: InfractionModel) -> (text: String)
    ensures
        text@ == infraction_text(infraction),
{
    let mut text = String::new();
    push_text(&mut text, "ID: ");
    push_signed_decimal(&mut text, infraction.id as i64);
    push_text(&mut text, "\nSeverity: ");
    push_severity(&mut text, infraction.severity);
    push_text(&mut text, "\nPunishment: ");
    push_punishment(&mut text, infraction.punishment);
    push_text(&mut text, "\nDuration: ");
    push_signed_decimal(&mut text, infraction.duration);
    push_text(&mut text, "\r\n");
    assert(text@ =~= infraction_text(infraction));
    text
}

/// Shows one entry of the audit trail.
pub fn format_user_infraction(entry: UserInfractionModel) -> (text: String)
    ensures
        text@ == user_infraction_text(
            entry.user_id@,
            entry.id as int,
            entry.infraction_id as int,
            entry.created_at@,
        ),
{
    write_user_infraction(&entry)
}

/// Shows one entry of the audit trail that stays with the caller.
pub fn write_user_infraction(entry: &UserInfractionModel) -> (text: String)
    ensures
        text@ == user_infraction_text(
            entry.user_id@,
            entry.id as int,
            entry.infraction_id as int,
            entry.created_at@,
        ),
{
    let mut text = String::new();
    push_text(&mut text, "<@");
    push_text(&mut text, entry.user_id.as_str());
    push_text(&mut text, "> Case ID: ");
    push_signed_decimal(&mut text, entry.id as i64);
    push_text(&mut text, "\nInfraction ID: ");
    push_signed_decimal(&mut text, entry.infraction_id as i64);
    push_text(&mut text, "\nCreated at: ");
    let created_at = entry.created_at.to_debug_text();
    push_text(&mut text, created_at.as_str());
    push_text(&mut text, "\r\n");
    assert(text@ =~= user_infraction_text(
        entry.user_id@,
        entry.id as int,
        entry.infraction_id as int,
        entry.created_at@,
    ));
    text
}

} // verus!
