use moderation::kick::{build_kick_embed, kick, kick_member, kick_members, Kick};
use moderation::platform::{Attempt, Event, KickEmbed, PlatformCall, Request};

fn removal(applied: bool) -> Attempt {
    Attempt { applied, logged: false }
}

fn embed(description: &str, reason: &str, users: &str) -> KickEmbed {
    KickEmbed {
        title: "Kick".to_string(),
        color: 0x3BA55C,
        description: description.to_string(),
        reason: reason.to_string(),
        users: users.to_string(),
    }
}

#[test]
fn a_target_that_outranks_the_actor_is_left_out() {
    let (run, request) = kick("<@333>".to_string(), None);
    assert_eq!(request, Request::ResolveRanks { targets: vec![333] });
    let (run, request) = run.step(Event::Ranks { actor: Some(5), targets: vec![Some(9)] });
    assert_eq!(request, Request::Dispatch { calls: vec![], audits: vec![] });
    assert_eq!(run, Kick::Removing { targets: vec![], reason: None });
    let (run, request) = run.step(Event::Attempts { attempts: vec![] });
    assert_eq!(
        request,
        Request::ReplyEmbed { embed: embed("**0** users kicked out!", "No reason provided", "") }
    );
    assert_eq!(run, Kick::Finished);
}

#[test]
fn removes_the_lower_ranks_and_reports_those_that_went() {
    let (run, _) = kick("1 2 3 4".to_string(), Some("raid".to_string()));
    let (run, request) =
        run.step(Event::Ranks { actor: Some(5), targets: vec![Some(1), Some(5), Some(2), None] });
    assert_eq!(
        request,
        Request::Dispatch {
            calls: vec![
                PlatformCall::RemoveMember { user: 1, reason: Some("raid".to_string()) },
                PlatformCall::RemoveMember { user: 3, reason: Some("raid".to_string()) },
            ],
            audits: vec![],
        }
    );
    let (run, request) = run.step(Event::Attempts { attempts: vec![removal(false), removal(true)] });
    assert_eq!(
        request,
        Request::ReplyEmbed { embed: embed("**1** users kicked out!", "raid", "<@3>") }
    );
    let (_, request) = run.step(Event::Attempts { attempts: vec![removal(true)] });
    assert_eq!(request, Request::Done);
}

#[test]
fn an_unknown_actor_rank_removes_nobody() {
    let (run, _) = kick("1 2".to_string(), None);
    let (_, request) = run.step(Event::Ranks { actor: None, targets: vec![Some(1), Some(2)] });
    assert_eq!(request, Request::Dispatch { calls: vec![], audits: vec![] });
}

#[test]
fn a_kick_that_is_answered_beside_the_question_fails() {
    let (run, _) = kick("1 2".to_string(), None);
    let (run, request) = run.step(Event::Clock { now: 1 });
    assert_eq!(
        request,
        Request::Reply { text: "Something went wrong. Please try again later.".to_string() }
    );
    assert_eq!(run, Kick::Finished);

    let (run, _) = kick("1".to_string(), None);
    let (run, _) = run.step(Event::Ranks { actor: Some(5), targets: vec![Some(1)] });
    let (_, request) = run.step(Event::Ranks { actor: Some(5), targets: vec![Some(1)] });
    assert_eq!(
        request,
        Request::Reply { text: "Something went wrong. Please try again later.".to_string() }
    );
}

#[test]
fn the_summary_counts_and_lists_the_users() {
    assert_eq!(
        build_kick_embed(vec![1, 2, 3], "spam"),
        embed("**3** users kicked out!", "spam", "<@1>, <@2>, <@3>")
    );
    assert_eq!(build_kick_embed(vec![], ""), embed("**0** users kicked out!", "", ""));
    assert_eq!(build_kick_embed(vec![7; 12], "x").description, "**12** users kicked out!");
}

#[test]
fn removal_calls_carry_the_reason() {
    assert_eq!(kick_member(4, &None), PlatformCall::RemoveMember { user: 4, reason: None });
    assert_eq!(
        kick_members(&vec![4, 5], &Some("r".to_string())),
        vec![
            PlatformCall::RemoveMember { user: 4, reason: Some("r".to_string()) },
            PlatformCall::RemoveMember { user: 5, reason: Some("r".to_string()) },
        ]
    );
}
