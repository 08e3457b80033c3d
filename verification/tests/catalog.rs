use moderation::infractions::{
    add, format_catalog, format_trail, infractions, list, remove, user, Infractions,
};
use moderation::models::{InfractionModel, Punishment, Severity, UserInfractionModel};
use moderation::platform::{Event, Lookup, Request};
use moderation::timestamp::Timestamp;

fn says(text: &str) -> Request {
    Request::Reply { text: text.to_string() }
}

const FAILURE: &str = "Something went wrong. Please try again later.";

/// Answers a request as a store would that holds `rows`.
fn answer(rows: &mut Vec<InfractionModel>, request: &Request) -> Event {
    match request {
        Request::FindInfraction { id } => match rows.iter().find(|row| row.id == *id) {
            Some(row) => Event::Infraction { lookup: Lookup::Found(*row) },
            None => Event::Infraction { lookup: Lookup::Missing },
        },
        Request::CreateInfraction { infraction } => {
            rows.push(*infraction);
            rows.sort_by_key(|row| row.id);
            Event::Created { row: Some(*infraction) }
        }
        Request::ListInfractions => Event::Infractions { rows: Some(rows.clone()) },
        Request::DeleteInfraction { id } => {
            let before = rows.len();
            rows.retain(|row| row.id != *id);
            Event::Deleted { rows_affected: Some((before - rows.len()) as u64) }
        }
        other => panic!("not a request to the catalog: {:?}", other),
    }
}

/// Runs a command against a store that holds `rows`, up to its last request.
fn run(rows: &mut Vec<InfractionModel>, start: (Infractions, Request)) -> Request {
    let (mut state, mut request) = start;
    while !matches!(request, Request::Reply { .. } | Request::Paginate { .. }) {
        let event = answer(rows, &request);
        (state, request) = state.step(event);
    }
    assert_eq!(state, Infractions::Finished);
    request
}

#[test]
fn adding_an_id_twice_leaves_one_row() {
    let mut rows = Vec::new();
    let first = run(&mut rows, add(7, Severity::High, Punishment::Ban, 0));
    assert_eq!(
        first,
        says("Infraction created!\nID: 7\nSeverity: High\nPunishment: Ban\nDuration: 0\r\n")
    );
    let second = run(&mut rows, add(7, Severity::Low, Punishment::Strike, 9));
    assert_eq!(second, says("Infraction with ID `7` already exists!"));
    assert_eq!(
        rows,
        vec![InfractionModel {
            id: 7,
            severity: Severity::High,
            punishment: Punishment::Ban,
            duration: 0
        }]
    );
}

#[test]
fn add_asks_for_the_id_before_it_creates() {
    let (state, request) = add(-7, Severity::Medium, Punishment::Timeout, 60);
    assert_eq!(request, Request::FindInfraction { id: -7 });
    let (state, request) = state.step(Event::Infraction { lookup: Lookup::Missing });
    assert_eq!(state, Infractions::Creating);
    assert_eq!(
        request,
        Request::CreateInfraction {
            infraction: InfractionModel {
                id: -7,
                severity: Severity::Medium,
                punishment: Punishment::Timeout,
                duration: 60
            }
        }
    );
    let (state, request) = state.step(Event::Created { row: None });
    assert_eq!(request, says(FAILURE));
    assert_eq!(state, Infractions::Finished);
    let (_, request) = state.step(Event::Created { row: None });
    assert_eq!(request, Request::Done);
}

#[test]
fn add_tries_to_create_where_the_store_could_not_be_asked() {
    let (state, _) = add(1, Severity::Low, Punishment::Ban, 0);
    let (state, request) = state.step(Event::Infraction { lookup: Lookup::Unavailable });
    assert_eq!(state, Infractions::Creating);
    assert!(matches!(request, Request::CreateInfraction { .. }));
}

#[test]
fn add_reports_a_negative_id_that_is_taken() {
    let (state, _) = add(-12, Severity::Low, Punishment::Ban, 0);
    let taken = InfractionModel {
        id: -12,
        severity: Severity::High,
        punishment: Punishment::Ban,
        duration: 1,
    };
    let (_, request) = state.step(Event::Infraction { lookup: Lookup::Found(taken) });
    assert_eq!(request, says("Infraction with ID `-12` already exists!"));
}

#[test]
fn lists_the_catalog_one_infraction_per_page() {
    let mut rows = Vec::new();
    run(&mut rows, add(9, Severity::Low, Punishment::Strike, 0));
    run(&mut rows, add(2, Severity::High, Punishment::Timeout, 600));
    let request = run(&mut rows, list());
    assert_eq!(
        request,
        Request::Paginate {
            pages: vec![
                "ID: 2\nSeverity: High\nPunishment: Timeout\nDuration: 600".to_string(),
                "ID: 9\nSeverity: Low\nPunishment: Strike\nDuration: 0".to_string(),
                "".to_string(),
            ]
        }
    );
}

#[test]
fn lists_an_empty_catalog_as_one_empty_page() {
    let mut rows = Vec::new();
    assert_eq!(run(&mut rows, list()), Request::Paginate { pages: vec!["".to_string()] });
}

#[test]
fn list_says_so_where_the_store_could_not_be_asked() {
    let (state, request) = list();
    assert_eq!(request, Request::ListInfractions);
    let (_, request) = state.step(Event::Infractions { rows: None });
    assert_eq!(request, says("No infractions found in the table!"));
}

#[test]
fn remove_reports_whether_a_row_went() {
    let mut rows = Vec::new();
    run(&mut rows, add(7, Severity::High, Punishment::Ban, 0));
    assert_eq!(run(&mut rows, remove(8)), says("Infraction not deleted!"));
    assert_eq!(rows.len(), 1);
    assert_eq!(run(&mut rows, remove(7)), says("Infraction deleted!"));
    assert_eq!(rows.len(), 0);
}

#[test]
fn remove_counts_only_a_single_row_as_deleted() {
    let (state, request) = remove(3);
    assert_eq!(request, Request::DeleteInfraction { id: 3 });
    let (_, request) = state.step(Event::Deleted { rows_affected: Some(2) });
    assert_eq!(request, says("Infraction not deleted!"));
    let (state, _) = remove(3);
    let (_, request) = state.step(Event::Deleted { rows_affected: None });
    assert_eq!(request, says(FAILURE));
    let (state, _) = remove(3);
    let (_, request) = state.step(Event::Infractions { rows: None });
    assert_eq!(request, says(FAILURE));
}

#[test]
fn user_asks_for_the_entries_by_the_decimal_id() {
    let (state, request) = user(114941315417899012);
    assert_eq!(state, Infractions::ListingUser);
    assert_eq!(request, Request::ListUserInfractions { user_id: "114941315417899012".to_string() });
}

#[test]
fn user_shows_one_entry_per_page() {
    let entries = vec![
        UserInfractionModel {
            id: 1,
            user_id: "111".to_string(),
            infraction_id: 7,
            created_at: Timestamp::from_unix_seconds(0).unwrap(),
        },
        UserInfractionModel {
            id: 2,
            user_id: "111".to_string(),
            infraction_id: 8,
            created_at: Timestamp::from_micros(1_500_000).unwrap(),
        },
    ];
    assert_eq!(
        format_trail(&entries),
        "<@111> Case ID: 1\nInfraction ID: 7\nCreated at: 1970-01-01T00:00:00\r\n\
         <@111> Case ID: 2\nInfraction ID: 8\nCreated at: 1970-01-01T00:00:01.500\r\n"
    );
    let (state, _) = user(111);
    let (_, request) = state.step(Event::UserInfractions { entries: Some(entries) });
    assert_eq!(
        request,
        Request::Paginate {
            pages: vec![
                "<@111> Case ID: 1\nInfraction ID: 7\nCreated at: 1970-01-01T00:00:00".to_string(),
                "<@111> Case ID: 2\nInfraction ID: 8\nCreated at: 1970-01-01T00:00:01.500"
                    .to_string(),
                "".to_string(),
            ]
        }
    );
}

#[test]
fn user_says_so_where_the_store_could_not_be_asked() {
    let (state, _) = user(5);
    let (_, request) = state.step(Event::UserInfractions { entries: None });
    assert_eq!(request, says("User has no infractions!"));
    let (state, _) = user(5);
    let (_, request) = state.step(Event::Clock { now: 0 });
    assert_eq!(request, says(FAILURE));
}

#[test]
fn the_catalog_text_is_the_entries_one_after_the_other() {
    assert_eq!(format_catalog(&vec![]), "");
    let row = InfractionModel {
        id: 1,
        severity: Severity::Low,
        punishment: Punishment::Ban,
        duration: 2,
    };
    assert_eq!(
        format_catalog(&vec![row, row]),
        "ID: 1\nSeverity: Low\nPunishment: Ban\nDuration: 2\r\n\
         ID: 1\nSeverity: Low\nPunishment: Ban\nDuration: 2\r\n"
    );
}

#[test]
fn the_group_command_asks_for_nothing() {
    assert_eq!(infractions(), Request::Done);
}
