use moderation::dispatch::punish_response;
use moderation::models::{
    format_infraction, format_user_infraction, InfractionModel, Punishment, Severity,
    UserInfractionModel,
};
use moderation::text::{join, push_decimal, push_signed_decimal, split_pages};
use moderation::timestamp::Timestamp;

#[test]
fn shows_an_infraction_in_four_lines() {
    let infraction = InfractionModel {
        id: 7,
        severity: Severity::High,
        punishment: Punishment::Ban,
        duration: 0,
    };
    assert_eq!(
        format_infraction(infraction),
        "ID: 7\nSeverity: High\nPunishment: Ban\nDuration: 0\r\n"
    );
}

#[test]
fn shows_every_severity_and_punishment_by_name() {
    let low = InfractionModel {
        id: 1,
        severity: Severity::Low,
        punishment: Punishment::Timeout,
        duration: 3600,
    };
    assert_eq!(
        format_infraction(low),
        "ID: 1\nSeverity: Low\nPunishment: Timeout\nDuration: 3600\r\n"
    );
    let medium = InfractionModel {
        id: 20,
        severity: Severity::Medium,
        punishment: Punishment::Strike,
        duration: 15,
    };
    assert_eq!(
        format_infraction(medium),
        "ID: 20\nSeverity: Medium\nPunishment: Strike\nDuration: 15\r\n"
    );
}

#[test]
fn shows_negative_and_extreme_numbers() {
    let infraction = InfractionModel {
        id: i32::MIN,
        severity: Severity::Low,
        punishment: Punishment::Ban,
        duration: i64::MIN,
    };
    assert_eq!(
        format_infraction(infraction),
        "ID: -2147483648\nSeverity: Low\nPunishment: Ban\nDuration: -9223372036854775808\r\n"
    );
    let infraction = InfractionModel {
        id: i32::MAX,
        severity: Severity::Low,
        punishment: Punishment::Ban,
        duration: i64::MAX,
    };
    assert_eq!(
        format_infraction(infraction),
        "ID: 2147483647\nSeverity: Low\nPunishment: Ban\nDuration: 9223372036854775807\r\n"
    );
}

#[test]
fn agrees_with_the_standard_formatting_of_numbers() {
    for n in [0u64, 1, 9, 10, 99, 100, 12345, u64::MAX] {
        let mut text = String::new();
        push_decimal(&mut text, n);
        assert_eq!(text, format!("{}", n));
    }
    for i in [0i64, -1, 1, -10, 1000, i64::MIN, i64::MAX] {
        let mut text = String::from("x");
        push_signed_decimal(&mut text, i);
        assert_eq!(text, format!("x{}", i));
    }
}

#[test]
fn shows_an_audit_entry_in_three_lines() {
    let entry = UserInfractionModel {
        id: 5,
        user_id: "111".to_string(),
        infraction_id: 7,
        created_at: Timestamp::from_micros(1_662_921_288_000_000).unwrap(),
    };
    assert_eq!(
        format_user_infraction(entry),
        "<@111> Case ID: 5\nInfraction ID: 7\nCreated at: 2022-09-11T18:34:48\r\n"
    );
}

#[test]
fn shows_the_fraction_of_a_second_of_an_audit_entry() {
    let entry = UserInfractionModel {
        id: -1,
        user_id: "222".to_string(),
        infraction_id: -7,
        created_at: Timestamp::from_micros(1_662_921_288_123_456).unwrap(),
    };
    assert_eq!(
        format_user_infraction(entry),
        "<@222> Case ID: -1\nInfraction ID: -7\nCreated at: 2022-09-11T18:34:48.123456\r\n"
    );
}

#[test]
fn summary_names_both_lists() {
    assert_eq!(
        punish_response((vec![111], vec![222])),
        "Punished users: <@111>\nNot punished users: <@222>"
    );
    assert_eq!(
        punish_response((vec![1, 2, 3], vec![])),
        "Punished users: <@1>, <@2>, <@3>\nNot punished users: "
    );
    assert_eq!(punish_response((vec![], vec![])), "Punished users: \nNot punished users: ");
}

#[test]
fn joins_with_the_separator_between_neighbours() {
    assert_eq!(join(&vec![], ", "), "");
    assert_eq!(join(&vec!["a".to_string()], ", "), "a");
    assert_eq!(join(&vec!["a".to_string(), "".to_string(), "c".to_string()], "--"), "a----c");
}

#[test]
fn cuts_pages_at_carriage_return_and_line_feed() {
    assert_eq!(split_pages("a\r\nb"), vec!["a".to_string(), "b".to_string()]);
    assert_eq!(split_pages("a\r\nb\r\n"), vec!["a".to_string(), "b".to_string(), "".to_string()]);
    assert_eq!(split_pages(""), vec!["".to_string()]);
    assert_eq!(split_pages("\r\n"), vec!["".to_string(), "".to_string()]);
    assert_eq!(split_pages("a\nb\rc"), vec!["a\nb\rc".to_string()]);
    assert_eq!(split_pages("a\r\r\nb\r"), vec!["a\r".to_string(), "b\r".to_string()]);
}

#[test]
fn cuts_pages_as_the_standard_split_does() {
    for text in ["", "x", "\r\n\r\n", "é\r\nü", "1\r\n2\r\n3", "\n\r\n\r", "\r\r\n\n"] {
        let expected: Vec<String> = text.split("\r\n").map(|page| page.to_string()).collect();
        assert_eq!(split_pages(text), expected);
    }
}

#[test]
fn severities_are_ordered_from_the_lightest_to_the_gravest() {
    assert!(Severity::Low < Severity::Medium && Severity::Medium < Severity::High);
    let all = [Severity::Low, Severity::Medium, Severity::High];
    for a in all {
        for b in all {
            assert_eq!(a.at_least(b), a >= b);
        }
    }
}
