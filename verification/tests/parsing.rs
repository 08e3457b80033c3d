use moderation::ids::{format_user_ids_list, user_ids_from, user_ids_to_mentions};

#[test]
fn reads_mentions_in_order() {
    assert_eq!(user_ids_from("<@111> <@222>"), vec![111, 222]);
}

#[test]
fn reads_nickname_mentions_and_bare_ids() {
    assert_eq!(user_ids_from("<@!444> 333 <@5>"), vec![444, 333, 5]);
}

#[test]
fn splits_at_white_space_and_commas() {
    assert_eq!(user_ids_from("1,2\t3\n4\r\n5 ,, 6"), vec![1, 2, 3, 4, 5, 6]);
}

#[test]
fn drops_malformed_tokens() {
    assert_eq!(user_ids_from("<@12x> abc <@> <@!> 12> <13 <@14 <#15> +16 -17"), Vec::<u64>::new());
    assert_eq!(user_ids_from("oops <@111> 22b <@222>"), vec![111, 222]);
}

#[test]
fn adjacent_mentions_are_one_malformed_token() {
    assert_eq!(user_ids_from("<@1><@2>"), Vec::<u64>::new());
}

#[test]
fn zero_is_no_user_id() {
    assert_eq!(user_ids_from("0 <@0> <@!000> 10"), vec![10]);
}

#[test]
fn leading_zeros_do_not_matter() {
    assert_eq!(user_ids_from("007 <@0042>"), vec![7, 42]);
}

#[test]
fn largest_id_is_read_and_the_next_number_is_dropped() {
    assert_eq!(user_ids_from("18446744073709551615"), vec![u64::MAX]);
    assert_eq!(user_ids_from("18446744073709551616"), Vec::<u64>::new());
    assert_eq!(user_ids_from("<@99999999999999999999999999> 8"), vec![8]);
}

#[test]
fn keeps_duplicates() {
    assert_eq!(user_ids_from("<@111> 111 <@!111>"), vec![111, 111, 111]);
}

#[test]
fn empty_input_names_nobody() {
    assert_eq!(user_ids_from(""), Vec::<u64>::new());
    assert_eq!(user_ids_from("  , \n"), Vec::<u64>::new());
}

#[test]
fn characters_beyond_ascii_are_no_digits() {
    assert_eq!(user_ids_from("١٢٣ <@é> 9"), vec![9]);
}

#[test]
fn writes_one_mention_per_user() {
    assert_eq!(
        user_ids_to_mentions(vec![111, 0, u64::MAX]),
        vec!["<@111>".to_string(), "<@0>".to_string(), "<@18446744073709551615>".to_string()]
    );
    assert_eq!(user_ids_to_mentions(vec![]), Vec::<String>::new());
}

#[test]
fn writes_the_list_with_commas() {
    assert_eq!(format_user_ids_list(vec![]), "");
    assert_eq!(format_user_ids_list(vec![5]), "<@5>");
    assert_eq!(format_user_ids_list(vec![5, 60, 700]), "<@5>, <@60>, <@700>");
}

#[test]
fn a_written_list_reads_back() {
    let ids = vec![1, 22, 333, u64::MAX, 22];
    assert_eq!(user_ids_from(&format_user_ids_list(ids.clone())), ids);
}
