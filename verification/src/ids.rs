//! User references: reading them out of free-form input and writing them back
//! as mentions.
//!
//! The input of a command is a list of tokens, separated by white space or
//! commas. A token names a user when it is a mention, `<@` or `<@!` followed
//! by decimal digits and `>`, or a bare run of decimal digits, and the number
//! is a user id: at least 1 and at most `u64::MAX`. Every other token is
//! dropped. Nothing is deduplicated: a user named twice is in the list twice.

use vstd::prelude::*;
use crate::text::{
    chars_of,
    decimal,
    digit_char,
    join,
    joined,
    push_decimal,
    push_text,
    text_views,
};

verus! {

/// Whether `c` separates two tokens of the input.
pub open spec fn is_separator(c: char) -> bool {
    c == ' ' || c == '\t' || c == '\n' || c == '\r' || c == ','
}

/// The value of the decimal digit `c`, or -1 where `c` is no digit.
pub open spec fn digit_value(c: char) -> int {
    if c == '0' {
        0
    } else if c == '1' {
        1
    } else if c == '2' {
        2
    } else if c == '3' {
        3
    } else if c == '4' {
        4
    } else if c == '5' {
        5
    } else if c == '6' {
        6
    } else if c == '7' {
        7
    } else if c == '8' {
        8
    } else if c == '9' {
        9
    } else {
        -1
    }
}

/// Whether every character of `s` is a decimal digit.
pub open spec fn all_digits(s: Seq<char>) -> bool {
    forall|i: int| 0 <= i < s.len() ==> digit_value(#[trigger] s[i]) >= 0
}

/// The number that the digits of `s` denote in base ten.
pub open spec fn digits_value(s: Seq<char>) -> int
    decreases s.len(),
{
    if s.len() == 0 {
        0
    } else {
        digits_value(s.drop_last()) * 10 + digit_value(s.last())
    }
}

/// The user id that a run of digits denotes, if it denotes one.
pub open spec fn digits_user_id(d: Seq<char>) -> Option<u64> {
    if d.len() > 0 && all_digits(d) && 0 < digits_value(d) <= u64::MAX {
        Some(digits_value(d) as u64)
    } else {
        None
    }
}

/// Whether `token` has the brackets of a mention around it.
pub open spec fn is_bracketed(token: Seq<char>) -> bool {
    token.len() >= 3 && token[0] == '<' && token[1] == '@' && token.last() == '>'
}

/// Where the digits of `token` start: behind `<@!` or `<@` in a mention, at
/// the front otherwise.
pub open spec fn digits_start(token: Seq<char>) -> int {
    if is_bracketed(token) {
        if token.len() >= 4 && token[2] == '!' {
            3
        } else {
            2
        }
    } else {
        0
    }
}

/// Where the digits of `token` end: before `>` in a mention, at the end
/// otherwise.
pub open spec fn digits_end(token: Seq<char>) -> int {
    if is_bracketed(token) {
        token.len() - 1
    } else {
        token.len() as int
    }
}

/// The user id that one token names, if it names one.
pub open spec fn token_user_id(token: Seq<char>) -> Option<u64> {
    digits_user_id(token.subrange(digits_start(token), digits_end(token)))
}

/// The length of the token at the front of `s`: the number of characters
/// before the first separator.
pub open spec fn token_len(s: Seq<char>) -> nat
    decreases s.len(),
{
    if s.len() == 0 || is_separator(s[0]) {
        0
    } else {
        1 + token_len(s.skip(1))
    }
}

/// The user ids that the input `s` names, in the order of the input.
pub open spec fn user_ids(s: Seq<char>) -> Seq<u64>
    decreases s.len(),
{
    if s.len() == 0 {
        Seq::empty()
    } else if is_separator(s[0]) {
        user_ids(s.skip(1))
    } else {
        let n = token_len(s) as int;
        proof {
            lemma_token_len_bound(s);
        }
        match token_user_id(s.take(n)) {
            Some(id) => seq![id] + user_ids(s.skip(n)),
            None => user_ids(s.skip(n)),
        }
    }
}

/// The mention of the user `id`: `<@`, the id in decimal, `>`.
pub open spec fn mention(id: u64) -> Seq<char> {
    "<@"@ + decimal(id as nat) + ">"@
}

/// The mention of each user of `ids`.
pub open spec fn mentions(ids: Seq<u64>) -> Seq<Seq<char>> {
    ids.map_values(|id: u64| mention(id))
}

/// The mentions of `ids`, separated by a comma and a space.
pub open spec fn mention_list(ids: Seq<u64>) -> Seq<char> {
    joined(mentions(ids), ", "@)
}

/// A token is no longer than the input it starts, and is not empty where the
/// input starts with a character that is no separator.
pub proof fn lemma_token_len_bound(s: Seq<char>)
    ensures
        token_len(s) <= s.len(),
        s.len() > 0 && !is_separator(s[0]) ==> token_len(s) > 0,
    decreases s.len(),
{
    if s.len() > 0 && !is_separator(s[0]) {
        lemma_token_len_bound(s.skip(1));
    }
}

proof fn lemma_digits_value_prefix(d: Seq<char>, k: int)
    requires
        all_digits(d),
        0 <= k <= d.len(),
    ensures
        0 <= digits_value(d.take(k)) <= digits_value(d),
    decreases d.len(),
{
    if k == d.len() {
        assert(d.take(k) =~= d);
        if d.len() > 0 {
            assert(all_digits(d.drop_last()));
            lemma_digits_value_prefix(d.drop_last(), k - 1);
            assert(digit_value(d.last()) >= 0);
        }
    } else {
        assert(all_digits(d.drop_last()));
        lemma_digits_value_prefix(d.drop_last(), k);
        assert(d.drop_last().take(k) =~= d.take(k));
        assert(digit_value(d.last()) >= 0);
    }
}

/// Whoever is read out of an input has a user id: none of the ids is 0.
pub proof fn lemma_user_ids_are_positive(s: Seq<char>, i: int)
    requires
        0 <= i < user_ids(s).len(),
    ensures
        user_ids(s)[i] > 0,
    decreases s.len(),
{
    if s.len() == 0 {
    } else if is_separator(s[0]) {
        lemma_user_ids_are_positive(s.skip(1), i);
    } else {
        let n = token_len(s) as int;
        lemma_token_len_bound(s);
        match token_user_id(s.take(n)) {
            Some(id) => {
                if i > 0 {
                    lemma_user_ids_are_positive(s.skip(n), i - 1);
                }
            },
            None => {
                lemma_user_ids_are_positive(s.skip(n), i);
            },
        }
    }
}

/// The decimal numeral of a number is made of digits and denotes the number.
pub proof fn lemma_decimal_denotes(n: nat)
    ensures
        decimal(n).len() > 0,
        all_digits(decimal(n)),
        digits_value(decimal(n)) == n,
        forall|i: int| 0 <= i < decimal(n).len() ==> !is_separator(#[trigger] decimal(n)[i]),
    decreases n,
{
    let last = digit_char((n % 10) as int);
    assert(digit_value(last) == n % 10);
    if n >= 10 {
        lemma_decimal_denotes(n / 10);
        assert(decimal(n).drop_last() =~= decimal(n / 10));
        assert(decimal(n).last() == last);
    } else {
        assert(decimal(n).drop_last() =~= Seq::<char>::empty());
        assert(digits_value(Seq::<char>::empty()) == 0);
        assert(decimal(n).last() == last);
    }
}

/// A text without a separator is one token.
pub proof fn lemma_token_without_separator(s: Seq<char>)
    requires
        forall|i: int| 0 <= i < s.len() ==> !is_separator(#[trigger] s[i]),
    ensures
        token_len(s) == s.len(),
    decreases s.len(),
{
    if s.len() > 0 {
        lemma_token_without_separator(s.skip(1));
    }
}

/// The mention of a user is read back as that user, and as nobody else.
pub proof fn lemma_mention_names_its_user(id: u64)
    requires
        id > 0,
    ensures
        token_user_id(mention(id)) == Some(id),
        user_ids(mention(id)) == seq![id],
{
    reveal_strlit("<@");
    reveal_strlit(">");
    let digits = decimal(id as nat);
    let token = mention(id);
    lemma_decimal_denotes(id as nat);
    assert(token.len() == digits.len() + 3);
    assert(token[0] == '<' && token[1] == '@' && token.last() == '>');
    assert(token[2] == digits[0]);
    assert(digit_value(digits[0]) >= 0);
    assert(token.subrange(digits_start(token), digits_end(token)) =~= digits);
    assert forall|i: int| 0 <= i < token.len() implies !is_separator(#[trigger] token[i]) by {
        if 2 <= i < token.len() - 1 {
            assert(token[i] == digits[i - 2]);
        }
    }
    lemma_token_without_separator(token);
    assert(token.take(token.len() as int) =~= token);
    assert(token.skip(token.len() as int) =~= Seq::<char>::empty());
    assert(user_ids(Seq::<char>::empty()) =~= Seq::<u64>::empty());
    assert(seq![id] + Seq::<u64>::empty() =~= seq![id]);
}

/// A comma, a space and the mention of a user are read as that user.
proof fn lemma_next_mention_names_its_user(id: u64)
    requires
        id > 0,
    ensures
        (", "@ + mention(id)).len() > 0,
        is_separator((", "@ + mention(id))[0]),
        user_ids(", "@ + mention(id)) == seq![id],
{
    reveal_strlit(", ");
    let tail = ", "@ + mention(id);
    lemma_mention_names_its_user(id);
    assert(tail[0] == ',' && tail[1] == ' ');
    assert(tail.skip(1)[0] == ' ');
    assert(tail.skip(1).skip(1) =~= mention(id));
    assert(user_ids(tail) == user_ids(tail.skip(1)));
    assert(user_ids(tail.skip(1)) == user_ids(tail.skip(1).skip(1)));
}

/// The token at the front of a text ends where the text ends or a separator
/// follows, whatever comes after that.
proof fn lemma_token_len_before_separator(a: Seq<char>, b: Seq<char>)
    requires
        b.len() > 0,
        is_separator(b[0]),
    ensures
        token_len(a + b) == token_len(a),
    decreases a.len(),
{
    if a.len() == 0 {
        assert(a + b =~= b);
    } else if !is_separator(a[0]) {
        assert((a + b).skip(1) =~= a.skip(1) + b);
        lemma_token_len_before_separator(a.skip(1), b);
    }
}

/// What is read out of two texts put together, where the second starts with
/// a separator: what is read out of the first, then what is read out of the
/// second.
pub proof fn lemma_user_ids_of_parts(a: Seq<char>, b: Seq<char>)
    requires
        b.len() > 0,
        is_separator(b[0]),
    ensures
        user_ids(a + b) == user_ids(a) + user_ids(b),
    decreases a.len(),
{
    if a.len() == 0 {
        assert(a + b =~= b);
        assert(user_ids(a) + user_ids(b) =~= user_ids(b));
    } else if is_separator(a[0]) {
        assert((a + b).skip(1) =~= a.skip(1) + b);
        lemma_user_ids_of_parts(a.skip(1), b);
    } else {
        let n = token_len(a) as int;
        lemma_token_len_bound(a);
        lemma_token_len_before_separator(a, b);
        assert((a + b).take(n) =~= a.take(n));
        assert((a + b).skip(n) =~= a.skip(n) + b);
        lemma_user_ids_of_parts(a.skip(n), b);
        let rest = user_ids(a.skip(n));
        match token_user_id(a.take(n)) {
            Some(id) => {
                assert(seq![id] + (rest + user_ids(b)) =~= (seq![id] + rest) + user_ids(b));
            },
            None => {},
        }
    }
}

/// A list of users that was written as mentions is read back as it was,
/// user by user and in the same order.
pub proof fn lemma_mention_list_reads_back(ids: Seq<u64>)
    requires
        forall|i: int| 0 <= i < ids.len() ==> #[trigger] ids[i] > 0,
    ensures
        user_ids(mention_list(ids)) == ids,
    decreases ids.len(),
{
    if ids.len() == 0 {
        assert(mention_list(ids) =~= Seq::<char>::empty());
        assert(user_ids(mention_list(ids)) =~= ids);
    } else if ids.len() == 1 {
        lemma_mention_names_its_user(ids[0]);
        assert(mention_list(ids) == mention(ids[0]));
        assert(seq![ids[0]] =~= ids);
    } else {
        let front = ids.drop_last();
        let last = ids.last();
        let tail = ", "@ + mention(last);
        assert(mention_list(ids) =~= mention_list(front) + tail) by {
            assert(mentions(ids).drop_last() =~= mentions(front));
            assert(mentions(ids).last() == mention(last));
        }
        lemma_mention_list_reads_back(front);
        lemma_next_mention_names_its_user(last);
        lemma_user_ids_of_parts(mention_list(front), tail);
        assert(front + seq![last] =~= ids);
    }
}

fn is_separator_char(c: char) -> (b: bool)
    ensures
        b == is_separator(c),
{
    c == ' ' || c == '\t' || c == '\n' || c == '\r' || c == ','
}

fn digit_of_char(c: char) -> (d: Option<u64>)
    ensures
        d is Some <==> digit_value(c) >= 0,
        d matches Some(v) ==> v == digit_value(c),
{
    if c == '0' {
        Some(0)
    } else if c == '1' {
        Some(1)
    } else if c == '2' {
        Some(2)
    } else if c == '3' {
        Some(3)
    } else if c == '4' {
        Some(4)
    } else if c == '5' {
        Some(5)
    } else if c == '6' {
        Some(6)
    } else if c == '7' {
        Some(7)
    } else if c == '8' {
        Some(8)
    } else if c == '9' {
        Some(9)
    } else {
        None
    }
}

/// The end of the token that starts at `start`.
fn token_end(chars: &Vec<char>, start: usize) -> (end: usize)
    requires
        start <= chars.len(),
    ensures
        start <= end <= chars.len(),
        end - start == token_len(chars@.skip(start as int)),
{
    let mut end = start;
    while end < chars.len() && !is_separator_char(chars[end])
        invariant
            start <= end <= chars.len(),
            token_len(chars@.skip(start as int)) == (end - start) + token_len(
                chars@.skip(end as int),
            ),
        decreases chars.len() - end,
    {
        assert(chars@.skip(end as int).skip(1) =~= chars@.skip(end + 1));
        end += 1;
    }
    end
}

/// Reads the run of digits `chars[from..to]` as a user id.
fn parse_digits(chars: &Vec<char>, from: usize, to: usize) -> (id: Option<u64>)
    requires
        from <= to <= chars.len(),
    ensures
        id == digits_user_id(chars@.subrange(from as int, to as int)),
{
    let ghost d = chars@.subrange(from as int, to as int);
    if from == to {
        return None;
    }
    let mut value: u64 = 0;
    let mut i = from;
    while i < to
        invariant
            from <= i <= to <= chars.len(),
            d == chars@.subrange(from as int, to as int),
            all_digits(d.take(i - from)),
            value == digits_value(d.take(i - from)),
        decreases to - i,
    {
        let ghost k = i - from;
        proof {
            assert(d.take(k + 1).drop_last() =~= d.take(k));
            assert(d.take(k + 1).last() == chars@[i as int]);
        }
        let digit = match digit_of_char(chars[i]) {
            Some(digit) => digit,
            None => {
                assert(digit_value(d[k]) < 0);
                return None;
            },
        };
        proof {
            assert forall|j: int| 0 <= j < d.take(k + 1).len() implies digit_value(
                #[trigger] d.take(k + 1)[j],
            ) >= 0 by {
                if j < k {
                    assert(d.take(k + 1)[j] == d.take(k)[j]);
                }
            }
        }
        let next = match value.checked_mul(10) {
            Some(tens) => tens.checked_add(digit),
            None => None,
        };
        match next {
            Some(next) => {
                value = next;
            },
            None => {
                proof {
                    if all_digits(d) {
                        lemma_digits_value_prefix(d, k + 1);
                    }
                }
                return None;
            },
        }
        i += 1;
    }
    assert(d.take(to - from) =~= d);
    if value == 0 {
        None
    } else {
        Some(value)
    }
}

/// Reads the token `chars[start..end]` as a user reference.
fn parse_token(chars: &Vec<char>, start: usize, end: usize) -> (id: Option<u64>)
    requires
        start <= end <= chars.len(),
    ensures
        id == token_user_id(chars@.subrange(start as int, end as int)),
{
    let ghost token = chars@.subrange(start as int, end as int);
    let len = end - start;
    let bracketed = len >= 3 && chars[start] == '<' && chars[start + 1] == '@' && chars[end - 1]
        == '>';
    assert(bracketed == is_bracketed(token));
    let (from, to) = if bracketed {
        if len >= 4 && chars[start + 2] == '!' {
            (start + 3, end - 1)
        } else {
            (start + 2, end - 1)
        }
    } else {
        (start, end)
    };
    assert(token.subrange(digits_start(token), digits_end(token)) =~= chars@.subrange(
        from as int,
        to as int,
    ));
    parse_digits(chars, from, to)
}

/// Reads the users that the input names: the ids of the tokens that are user
/// references, in the order of the input. Tokens that are none are dropped.
pub fn user_ids_from(text: &str) -> (ids: Vec<u64>)
    ensures
        ids@ == user_ids(text@),
        forall|i: int| 0 <= i < ids.len() ==> ids[i] > 0,
{
    proof {
        assert forall|i: int| 0 <= i < user_ids(text@).len() implies user_ids(text@)[i] > 0 by {
            lemma_user_ids_are_positive(text@, i);
        }
    }
    let chars = chars_of(text);
    let mut ids: Vec<u64> = Vec::new();
    let mut i: usize = 0;
    assert(chars@.skip(0) =~= chars@);
    while i < chars.len()
        invariant
            i <= chars.len(),
            user_ids(chars@) == ids@ + user_ids(chars@.skip(i as int)),
        decreases chars.len() - i,
    {
        let ghost rest = chars@.skip(i as int);
        if is_separator_char(chars[i]) {
            assert(rest.skip(1) =~= chars@.skip(i + 1));
            i += 1;
        } else {
            let end = token_end(&chars, i);
            proof {
                lemma_token_len_bound(rest);
                assert(rest.take(end - i) =~= chars@.subrange(i as int, end as int));
                assert(rest.skip(end - i) =~= chars@.skip(end as int));
            }
            let ghost before = ids@;
            match parse_token(&chars, i, end) {
                Some(id) => {
                    ids.push(id);
                    assert(before + (seq![id] + user_ids(chars@.skip(end as int))) =~= ids@
                        + user_ids(chars@.skip(end as int)));
                },
                None => {},
            }
            i = end;
        }
    }
    assert(chars@.skip(chars.len() as int) =~= Seq::<char>::empty());
    assert(ids@ + Seq::<u64>::empty() =~= ids@);
    ids
}

/// Writes the mention of each user.
pub fn user_ids_to_mentions(user_ids: Vec<u64>) -> (texts: Vec<String>)
    ensures
        text_views(texts@) == mentions(user_ids@),
{
    write_mentions(&user_ids)
}

/// Writes the users as mentions, separated by a comma and a space.
pub fn format_user_ids_list(user_ids: Vec<u64>) -> (text: String)
    ensures
        text@ == mention_list(user_ids@),
{
    write_mention_list(&user_ids)
}

/// Writes the mention of each user of a borrowed list.
pub fn write_mentions(user_ids: &Vec<u64>) -> (texts: Vec<String>)
    ensures
        text_views(texts@) == mentions(user_ids@),
{
    let mut texts: Vec<String> = Vec::new();
    let mut i: usize = 0;
    while i < user_ids.len()
        invariant
            i <= user_ids.len(),
            texts.len() == i,
            text_views(texts@) == mentions(user_ids@.take(i as int)),
        decreases user_ids.len() - i,
    {
        let mut text = String::new();
        push_text(&mut text, "<@");
        push_decimal(&mut text, user_ids[i]);
        push_text(&mut text, ">");
        assert(text@ =~= mention(user_ids@[i as int]));
        let ghost before = texts@;
        texts.push(text);
        i += 1;
        proof {
            let goal = mentions(user_ids@.take(i as int));
            assert forall|k: int| 0 <= k < goal.len() implies text_views(texts@)[k]
                == goal[k] by {
                if k < i - 1 {
                    assert(text_views(before)[k] == mentions(user_ids@.take(i - 1))[k]);
                    assert(texts@[k] == before[k]);
                }
            }
            assert(text_views(texts@) =~= goal);
        }
    }
    assert(user_ids@.take(user_ids.len() as int) =~= user_ids@);
    texts
}

/// Writes the users of a borrowed list as mentions, separated by a comma and
/// a space.
pub fn write_mention_list(user_ids: &Vec<u64>) -> (text: String)
    ensures
        text@ == mention_list(user_ids@),
{
    let texts = write_mentions(user_ids);
    join(&texts, ", ")
}

} // verus!
