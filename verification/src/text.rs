//! Text building blocks: decimal numbers, joined lists, appended pieces.

use vstd::prelude::*;
use vstd::std_specs::iter::IteratorSpec;
use vstd::string::StringExecFns;

verus! {

/// The character of the decimal digit `d`.
pub open spec fn digit_char(d: int) -> char {
    if d == 0 {
        '0'
    } else if d == 1 {
        '1'
    } else if d == 2 {
        '2'
    } else if d == 3 {
        '3'
    } else if d == 4 {
        '4'
    } else if d == 5 {
        '5'
    } else if d == 6 {
        '6'
    } else if d == 7 {
        '7'
    } else if d == 8 {
        '8'
    } else {
        '9'
    }
}

/// The decimal numeral of `n`, without sign or leading zeros.
pub open spec fn decimal(n: nat) -> Seq<char>
    decreases n,
{
    if n < 10 {
        seq![digit_char(n as int)]
    } else {
        decimal(n / 10).push(digit_char((n % 10) as int))
    }
}

/// The decimal numeral of `i`, with a leading `-` for negative numbers.
pub open spec fn signed_decimal(i: int) -> Seq<char> {
    if i < 0 {
        seq!['-'] + decimal((-i) as nat)
    } else {
        decimal(i as nat)
    }
}

/// The characters of each text of `texts`.
pub open spec fn text_views(texts: Seq<String>) -> Seq<Seq<char>> {
    texts.map_values(|text: String| text@)
}

/// `parts` with `separator` between each two neighbours.
pub open spec fn joined(parts: Seq<Seq<char>>, separator: Seq<char>) -> Seq<char>
    decreases parts.len(),
{
    if parts.len() == 0 {
        Seq::empty()
    } else if parts.len() == 1 {
        parts[0]
    } else {
        joined(parts.drop_last(), separator) + separator + parts.last()
    }
}

/// Whether a carriage return and a line feed stand at the front of `s`.
pub open spec fn breaks_at_front(s: Seq<char>) -> bool {
    s.len() >= 2 && s[0] == '\r' && s[1] == '\n'
}

/// The length of the page at the front of `s`: the number of characters
/// before the first carriage return that a line feed follows.
pub open spec fn page_len(s: Seq<char>) -> nat
    decreases s.len(),
{
    if s.len() == 0 || breaks_at_front(s) {
        0
    } else {
        1 + page_len(s.skip(1))
    }
}

/// The pages of `s`: what stands before, between and behind the pairs of a
/// carriage return and a line feed, each pair taken at the first place where
/// it can be. A text without such a pair is one page.
pub open spec fn pages_of(s: Seq<char>) -> Seq<Seq<char>>
    decreases s.len(),
{
    let n = page_len(s) as int;
    if n >= s.len() {
        seq![s]
    } else {
        proof {
            lemma_page_len_bound(s);
        }
        seq![s.take(n)] + pages_of(s.skip(n + 2))
    }
}

/// A page is no longer than the text it starts, and where it is shorter a
/// carriage return and a line feed follow it.
pub proof fn lemma_page_len_bound(s: Seq<char>)
    ensures
        page_len(s) <= s.len(),
        page_len(s) < s.len() ==> breaks_at_front(s.skip(page_len(s) as int)),
    decreases s.len(),
{
    if s.len() == 0 || breaks_at_front(s) {
        assert(s.skip(0) =~= s);
    } else {
        lemma_page_len_bound(s.skip(1));
        assert(s.skip(1).skip(page_len(s.skip(1)) as int) =~= s.skip(page_len(s) as int));
    }
}

/// Appends one character to `out`. Calls `String::push`, which std documents
/// as appending the given char to the end of the string.
#[verifier::external_body]
pub(crate) fn push_char(out: &mut String, c: char)
    ensures
        final(out)@ == old(out)@.push(c),
{
    out.push(c)
}

fn digit_of(d: u64) -> (c: char)
    requires
        d < 10,
    ensures
        c == digit_char(d as int),
{
    if d == 0 {
        '0'
    } else if d == 1 {
        '1'
    } else if d == 2 {
        '2'
    } else if d == 3 {
        '3'
    } else if d == 4 {
        '4'
    } else if d == 5 {
        '5'
    } else if d == 6 {
        '6'
    } else if d == 7 {
        '7'
    } else if d == 8 {
        '8'
    } else {
        '9'
    }
}

/// Appends the decimal numeral of `n` to `out`.
pub fn push_decimal(out: &mut String, n: u64)
    ensures
        final(out)@ == old(out)@ + decimal(n as nat),
    decreases n,
{
    if n >= 10 {
        push_decimal(out, n / 10);
    }
    push_char(out, digit_of(n % 10));
}

/// Appends the decimal numeral of `i` to `out`, with `-` for negative numbers.
pub fn push_signed_decimal(out: &mut String, i: i64)
    ensures
        final(out)@ == old(out)@ + signed_decimal(i as int),
{
    if i < 0 {
        push_char(out, '-');
        let magnitude: u64 = (-(i + 1)) as u64 + 1;
        push_decimal(out, magnitude);
    } else {
        push_decimal(out, i as u64);
    }
}

/// Appends `piece` to `out`.
pub fn push_text(out: &mut String, piece: &str)
    ensures
        final(out)@ == old(out)@ + piece@,
{
    out.append(piece);
}

/// The characters of `text`, one by one.
pub fn chars_of(text: &str) -> (chars: Vec<char>)
    ensures
        chars@ == text@,
{
    broadcast use vstd::string::axiom_spec_iter;
    broadcast use vstd::string::next_postcondition;

    let mut rest = text.chars();
    let mut chars: Vec<char> = Vec::new();
    assert(chars@ + rest.remaining() =~= text@);
    loop
        invariant
            chars@ + rest.remaining() == text@,
            rest.decrease() is Some,
        decreases rest.decrease()->0,
    {
        let ghost before = rest.remaining();
        match rest.next() {
            Some(c) => {
                chars.push(c);
                assert(chars@ + rest.remaining() =~= text@) by {
                    assert(before =~= seq![c] + rest.remaining());
                }
            },
            None => {
                assert(before.len() == 0);
                assert(chars@ =~= text@);
                return chars;
            },
        }
    }
}

/// Cuts `text` into pages at each carriage return that a line feed follows.
pub fn split_pages(text: &str) -> (pages: Vec<String>)
    ensures
        text_views(pages@) == pages_of(text@),
{
    let chars = chars_of(text);
    let mut pages: Vec<String> = Vec::new();
    let mut page = String::new();
    let mut start: usize = 0;
    let mut i: usize = 0;
    assert(chars@.skip(0) =~= chars@);
    assert(text_views(pages@) + pages_of(chars@) =~= pages_of(chars@));
    while i < chars.len()
        invariant
            start <= i <= chars.len(),
            pages_of(chars@) == text_views(pages@) + pages_of(chars@.skip(start as int)),
            page@ == chars@.subrange(start as int, i as int),
            page_len(chars@.skip(start as int)) == (i - start) + page_len(chars@.skip(i as int)),
        decreases chars.len() - i,
    {
        let ghost rest = chars@.skip(start as int);
        let ghost here = chars@.skip(i as int);
        if chars[i] == '\r' && i + 1 < chars.len() && chars[i + 1] == '\n' {
            proof {
                assert(breaks_at_front(here));
                assert(page_len(rest) == i - start);
                assert(rest.take(i - start) =~= page@);
                assert(rest.skip(i - start + 2) =~= chars@.skip(i + 2));
                let before = text_views(pages@);
                assert(text_views(pages@.push(page)) =~= before.push(page@));
                assert(before + (seq![page@] + pages_of(chars@.skip(i + 2))) =~= before.push(
                    page@,
                ) + pages_of(chars@.skip(i + 2)));
            }
            pages.push(page);
            page = String::new();
            i += 2;
            start = i;
            assert(page@ =~= chars@.subrange(start as int, i as int));
        } else {
            proof {
                assert(!breaks_at_front(here));
                assert(here.skip(1) =~= chars@.skip(i + 1));
            }
            push_char(&mut page, chars[i]);
            i += 1;
            assert(page@ =~= chars@.subrange(start as int, i as int));
        }
    }
    proof {
        let rest = chars@.skip(start as int);
        assert(chars@.skip(chars.len() as int).len() == 0);
        assert(page_len(rest) == rest.len());
        assert(rest =~= page@);
        let before = text_views(pages@);
        assert(text_views(pages@.push(page)) =~= before.push(page@));
        assert(before + seq![page@] =~= before.push(page@));
    }
    pages.push(page);
    pages
}

/// Writes `parts` one after the other, with `separator` between each two
/// neighbours.
pub fn join(parts: &Vec<String>, separator: &str) -> (text: String)
    ensures
        text@ == joined(text_views(parts@), separator@),
{
    let mut text = String::new();
    let mut i: usize = 0;
    while i < parts.len()
        invariant
            i <= parts.len(),
            text@ == joined(text_views(parts@).take(i as int), separator@),
        decreases parts.len() - i,
    {
        proof {
            let longer = text_views(parts@).take(i + 1);
            assert(longer.drop_last() =~= text_views(parts@).take(i as int));
            assert(longer.last() == parts@[i as int]@);
        }
        if i > 0 {
            push_text(&mut text, separator);
        }
        push_text(&mut text, parts[i].as_str());
        i += 1;
    }
    assert(text_views(parts@).take(parts.len() as int) =~= text_views(parts@));
    text
}

} // verus!
