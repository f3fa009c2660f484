//! What configured texts and values mean, in terms of their characters.
use vstd::arithmetic::power;
use vstd::prelude::*;

use crate::json;
use crate::laws;
use crate::policy;
use crate::policy::RetryLimit;
use crate::text;

verus! {

/// Every character of `s` is whitespace.
pub open spec fn blank(s: Seq<char>) -> bool {
    forall|i: int| 0 <= i < s.len() ==> text::is_white_space(#[trigger] s[i])
}

/// `s` neither begins nor ends with whitespace.
pub open spec fn bare(s: Seq<char>) -> bool {
    s.len() > 0 ==> !text::is_white_space(s[0]) && !text::is_white_space(s[s.len() - 1])
}

/// `c` is one of the ten decimal digits.
pub open spec fn decimal_digit(c: char) -> bool {
    0x30 <= c as nat <= 0x39
}

/// `s` is one or more decimal digits.
pub open spec fn numeral(s: Seq<char>) -> bool {
    s.len() > 0 && forall|i: int| 0 <= i < s.len() ==> decimal_digit(#[trigger] s[i])
}

/// The number that a numeral names: each digit counts ten times as much as the one
/// behind it.
pub open spec fn place_value(s: Seq<char>) -> int
    decreases s.len(),
{
    if s.len() == 0 {
        0
    } else {
        (s[0] as nat - 0x30) * power::pow(10, (s.len() - 1) as nat) + place_value(s.drop_first())
    }
}

/// `s` is the word `infinite`, each letter small or capital.
pub open spec fn infinite_word(s: Seq<char>) -> bool {
    s.len() == 8 && forall|i: int|
        0 <= i < 8 ==> #[trigger] s[i] == "infinite"@[i] || s[i] == "INFINITE"@[i]
}

/// `s` is an optional sign and a numeral.
pub open spec fn signed_numeral(s: Seq<char>) -> bool {
    s.len() > 0 && (numeral(s) || ((s[0] == '+' || s[0] == '-') && numeral(s.drop_first())))
}

/// The whitespace characters are those to which Unicode gives the property
/// `White_Space`, and no others.
pub proof fn white_space_characters(c: char)
    ensures
        text::is_white_space(c) <==> {
            ||| c == '\t' || c == '\n' || c == '\u{b}' || c == '\u{c}' || c == '\r' || c == ' '
            ||| c == '\u{85}' || c == '\u{a0}' || c == '\u{1680}' || c == '\u{2000}'
            ||| c == '\u{2001}' || c == '\u{2002}' || c == '\u{2003}' || c == '\u{2004}'
            ||| c == '\u{2005}' || c == '\u{2006}' || c == '\u{2007}' || c == '\u{2008}'
            ||| c == '\u{2009}' || c == '\u{200a}' || c == '\u{2028}' || c == '\u{2029}'
            ||| c == '\u{202f}' || c == '\u{205f}' || c == '\u{3000}'
        },
{
}

proof fn front_is_blank(s: Seq<char>) -> (lead: Seq<char>)
    ensures
        blank(lead),
        s == lead + text::without_leading_space(s),
        ({
            let rest = text::without_leading_space(s);
            rest.len() > 0 ==> !text::is_white_space(rest[0])
        }),
    decreases s.len(),
{
    if s.len() > 0 && text::is_white_space(s.first()) {
        let rest = front_is_blank(s.drop_first());
        let lead = seq![s.first()] + rest;
        assert(s =~= seq![s.first()] + s.drop_first());
        assert(s =~= lead + text::without_leading_space(s));
        lead
    } else {
        let lead = Seq::<char>::empty();
        assert(s =~= lead + s);
        lead
    }
}

proof fn back_is_blank(s: Seq<char>) -> (trail: Seq<char>)
    ensures
        blank(trail),
        s == text::without_trailing_space(s) + trail,
        ({
            let rest = text::without_trailing_space(s);
            rest.len() > 0 ==> !text::is_white_space(rest[rest.len() - 1])
        }),
    decreases s.len(),
{
    if s.len() > 0 && text::is_white_space(s.last()) {
        let rest = back_is_blank(s.drop_last());
        let trail = rest.push(s.last());
        assert(s =~= s.drop_last().push(s.last()));
        assert(s =~= text::without_trailing_space(s) + trail);
        trail
    } else {
        let trail = Seq::<char>::empty();
        assert(s =~= s + trail);
        trail
    }
}

/// Every text is its trimmed form with whitespace around it, and the trimmed form has
/// none at its ends.
pub proof fn every_text_has_a_word(raw: Seq<char>)
    ensures
        bare(text::trimmed(raw)),
        exists|lead: Seq<char>, trail: Seq<char>|
            blank(lead) && blank(trail) && raw == #[trigger] (lead + text::trimmed(raw) + trail),
{
    let lead = front_is_blank(raw);
    let rest = text::without_leading_space(raw);
    let trail = back_is_blank(rest);
    let word = text::trimmed(raw);
    assert(rest == word + trail);
    if word.len() > 0 {
        assert(rest[0] == word[0]);
    }
    assert(raw =~= lead + word + trail);
}

/// Of a text without whitespace at its ends, trimming leaves all, whatever whitespace
/// is put around it.
pub proof fn words_are_found(lead: Seq<char>, word: Seq<char>, trail: Seq<char>)
    requires
        blank(lead),
        blank(trail),
        bare(word),
    ensures
        text::trimmed(lead + word + trail) == word,
{
    text::added_space_is_trimmed(lead, word, trail);
}

proof fn appended_digit(s: Seq<char>, c: char)
    ensures
        place_value(s.push(c)) == place_value(s) * 10 + (c as nat - 0x30),
    decreases s.len(),
{
    let all = s.push(c);
    if s.len() == 0 {
        power::lemma_pow0(10);
        assert(all.drop_first() =~= s);
        let d = c as nat - 0x30;
        assert(d * 1 == d);
    } else {
        assert(all.drop_first() =~= s.drop_first().push(c));
        appended_digit(s.drop_first(), c);
        let (d, rest) = (s[0] as nat - 0x30, place_value(s.drop_first()));
        let e = (s.len() - 1) as nat;
        reveal(power::pow);
        assert(power::pow(10, e + 1) == 10 * power::pow(10, e));
        let p = power::pow(10, e);
        assert(d * (10 * p) + rest * 10 == (d * p + rest) * 10) by (nonlinear_arith);
    }
}

/// A string of digits is read as the number that it names.
pub proof fn numerals_are_read_by_place(digits: Seq<char>)
    requires
        numeral(digits),
    ensures
        place_value(digits) >= 0,
        text::plain_number(digits) == Some(place_value(digits) as nat),
    decreases digits.len(),
{
    assert forall|i: int| 0 <= i < digits.len() implies text::is_digit(#[trigger] digits[i]) by {
        assert(decimal_digit(digits[i]));
    }
    let (front, c) = (digits.drop_last(), digits.last());
    assert(digits =~= front.push(c));
    assert(decimal_digit(digits[digits.len() - 1]));
    appended_digit(front, c);
    if front.len() > 0 {
        assert forall|i: int| 0 <= i < front.len() implies decimal_digit(#[trigger] front[i]) by {
            assert(decimal_digit(digits[i]));
        }
        numerals_are_read_by_place(front);
    }
    assert(text::digits_value(front) == place_value(front));
    assert(text::digits_value(digits) == text::digits_value(front) * 10 + (c as nat - 0x30));
}

proof fn other_texts_are_no_numbers(s: Seq<char>)
    requires
        !signed_numeral(s),
    ensures
        text::signed_number(s) is None,
        text::unsigned_number(s) is None,
{
    let rest = s.drop_first();
    if text::plain_number(s) is Some {
        assert(numeral(s)) by {
            assert forall|i: int| 0 <= i < s.len() implies decimal_digit(#[trigger] s[i]) by {
                assert(text::is_digit(s[i]));
            }
        }
    }
    if s.len() > 0 && text::plain_number(rest) is Some {
        assert(numeral(rest)) by {
            assert forall|i: int| 0 <= i < rest.len() implies decimal_digit(#[trigger] rest[i]) by {
                assert(text::is_digit(rest[i]));
            }
        }
    }
}

proof fn two_forms_of_a_letter(c: char, low: char, up: char)
    requires
        'a' as nat <= low as nat <= 'z' as nat,
        up as nat + 32 == low as nat,
        text::ascii_lower(c) == text::ascii_lower(low),
    ensures
        c == low || c == up,
{
}

proof fn word_is_matched(s: Seq<char>)
    ensures
        text::same_ignoring_ascii_case(s, "infinite"@) <==> infinite_word(s),
{
    reveal_strlit("infinite");
    reveal_strlit("INFINITE");
    let (low, up) = ("infinite"@, "INFINITE"@);
    assert forall|i: int| 0 <= i < 8 implies #[trigger] up[i] as nat + 32 == low[i] as nat
        && 'a' as nat <= low[i] as nat <= 'z' as nat by {
        assert(i == 0 || i == 1 || i == 2 || i == 3 || i == 4 || i == 5 || i == 6 || i == 7);
    }
    if text::same_ignoring_ascii_case(s, low) {
        assert forall|i: int| 0 <= i < 8 implies #[trigger] s[i] == low[i] || s[i] == up[i] by {
            assert(text::ascii_lower(s[i]) == text::ascii_lower(low[i]));
            assert(up[i] as nat + 32 == low[i] as nat);
            two_forms_of_a_letter(s[i], low[i], up[i]);
        }
    }
    if infinite_word(s) {
        assert forall|i: int| 0 <= i < s.len() implies text::ascii_lower(#[trigger] s[i])
            == text::ascii_lower(low[i]) by {
            assert(up[i] as nat + 32 == low[i] as nat);
        }
    }
}

/// The word `infinite`, in small letters, capitals or both, and with whitespace around
/// it or not, means no limit.
pub proof fn the_word_means_no_limit(lead: Seq<char>, word: Seq<char>, trail: Seq<char>)
    requires
        blank(lead),
        blank(trail),
        infinite_word(word),
    ensures
        policy::retries_of(lead + word + trail) == RetryLimit::Infinite,
        policy::interval_seconds_of(lead + word + trail) is None,
{
    reveal_strlit("infinite");
    reveal_strlit("INFINITE");
    assert(word[0] == 'i' || word[0] == 'I');
    assert(word[7] == 'e' || word[7] == 'E');
    words_are_found(lead, word, trail);
    word_is_matched(word);
    assert(!numeral(word)) by {
        assert(!decimal_digit(word[0]));
    }
    other_texts_are_no_numbers(word);
}

/// A numeral of any length, with or without `+` before it and whitespace around it,
/// means the limit that it names, or the largest one if it names a number beyond
/// `u32`; and it means that many seconds, or none if the number is beyond `u64`.
pub proof fn numerals_mean_what_they_name(
    lead: Seq<char>,
    plus: bool,
    digits: Seq<char>,
    trail: Seq<char>,
)
    requires
        blank(lead),
        blank(trail),
        numeral(digits),
    ensures
        ({
            let raw = lead + (if plus {
                seq!['+'] + digits
            } else {
                digits
            }) + trail;
            let n = place_value(digits);
            &&& 0 <= n <= u32::MAX ==> policy::retries_of(raw) == RetryLimit::Finite(n as u32)
            &&& n > u32::MAX ==> policy::retries_of(raw) == RetryLimit::Finite(u32::MAX)
            &&& 0 <= n <= u64::MAX ==> policy::interval_seconds_of(raw) == Some(n as u64)
            &&& n > u64::MAX ==> policy::interval_seconds_of(raw) is None
            &&& n >= 0
        }),
{
    let word = if plus {
        seq!['+'] + digits
    } else {
        digits
    };
    let n = place_value(digits);
    numerals_are_read_by_place(digits);
    assert(decimal_digit(digits[0]));
    assert(plus ==> word.drop_first() =~= digits);
    assert(text::unsigned_number(word) == Some(n as nat));
    assert(text::signed_number(word) == Some(n));
    text::numbers_are_trimmed(word);
    text::added_space_is_trimmed(lead, word, trail);
    laws::integers_are_limits(lead + word + trail, n);
}

/// A numeral with `-` before it means no limit if it names one, the limit zero if it
/// names zero, and three retries if it names anything else; it never means a number of
/// seconds.
pub proof fn negative_numerals(lead: Seq<char>, digits: Seq<char>, trail: Seq<char>)
    requires
        blank(lead),
        blank(trail),
        numeral(digits),
    ensures
        ({
            let raw = lead + (seq!['-'] + digits) + trail;
            let n = place_value(digits);
            &&& n == 1 ==> policy::retries_of(raw) == RetryLimit::Infinite
            &&& n == 0 ==> policy::retries_of(raw) == RetryLimit::Finite(0)
            &&& n != 0 && n != 1 ==> policy::retries_of(raw) == RetryLimit::Finite(3)
            &&& policy::interval_seconds_of(raw) is None
        }),
{
    let word = seq!['-'] + digits;
    let n = place_value(digits);
    numerals_are_read_by_place(digits);
    assert(word.drop_first() =~= digits);
    assert(word[0] == '-');
    assert(text::signed_number(word) == Some(-n));
    assert(!text::is_digit(word[0]));
    assert(text::unsigned_number(word) is None);
    text::numbers_are_trimmed(word);
    text::added_space_is_trimmed(lead, word, trail);
    laws::integers_are_limits(lead + word + trail, -n);
}

/// A text that is neither the word `infinite` nor an optional sign and digits means
/// three retries, and no number of seconds.
pub proof fn other_texts_mean_nothing(lead: Seq<char>, word: Seq<char>, trail: Seq<char>)
    requires
        blank(lead),
        blank(trail),
        bare(word),
        !infinite_word(word),
        !signed_numeral(word),
    ensures
        policy::retries_of(lead + word + trail) == RetryLimit::Finite(3),
        policy::interval_seconds_of(lead + word + trail) is None,
{
    words_are_found(lead, word, trail);
    word_is_matched(word);
    other_texts_are_no_numbers(word);
}

/// A value configured as a string means what its text means, and so does a number with
/// a fraction, read as it prints: the limit that the text stands for, and the seconds
/// that it stands for, or five.
pub proof fn configured_texts(s: Seq<char>, value: json::JsonView)
    requires
        value == json::JsonView::Text(s) || value == json::JsonView::Fraction(s),
    ensures
        policy::config_text(Some(value)) == Some(s),
        policy::configured_retries(Some(value)) == policy::retries_of(s),
        policy::interval_seconds_of(s) matches Some(secs) ==> policy::configured_seconds(
            Some(value),
        ) == secs,
        policy::interval_seconds_of(s) is None ==> policy::configured_seconds(Some(value)) == 5,
{
}

/// The word `infinite`, configured as a string in any case, configures no limit.
pub proof fn configured_infinite(lead: Seq<char>, word: Seq<char>, trail: Seq<char>)
    requires
        blank(lead),
        blank(trail),
        infinite_word(word),
    ensures
        policy::configured_retries(Some(json::JsonView::Text(lead + word + trail)))
            == RetryLimit::Infinite,
{
    the_word_means_no_limit(lead, word, trail);
    configured_texts(lead + word + trail, json::JsonView::Text(lead + word + trail));
}

/// No value, and a value that is neither a string nor a number, mean three retries five
/// seconds apart.
pub proof fn configured_nothing(value: Option<json::JsonView>)
    requires
        value is None || value == Some(json::JsonView::Other),
    ensures
        policy::config_text(value) is None,
        policy::configured_retries(value) == RetryLimit::Finite(3),
        policy::configured_seconds(value) == 5,
{
}

/// An integer prints as a numeral that names it, without leading zeros, and with `-`
/// before it if it is negative.
pub proof fn integers_print_as_numerals(n: int)
    ensures
        policy::config_text(Some(json::JsonView::Integer(n))) == Some(text::integer_text(n)),
        n >= 0 ==> {
            let shown = text::integer_text(n);
            &&& numeral(shown)
            &&& place_value(shown) == n
            &&& shown.len() > 1 ==> shown[0] != '0'
        },
        n < 0 ==> text::integer_text(n) == seq!['-'] + text::integer_text(-n),
{
    if n >= 0 {
        text::decimal_text_spells(n as nat);
        let shown = text::decimal_text(n as nat);
        assert forall|i: int| 0 <= i < shown.len() implies decimal_digit(#[trigger] shown[i]) by {
            assert(text::is_digit(shown[i]));
        }
        numerals_are_read_by_place(shown);
        no_leading_zeros(n as nat);
    }
}

proof fn no_leading_zeros(n: nat)
    ensures
        text::decimal_text(n).len() > 0,
        n > 0 ==> text::decimal_text(n)[0] != '0',
        n < 10 ==> text::decimal_text(n).len() == 1,
    decreases n,
{
    if n >= 10 {
        no_leading_zeros(n / 10);
        assert(text::decimal_text(n)[0] == text::decimal_text(n / 10)[0]);
    }
}

} // verus!
