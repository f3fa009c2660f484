//! Text as sequences of characters: what surrounding whitespace, ASCII case,
//! decimal digits and substrings mean, and the string functions of std that the
//! retry policy and the retry operation call.
use vstd::prelude::*;

verus! {

/// The characters with the Unicode property `White_Space`.
pub open spec fn is_white_space(c: char) -> bool {
    ||| 0x09 <= c as nat <= 0x0d
    ||| c as nat == 0x20
    ||| c as nat == 0x85
    ||| c as nat == 0xa0
    ||| c as nat == 0x1680
    ||| 0x2000 <= c as nat <= 0x200a
    ||| c as nat == 0x2028
    ||| c as nat == 0x2029
    ||| c as nat == 0x202f
    ||| c as nat == 0x205f
    ||| c as nat == 0x3000
}

/// `s` without its leading whitespace.
pub open spec fn without_leading_space(s: Seq<char>) -> Seq<char>
    decreases s.len(),
{
    if s.len() > 0 && is_white_space(s.first()) {
        without_leading_space(s.drop_first())
    } else {
        s
    }
}

/// `s` without its trailing whitespace.
pub open spec fn without_trailing_space(s: Seq<char>) -> Seq<char>
    decreases s.len(),
{
    if s.len() > 0 && is_white_space(s.last()) {
        without_trailing_space(s.drop_last())
    } else {
        s
    }
}

/// `s` without whitespace at either end.
pub open spec fn trimmed(s: Seq<char>) -> Seq<char> {
    without_trailing_space(without_leading_space(s))
}

/// The lower-case form of an ASCII letter; any other character itself.
pub open spec fn ascii_lower(c: char) -> char {
    if 'A' as nat <= c as nat <= 'Z' as nat {
        (c as nat + 32) as char
    } else {
        c
    }
}

/// `a` and `b` differ in the case of ASCII letters at most.
pub open spec fn same_ignoring_ascii_case(a: Seq<char>, b: Seq<char>) -> bool {
    &&& a.len() == b.len()
    &&& forall|i: int| 0 <= i < a.len() ==> ascii_lower(#[trigger] a[i]) == ascii_lower(b[i])
}

/// `needle` occurs in `haystack` as a run of adjacent characters.
pub open spec fn contains_text(haystack: Seq<char>, needle: Seq<char>) -> bool {
    exists|i: int|
        0 <= i <= haystack.len() - needle.len() && #[trigger] haystack.subrange(
            i,
            i + needle.len(),
        ) == needle
}

pub open spec fn is_digit(c: char) -> bool {
    '0' as nat <= c as nat <= '9' as nat
}

/// The number that a string of digits spells in base ten.
pub open spec fn digits_value(s: Seq<char>) -> nat
    decreases s.len(),
{
    if s.len() == 0 {
        0
    } else {
        digits_value(s.drop_last()) * 10 + (s.last() as nat - '0' as nat) as nat
    }
}

/// The number spelt by one or more digits and nothing else.
pub open spec fn plain_number(s: Seq<char>) -> Option<nat> {
    if s.len() > 0 && (forall|i: int| 0 <= i < s.len() ==> is_digit(#[trigger] s[i])) {
        Some(digits_value(s))
    } else {
        None
    }
}

/// The number spelt by an optional `+` and digits.
pub open spec fn unsigned_number(s: Seq<char>) -> Option<nat> {
    if s.len() > 0 && s.first() == '+' {
        plain_number(s.drop_first())
    } else {
        plain_number(s)
    }
}

/// The number spelt by an optional sign, `+` or `-`, and digits.
pub open spec fn signed_number(s: Seq<char>) -> Option<int> {
    if s.len() > 0 && s.first() == '-' {
        match plain_number(s.drop_first()) {
            Some(v) => Some(-(v as int)),
            None => None,
        }
    } else {
        match unsigned_number(s) {
            Some(v) => Some(v as int),
            None => None,
        }
    }
}

/// The digits of `n` in base ten, without leading zeros.
pub open spec fn decimal_text(n: nat) -> Seq<char>
    decreases n,
{
    if n < 10 {
        seq![('0' as nat + n) as char]
    } else {
        decimal_text(n / 10).push(('0' as nat + n % 10) as char)
    }
}

/// `i` in base ten, with a leading `-` when it is negative.
pub open spec fn integer_text(i: int) -> Seq<char> {
    if i < 0 {
        seq!['-'] + decimal_text((-i) as nat)
    } else {
        decimal_text(i as nat)
    }
}

/// The digits of `n` spell `n`.
pub proof fn decimal_text_spells(n: nat)
    ensures
        plain_number(decimal_text(n)) == Some(n),
    decreases n,
{
    let s = decimal_text(n);
    if n < 10 {
        assert(s.drop_last() =~= Seq::<char>::empty());
        assert(digits_value(s.drop_last()) == 0);
    } else {
        decimal_text_spells(n / 10);
        let front = decimal_text(n / 10);
        assert(s.drop_last() =~= front);
        assert forall|i: int| 0 <= i < s.len() implies is_digit(#[trigger] s[i]) by {
            if i < front.len() {
                assert(s[i] == front[i]);
            }
        }
    }
}

/// The text of an integer spells it.
pub proof fn integer_text_spells(i: int)
    ensures
        signed_number(integer_text(i)) == Some(i),
        i >= 0 ==> unsigned_number(integer_text(i)) == Some(i as nat),
        i < 0 ==> unsigned_number(integer_text(i)) is None,
{
    if i < 0 {
        let digits = decimal_text((-i) as nat);
        decimal_text_spells((-i) as nat);
        assert(integer_text(i).drop_first() =~= digits);
        assert(!is_digit(integer_text(i)[0]));
    } else {
        decimal_text_spells(i as nat);
        assert(is_digit(integer_text(i)[0]));
    }
}

/// Nothing is trimmed off the spelling of a number.
pub proof fn numbers_are_trimmed(s: Seq<char>)
    requires
        signed_number(s) is Some,
    ensures
        trimmed(s) == s,
{
    assert(!is_white_space(s.first()));
    let rest = s.drop_first();
    if s.first() == '-' || s.first() == '+' {
        assert(is_digit(rest[rest.len() - 1]));
        assert(s.last() == rest[rest.len() - 1]);
    } else {
        assert(is_digit(s[s.len() - 1]));
    }
}

/// Leading whitespace makes no difference to what is left after trimming it.
proof fn leading_space_is_dropped(lead: Seq<char>, s: Seq<char>)
    requires
        forall|i: int| 0 <= i < lead.len() ==> is_white_space(#[trigger] lead[i]),
    ensures
        without_leading_space(lead + s) == without_leading_space(s),
    decreases lead.len(),
{
    if lead.len() == 0 {
        assert(lead + s =~= s);
    } else {
        assert((lead + s).drop_first() =~= lead.drop_first() + s);
        assert(is_white_space(lead[0]));
        assert((lead + s).first() == lead[0]);
        leading_space_is_dropped(lead.drop_first(), s);
    }
}

/// Trailing whitespace makes no difference to what is left after trimming it.
proof fn trailing_space_is_dropped(s: Seq<char>, trail: Seq<char>)
    requires
        forall|i: int| 0 <= i < trail.len() ==> is_white_space(#[trigger] trail[i]),
    ensures
        without_trailing_space(s + trail) == without_trailing_space(s),
    decreases trail.len(),
{
    if trail.len() == 0 {
        assert(s + trail =~= s);
    } else {
        assert((s + trail).drop_last() =~= s + trail.drop_last());
        assert(is_white_space(trail[trail.len() - 1]));
        assert((s + trail).last() == trail[trail.len() - 1]);
        trailing_space_is_dropped(s, trail.drop_last());
    }
}

/// Whitespace behind a text survives the trimming of its front, unless nothing else
/// does.
proof fn leading_then_trailing(s: Seq<char>, trail: Seq<char>)
    requires
        forall|i: int| 0 <= i < trail.len() ==> is_white_space(#[trigger] trail[i]),
    ensures
        without_leading_space(s).len() > 0 ==> without_leading_space(s + trail)
            == without_leading_space(s) + trail,
        without_leading_space(s).len() == 0 ==> without_leading_space(s + trail).len() == 0,
    decreases s.len(),
{
    if s.len() == 0 {
        leading_space_is_dropped(trail, s);
        assert(s + trail =~= trail + s);
    } else if is_white_space(s.first()) {
        assert((s + trail).drop_first() =~= s.drop_first() + trail);
        assert((s + trail).first() == s.first());
        leading_then_trailing(s.drop_first(), trail);
    } else {
        assert((s + trail).first() == s.first());
    }
}

/// Whitespace added at either end of a text is trimmed off again.
pub proof fn added_space_is_trimmed(lead: Seq<char>, s: Seq<char>, trail: Seq<char>)
    requires
        forall|i: int| 0 <= i < lead.len() ==> is_white_space(#[trigger] lead[i]),
        forall|i: int| 0 <= i < trail.len() ==> is_white_space(#[trigger] trail[i]),
    ensures
        trimmed(lead + s + trail) == trimmed(s),
{
    assert(lead + s + trail =~= lead + (s + trail));
    leading_space_is_dropped(lead, s + trail);
    leading_then_trailing(s, trail);
    let front = without_leading_space(s);
    if front.len() > 0 {
        trailing_space_is_dropped(front, trail);
    } else {
        assert(without_leading_space(s + trail) =~= front);
    }
}

/// Differing in letter case at most goes both ways.
pub proof fn same_case_is_symmetric(a: Seq<char>, b: Seq<char>)
    requires
        same_ignoring_ascii_case(a, b),
    ensures
        same_ignoring_ascii_case(b, a),
{
    assert forall|i: int| 0 <= i < b.len() implies ascii_lower(#[trigger] b[i]) == ascii_lower(
        a[i],
    ) by {
        assert(ascii_lower(a[i]) == ascii_lower(b[i]));
    }
}

/// Texts that differ from a third in letter case at most differ so from each other.
pub proof fn same_case_is_transitive(a: Seq<char>, b: Seq<char>, c: Seq<char>)
    requires
        same_ignoring_ascii_case(a, b),
        same_ignoring_ascii_case(b, c),
    ensures
        same_ignoring_ascii_case(a, c),
{
    assert forall|i: int| 0 <= i < a.len() implies ascii_lower(#[trigger] a[i]) == ascii_lower(
        c[i],
    ) by {
        assert(ascii_lower(b[i]) == ascii_lower(c[i]));
    }
}

/// Texts that differ in letter case at most still do so once trimmed in front.
proof fn case_survives_leading(a: Seq<char>, b: Seq<char>)
    requires
        same_ignoring_ascii_case(a, b),
    ensures
        same_ignoring_ascii_case(without_leading_space(a), without_leading_space(b)),
    decreases a.len(),
{
    if a.len() > 0 {
        assert(ascii_lower(a[0]) == ascii_lower(b[0]));
        if is_white_space(a.first()) {
            let (x, y) = (a.drop_first(), b.drop_first());
            assert forall|i: int| 0 <= i < x.len() implies ascii_lower(#[trigger] x[i])
                == ascii_lower(y[i]) by {
                assert(ascii_lower(a[i + 1]) == ascii_lower(b[i + 1]));
            }
            case_survives_leading(x, y);
        }
    }
}

/// Texts that differ in letter case at most still do so once trimmed behind.
proof fn case_survives_trailing(a: Seq<char>, b: Seq<char>)
    requires
        same_ignoring_ascii_case(a, b),
    ensures
        same_ignoring_ascii_case(without_trailing_space(a), without_trailing_space(b)),
    decreases a.len(),
{
    if a.len() > 0 {
        assert(ascii_lower(a[a.len() - 1]) == ascii_lower(b[b.len() - 1]));
        if is_white_space(a.last()) {
            let (x, y) = (a.drop_last(), b.drop_last());
            assert forall|i: int| 0 <= i < x.len() implies ascii_lower(#[trigger] x[i])
                == ascii_lower(y[i]) by {
                assert(ascii_lower(a[i]) == ascii_lower(b[i]));
            }
            case_survives_trailing(x, y);
        }
    }
}

/// Texts that differ in letter case at most still do so once trimmed.
pub proof fn case_survives_trimming(a: Seq<char>, b: Seq<char>)
    requires
        same_ignoring_ascii_case(a, b),
    ensures
        same_ignoring_ascii_case(trimmed(a), trimmed(b)),
{
    case_survives_leading(a, b);
    case_survives_trailing(without_leading_space(a), without_leading_space(b));
}

/// A number has one spelling as far as letter case goes.
pub proof fn numbers_have_no_case(a: Seq<char>, b: Seq<char>)
    requires
        same_ignoring_ascii_case(a, b),
        signed_number(a) is Some,
    ensures
        a == b,
{
    assert forall|i: int| 0 <= i < a.len() implies a[i] == b[i] by {
        assert(ascii_lower(a[i]) == ascii_lower(b[i]));
        if i > 0 && (a.first() == '-' || a.first() == '+') {
            assert(is_digit(a.drop_first()[i - 1]));
        } else {
            assert(is_digit(a[i]) || a[i] == '-' || a[i] == '+');
        }
    }
    assert(a =~= b);
}

/// `str::trim`: the slice of `s` without leading and trailing whitespace, where
/// whitespace is what has the Unicode property `White_Space`.
#[verifier::external_body]
pub(crate) fn trim(s: &str) -> (res: &str)
    ensures
        res@ == trimmed(s@),
{
    s.trim()
}

/// `str::eq_ignore_ascii_case`: whether the two strings are equal once their
/// ASCII letters are put in lower case.
#[verifier::external_body]
pub(crate) fn eq_ignore_ascii_case(a: &str, b: &str) -> (res: bool)
    ensures
        res == same_ignoring_ascii_case(a@, b@),
{
    a.eq_ignore_ascii_case(b)
}

/// `str::parse::<i64>`: succeeds on an optional sign, `+` or `-`, followed by
/// one or more decimal digits and nothing else, when the number fits in an `i64`;
/// gives that number.
#[verifier::external_body]
pub(crate) fn parse_i64(s: &str) -> (res: Option<i64>)
    ensures
        res == match signed_number(s@) {
            Some(v) => if i64::MIN <= v <= i64::MAX {
                Some(v as i64)
            } else {
                None
            },
            None => None,
        },
{
    s.parse::<i64>().ok()
}

/// `str::parse::<u64>`: succeeds on an optional `+` followed by one or more
/// decimal digits and nothing else, when the number fits in a `u64`; gives that
/// number.
#[verifier::external_body]
pub(crate) fn parse_u64(s: &str) -> (res: Option<u64>)
    ensures
        res == match unsigned_number(s@) {
            Some(v) => if v <= u64::MAX {
                Some(v as u64)
            } else {
                None
            },
            None => None,
        },
{
    s.parse::<u64>().ok()
}

/// `str::contains` with a string as the pattern: whether the pattern is a
/// sub-slice of `s`.
#[verifier::external_body]
pub(crate) fn contains(s: &str, pattern: &str) -> (res: bool)
    ensures
        res == contains_text(s@, pattern@),
{
    s.contains(pattern)
}

/// `str::starts_with` with a string as the pattern: whether the pattern is a
/// prefix of `s`.
#[verifier::external_body]
pub(crate) fn starts_with(s: &str, pattern: &str) -> (res: bool)
    ensures
        res == pattern@.is_prefix_of(s@),
{
    s.starts_with(pattern)
}

/// Whether `s` is an optional `+` followed by one or more decimal digits and nothing
/// else, however large the number.
pub(crate) fn is_unsigned_numeral(s: &str) -> (res: bool)
    ensures
        res == (unsigned_number(s@) is Some),
{
    let len: usize = s.unicode_len();
    let start: usize = if len > 0 && s.get_char(0) == '+' {
        1
    } else {
        0
    };
    if start == len {
        return false;
    }
    let ghost digits = s@.skip(start as int);
    assert(start == 0 ==> digits =~= s@);
    assert(start == 1 ==> digits =~= s@.drop_first());
    for i in start..len
        invariant
            len == s@.len(),
            start <= i <= len,
            digits == s@.skip(start as int),
            digits == if s@.len() > 0 && s@.first() == '+' {
                s@.drop_first()
            } else {
                s@
            },
            forall|j: int| 0 <= j < i - start ==> is_digit(#[trigger] digits[j]),
    {
        let c = s.get_char(i);
        assert(c == digits[i - start]);
        if c < '0' || c > '9' {
            return false;
        }
    }
    true
}

/// `u32::to_string`: the number in base ten, without sign or leading zeros.
#[verifier::external_body]
pub(crate) fn u32_text(n: u32) -> (res: String)
    ensures
        res@ == decimal_text(n as nat),
{
    n.to_string()
}

} // verus!
