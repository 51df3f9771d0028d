//! Text building blocks: decimal numerals, trailing line breaks, and
//! searching one text for another.

use vstd::prelude::*;

verus! {

/// The numeral for one decimal digit.
pub open spec fn digit(value: int) -> char {
    if value == 0 {
        '0'
    } else if value == 1 {
        '1'
    } else if value == 2 {
        '2'
    } else if value == 3 {
        '3'
    } else if value == 4 {
        '4'
    } else if value == 5 {
        '5'
    } else if value == 6 {
        '6'
    } else if value == 7 {
        '7'
    } else if value == 8 {
        '8'
    } else {
        '9'
    }
}

/// The decimal numeral of a natural number, without leading zeros.
pub open spec fn digits(value: nat) -> Seq<char>
    decreases value,
{
    if value < 10 {
        seq![digit(value as int)]
    } else {
        digits(value / 10).push(digit((value % 10) as int))
    }
}

/// The decimal numeral of an integer: a minus sign for a negative one, then
/// the digits of its magnitude.
pub open spec fn decimal(value: int) -> Seq<char> {
    if value < 0 {
        seq!['-'] + digits((-value) as nat)
    } else {
        digits(value as nat)
    }
}

/// A numeral is never empty and holds digits only.
pub proof fn lemma_digits_shape(value: nat)
    ensures
        digits(value).len() > 0,
        forall|k: int| 0 <= k < digits(value).len() ==> digits(value)[k] != '-',
    decreases value,
{
    if value >= 10 {
        lemma_digits_shape(value / 10);
    }
}

/// Two natural numbers with the same numeral are the same number.
pub proof fn lemma_digits_injective(a: nat, b: nat)
    requires
        digits(a) == digits(b),
    ensures
        a == b,
    decreases a,
{
    lemma_digits_shape(a / 10);
    lemma_digits_shape(b / 10);
    if a < 10 && b < 10 {
        assert(digits(a)[0] == digit(a as int));
        assert(digits(b)[0] == digit(b as int));
    } else if a >= 10 && b >= 10 {
        let high_a = digits(a / 10);
        let high_b = digits(b / 10);
        assert(digits(a) == high_a.push(digit((a % 10) as int)));
        assert(digits(b) == high_b.push(digit((b % 10) as int)));
        assert(digits(a).last() == digit((a % 10) as int));
        assert(digits(b).last() == digit((b % 10) as int));
        assert(high_a =~= digits(a).drop_last());
        assert(high_b =~= digits(b).drop_last());
        lemma_digits_injective(a / 10, b / 10);
        assert(a % 10 == b % 10);
    } else if a < 10 {
        assert(digits(a).len() == 1);
        assert(digits(b).len() == digits(b / 10).len() + 1);
    } else {
        assert(digits(b).len() == 1);
        assert(digits(a).len() == digits(a / 10).len() + 1);
    }
}

/// Two integers with the same numeral are the same integer.
pub proof fn lemma_decimal_injective(a: int, b: int)
    requires
        decimal(a) == decimal(b),
    ensures
        a == b,
{
    let size_a = if a < 0 { (-a) as nat } else { a as nat };
    let size_b = if b < 0 { (-b) as nat } else { b as nat };
    lemma_digits_shape(size_a);
    lemma_digits_shape(size_b);
    if a < 0 && b < 0 {
        assert(digits(size_a) =~= decimal(a).skip(1));
        assert(digits(size_b) =~= decimal(b).skip(1));
        lemma_digits_injective(size_a, size_b);
    } else if a >= 0 && b >= 0 {
        lemma_digits_injective(size_a, size_b);
    } else if a < 0 {
        assert(decimal(a)[0] == '-');
        assert(decimal(b)[0] == digits(size_b)[0]);
    } else {
        assert(decimal(b)[0] == '-');
        assert(decimal(a)[0] == digits(size_a)[0]);
    }
}

/// The text of one decimal digit.
fn digit_text(value: u64) -> (text: &'static str)
    requires
        value < 10,
    ensures
        text@ == seq![digit(value as int)],
{
    proof {
        reveal_strlit("0");
        reveal_strlit("1");
        reveal_strlit("2");
        reveal_strlit("3");
        reveal_strlit("4");
        reveal_strlit("5");
        reveal_strlit("6");
        reveal_strlit("7");
        reveal_strlit("8");
        reveal_strlit("9");
    }
    let text: &'static str = if value == 0 {
        "0"
    } else if value == 1 {
        "1"
    } else if value == 2 {
        "2"
    } else if value == 3 {
        "3"
    } else if value == 4 {
        "4"
    } else if value == 5 {
        "5"
    } else if value == 6 {
        "6"
    } else if value == 7 {
        "7"
    } else if value == 8 {
        "8"
    } else {
        "9"
    };
    assert(text@ =~= seq![digit(value as int)]);
    text
}

/// Appends the decimal numeral of `value` to `out`.
pub fn append_digits(out: &mut String, value: u64)
    ensures
        final(out)@ == old(out)@ + digits(value as nat),
    decreases value,
{
    if value >= 10 {
        append_digits(out, value / 10);
    }
    out.append(digit_text(value % 10));
    assert(out@ =~= old(out)@ + digits(value as nat));
}

/// Appends the decimal numeral of `value` to `out`.
pub fn append_decimal(out: &mut String, value: i64)
    ensures
        final(out)@ == old(out)@ + decimal(value as int),
{
    if value < 0 {
        proof {
            reveal_strlit("-");
        }
        out.append("-");
        let magnitude: u64 = (-(value + 1)) as u64 + 1;
        append_digits(out, magnitude);
        assert(out@ =~= old(out)@ + decimal(value as int));
    } else {
        append_digits(out, value as u64);
    }
}

/// How much of `text` is left when the line breaks at its end are dropped.
pub open spec fn trimmed_len(text: Seq<char>) -> nat
    decreases text.len(),
{
    if text.len() == 0 {
        0
    } else if text.last() == '\n' {
        trimmed_len(text.drop_last())
    } else {
        text.len()
    }
}

/// `text` without the line breaks at its end.
pub open spec fn without_trailing_newlines(text: Seq<char>) -> Seq<char> {
    text.take(trimmed_len(text) as int)
}

/// What is dropped from the end of a text is line breaks only, and what is
/// left does not end in one.
pub proof fn lemma_trimmed_len(text: Seq<char>)
    ensures
        trimmed_len(text) <= text.len(),
        forall|k: int| trimmed_len(text) <= k < text.len() ==> text[k] == '\n',
        trimmed_len(text) > 0 ==> text[trimmed_len(text) - 1] != '\n',
    decreases text.len(),
{
    if text.len() > 0 && text.last() == '\n' {
        let shorter = text.drop_last();
        lemma_trimmed_len(shorter);
        assert forall|k: int| trimmed_len(text) <= k < text.len() implies text[k] == '\n' by {
            if k < shorter.len() {
                assert(shorter[k] == text[k]);
            }
        }
    }
}

/// `text` without the line breaks at its end.
pub fn trim_trailing_newlines(text: &str) -> (trimmed: &str)
    ensures
        trimmed@ == without_trailing_newlines(text@),
{
    broadcast use vstd::string::group_string_axioms;

    let len: usize = text.unicode_len();
    let mut keep: usize = 0;
    let mut seen: usize = 0;
    for character in it: text.chars()
        invariant
            it.seq() == text@,
            seen == it.index(),
            len == text@.len(),
            keep == trimmed_len(text@.take(seen as int)),
            keep <= seen,
    {
        proof {
            let before = text@.take(seen as int);
            let after = text@.take(seen + 1);
            assert(after.drop_last() =~= before);
            assert(after.last() == character);
        }
        seen += 1;
        if character != '\n' {
            keep = seen;
        }
    }
    assert(text@.take(seen as int) =~= text@);
    text.substring_char(0, keep)
}

/// Whether `needle` stands in `haystack` from position `at` on.
pub open spec fn occurs_at(needle: Seq<char>, haystack: Seq<char>, at: int) -> bool {
    &&& 0 <= at
    &&& at + needle.len() <= haystack.len()
    &&& haystack.subrange(at, at + needle.len()) == needle
}

/// Whether `needle` stands somewhere in `haystack`.
pub open spec fn occurs_in(needle: Seq<char>, haystack: Seq<char>) -> bool {
    exists|at: int| occurs_at(needle, haystack, at)
}

/// The characters of a text, one by one.
fn characters(text: &str) -> (list: Vec<char>)
    ensures
        list@ == text@,
{
    broadcast use vstd::string::group_string_axioms;

    let mut list: Vec<char> = Vec::new();
    for character in it: text.chars()
        invariant
            it.seq() == text@,
            list@ == it.seq().take(it.index()),
    {
        list.push(character);
        assert(it.seq().take(it.index() + 1) =~= it.seq().take(it.index()).push(character));
    }
    assert(list@ =~= text@);
    list
}

/// Whether `needle` stands in `haystack` from position `at` on.
fn found_at(needle: &Vec<char>, haystack: &Vec<char>, at: usize) -> (found: bool)
    requires
        at + needle.len() <= haystack.len(),
    ensures
        found == occurs_at(needle@, haystack@, at as int),
{
    let mut matched: usize = 0;
    while matched < needle.len()
        invariant
            matched <= needle.len(),
            at + needle.len() <= haystack.len(),
            forall|k: int| 0 <= k < matched ==> haystack@[at + k] == needle@[k],
        decreases needle.len() - matched,
    {
        if haystack[at + matched] != needle[matched] {
            proof {
                let window = haystack@.subrange(at as int, at + needle.len());
                assert(window[matched as int] != needle@[matched as int]);
            }
            return false;
        }
        matched += 1;
    }
    assert(haystack@.subrange(at as int, at + needle.len()) =~= needle@);
    true
}

/// Whether `needle` stands somewhere in `haystack`.
pub fn contains_text(haystack: &str, needle: &str) -> (found: bool)
    ensures
        found == occurs_in(needle@, haystack@),
{
    let hay: Vec<char> = characters(haystack);
    let pattern: Vec<char> = characters(needle);
    if pattern.len() > hay.len() {
        return false;
    }
    let last: usize = hay.len() - pattern.len();
    let mut at: usize = 0;
    while at < last
        invariant
            at <= last,
            last + pattern.len() == hay.len(),
            hay@ == haystack@,
            pattern@ == needle@,
            forall|k: int| 0 <= k < at ==> !occurs_at(needle@, haystack@, k),
        decreases last - at,
    {
        if found_at(&pattern, &hay, at) {
            return true;
        }
        at += 1;
    }
    found_at(&pattern, &hay, last)
}

} // verus!
