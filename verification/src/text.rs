//! Text: splitting, trimming, and numbers in decimal.

use vstd::prelude::*;
use vstd::string::StringExecFns;
use vstd::utf8::{encode_utf8, valid_utf8};

verus! {

/// Whether Unicode calls `c` white space.
pub open spec fn is_space(c: char) -> bool {
    ||| '\u{9}' <= c <= '\u{d}'
    ||| c == '\u{20}'
    ||| c == '\u{85}'
    ||| c == '\u{a0}'
    ||| c == '\u{1680}'
    ||| '\u{2000}' <= c <= '\u{200a}'
    ||| c == '\u{2028}'
    ||| c == '\u{2029}'
    ||| c == '\u{202f}'
    ||| c == '\u{205f}'
    ||| c == '\u{3000}'
}

/// `s` without the white space at its end.
pub open spec fn trimmed_end(s: Seq<char>) -> Seq<char>
    decreases s.len(),
{
    if s.len() > 0 && is_space(s.last()) {
        trimmed_end(s.drop_last())
    } else {
        s
    }
}

/// `s` without the white space at its start.
pub open spec fn trimmed_start(s: Seq<char>) -> Seq<char>
    decreases s.len(),
{
    if s.len() > 0 && is_space(s.first()) {
        trimmed_start(s.drop_first())
    } else {
        s
    }
}

/// `s` without the white space at both ends.
pub open spec fn trimmed(s: Seq<char>) -> Seq<char> {
    trimmed_start(trimmed_end(s))
}

/// The parts of `s` between the separators; a text without one is a single part.
pub open spec fn split_at(s: Seq<char>, separator: char) -> Seq<Seq<char>>
    decreases s.len(),
{
    if s.len() == 0 {
        seq![Seq::empty()]
    } else {
        let parts = split_at(s.drop_last(), separator);
        if s.last() == separator {
            parts.push(Seq::empty())
        } else {
            parts.drop_last().push(parts.last().push(s.last()))
        }
    }
}

/// Whether `c` is one of `0` to `9`.
pub open spec fn is_digit(c: char) -> bool {
    '0' <= c <= '9'
}

/// The number that a digit stands for.
pub open spec fn digit_value(c: char) -> nat {
    (c as int - '0' as int) as nat
}

/// The number that decimal digits spell.
pub open spec fn digits_value(s: Seq<char>) -> nat
    decreases s.len(),
{
    if s.len() == 0 {
        0
    } else {
        digits_value(s.drop_last()) * 10 + digit_value(s.last())
    }
}

/// `s` without a leading `+`.
pub open spec fn unsigned(s: Seq<char>) -> Seq<char> {
    if s.len() > 0 && s[0] == '+' {
        s.skip(1)
    } else {
        s
    }
}

/// Whether `s` holds nothing but digits.
pub open spec fn all_digits(s: Seq<char>) -> bool {
    forall|i: int| 0 <= i < s.len() ==> is_digit(#[trigger] s[i])
}

/// The number that a text spells: decimal digits, at least one, behind an optional `+`.
pub open spec fn number(s: Seq<char>) -> Option<nat> {
    if unsigned(s).len() > 0 && all_digits(unsigned(s)) {
        Some(digits_value(unsigned(s)))
    } else {
        None
    }
}

/// The digit for a number below ten.
pub open spec fn digit(n: nat) -> char {
    ('0' as int + n) as char
}

/// A number in decimal, without leading zeros.
pub open spec fn decimal(n: nat) -> Seq<char>
    decreases n,
{
    if n < 10 {
        seq![digit(n)]
    } else {
        decimal(n / 10).push(digit(n % 10))
    }
}

fn space(c: char) -> (yes: bool)
    ensures
        yes == is_space(c),
{
    (c >= '\u{9}' && c <= '\u{d}') || c == '\u{20}' || c == '\u{85}' || c == '\u{a0}' || c
        == '\u{1680}' || (c >= '\u{2000}' && c <= '\u{200a}') || c == '\u{2028}' || c == '\u{2029}'
        || c == '\u{202f}' || c == '\u{205f}' || c == '\u{3000}'
}

/// Calls `String::from_utf8`.
/// Trusted: the UTF-8 bytes of the text are the given bytes. Bytes that are not UTF-8, on which the
/// call fails, are left out.
#[verifier::external_body]
pub(crate) fn utf8_text(bytes: &[u8]) -> (text: String)
    requires
        valid_utf8(bytes@),
    ensures
        encode_utf8(text@) == bytes@,
{
    String::from_utf8(bytes.to_vec()).unwrap()
}

/// `s` without the white space at both ends.
pub fn trim(s: &str) -> (t: &str)
    ensures
        t@ == trimmed(s@),
{
    let len: usize = s.unicode_len();
    let mut end: usize = len;
    assert(s@.take(len as int) =~= s@);
    while end > 0 && space(s.get_char(end - 1))
        invariant
            end <= s@.len(),
            trimmed_end(s@.take(end as int)) == trimmed_end(s@),
        decreases end,
    {
        assert(s@.take(end as int).drop_last() =~= s@.take(end - 1));
        end = end - 1;
    }
    let ghost kept = s@.take(end as int);
    assert(trimmed_end(kept) == kept);
    let mut start: usize = 0;
    assert(kept.skip(0) =~= kept);
    while start < end && space(s.get_char(start))
        invariant
            start <= end <= s@.len(),
            kept == s@.take(end as int),
            trimmed_start(kept.skip(start as int)) == trimmed_start(kept),
        decreases end - start,
    {
        assert(kept.skip(start as int).drop_first() =~= kept.skip(start + 1));
        start = start + 1;
    }
    assert(kept.skip(start as int) =~= s@.subrange(start as int, end as int));
    s.substring_char(start, end)
}

/// The parts of `s` between the separators.
pub fn split<'a>(s: &'a str, separator: char) -> (parts: Vec<&'a str>)
    ensures
        parts@.map_values(|part: &str| part@) == split_at(s@, separator),
{
    let len: usize = s.unicode_len();
    let ghost view = |part: &str| part@;
    let mut parts: Vec<&'a str> = Vec::new();
    let mut start: usize = 0;
    let mut i: usize = 0;
    assert(s@.subrange(0, 0) =~= Seq::<char>::empty());
    assert(parts@.map_values(view).push(s@.subrange(0, 0)) =~= seq![Seq::<char>::empty()]);
    assert(s@.take(0) =~= Seq::<char>::empty());
    while i < len
        invariant
            len == s@.len(),
            start <= i <= len,
            view == |part: &str| part@,
            parts@.map_values(view).push(s@.subrange(start as int, i as int)) == split_at(
                s@.take(i as int),
                separator,
            ),
        decreases len - i,
    {
        let ghost before = parts@;
        assert(s@.take(i + 1).drop_last() =~= s@.take(i as int));
        assert(s@.take(i + 1).last() == s@[i as int]);
        if s.get_char(i) == separator {
            parts.push(s.substring_char(start, i));
            start = i + 1;
            assert(parts@.map_values(view) =~= before.map_values(view).push(
                parts@[before.len() as int]@,
            ));
            assert(s@.subrange(start as int, i + 1) =~= Seq::<char>::empty());
        } else {
            let ghost parts_before = before.map_values(view);
            proof {
                let known = parts_before.push(s@.subrange(start as int, i as int));
                assert(known.drop_last() =~= parts_before);
                assert(s@.subrange(start as int, i + 1) =~= known.last().push(s@[i as int]));
            }
        }
        i = i + 1;
    }
    assert(s@.take(len as int) =~= s@);
    let ghost before = parts@;
    parts.push(s.substring_char(start, len));
    assert(parts@.map_values(view) =~= before.map_values(view).push(
        s@.subrange(start as int, len as int),
    ));
    parts
}

proof fn lemma_digits_value_grows(s: Seq<char>, from: int)
    requires
        0 <= from <= s.len(),
    ensures
        digits_value(s.take(from)) <= digits_value(s),
    decreases s.len() - from,
{
    if from == s.len() {
        assert(s.take(from) =~= s);
    } else {
        assert(s.take(from + 1).drop_last() =~= s.take(from));
        lemma_digits_value_grows(s, from + 1);
    }
}

/// The number below 2^128 that a text spells.
pub fn parse_u128(s: &str) -> (n: Option<u128>)
    ensures
        match n {
            Some(n) => number(s@) == Some(n as nat),
            None => number(s@) is None || number(s@).unwrap() > u128::MAX,
        },
{
    let len: usize = s.unicode_len();
    let start: usize = if len > 0 && s.get_char(0) == '+' {
        1
    } else {
        0
    };
    let ghost digits = unsigned(s@);
    assert(digits =~= s@.skip(start as int));
    if start == len {
        return None;
    }
    let mut n: u128 = 0;
    let mut i: usize = start;
    assert(digits.take(0) =~= Seq::<char>::empty());
    while i < len
        invariant
            len == s@.len(),
            start <= i <= len,
            digits == unsigned(s@),
            digits == s@.skip(start as int),
            digits.len() > 0,
            forall|j: int| 0 <= j < i - start ==> is_digit(#[trigger] digits[j]),
            n == digits_value(digits.take(i - start)),
        decreases len - i,
    {
        let c = s.get_char(i);
        assert(digits[i - start] == c);
        if c < '0' || c > '9' {
            return None;
        }
        let d: u128 = (c as u32 - '0' as u32) as u128;
        proof {
            let upto = digits.take(i - start + 1);
            assert(upto.drop_last() =~= digits.take(i - start));
            assert(digits_value(upto) == n * 10 + d);
            lemma_digits_value_grows(digits, i - start + 1);
        }
        if n > u128::MAX / 10 {
            return None;
        }
        let tens: u128 = n * 10;
        if tens > u128::MAX - d {
            return None;
        }
        n = tens + d;
        i = i + 1;
    }
    assert(digits.take(len - start) =~= digits);
    Some(n)
}

/// The decimal text of a number spells the number.
pub proof fn law_decimal_spells_the_number(n: nat)
    ensures
        decimal(n).len() > 0,
        all_digits(decimal(n)),
        digits_value(decimal(n)) == n,
        number(decimal(n)) == Some(n),
    decreases n,
{
    let text = decimal(n);
    if n < 10 {
        assert(text.drop_last() =~= Seq::<char>::empty());
        assert(digits_value(text.drop_last()) == 0);
    } else {
        law_decimal_spells_the_number(n / 10);
        assert(text.drop_last() =~= decimal(n / 10));
        assert forall|i: int| 0 <= i < text.len() implies is_digit(#[trigger] text[i]) by {
            if i < text.len() - 1 {
                assert(text[i] == decimal(n / 10)[i]);
            }
        }
    }
    assert(is_digit(text[0]));
    assert(unsigned(text) == text);
}

/// Different numbers have different decimal texts.
pub proof fn law_decimal_is_unambiguous(n: nat, m: nat)
    ensures
        decimal(n) == decimal(m) ==> n == m,
{
    law_decimal_spells_the_number(n);
    law_decimal_spells_the_number(m);
}

fn digit_text(n: u64) -> (text: &'static str)
    requires
        n < 10,
    ensures
        text@ == seq![digit(n as nat)],
{
    proof {
        reveal_strlit("0");
        reveal_strlit("1");
        reveal_strlit("2");
        reveal_strlit("3");
        reveal_strlit("4");
        reveal_strlit("5");
        reveal_strlit("6");
        reveal_strlit("7");
        reveal_strlit("8");
        reveal_strlit("9");
    }
    let text = match n {
        0 => "0",
        1 => "1",
        2 => "2",
        3 => "3",
        4 => "4",
        5 => "5",
        6 => "6",
        7 => "7",
        8 => "8",
        _ => "9",
    };
    assert(text@ =~= seq![digit(n as nat)]);
    text
}

/// A number in decimal.
pub fn decimal_text(n: u64) -> (text: String)
    ensures
        text@ == decimal(n as nat),
    decreases n,
{
    let mut text: String = if n < 10 {
        String::new()
    } else {
        decimal_text(n / 10)
    };
    text.append(digit_text(n % 10));
    assert(text@ =~= decimal(n as nat));
    text
}

/// The white space of Unicode, by code points.
pub proof fn law_white_space(c: char)
    ensures
        is_space(c) <==> (9 <= c as u32 <= 13 || c as u32 == 32 || c as u32 == 0x85 || c as u32
            == 0xa0 || c as u32 == 0x1680 || 0x2000 <= c as u32 <= 0x200a || c as u32 == 0x2028
            || c as u32 == 0x2029 || c as u32 == 0x202f || c as u32 == 0x205f || c as u32
            == 0x3000),
{
}

proof fn lemma_trimmed_end_drops_space(s: Seq<char>, space: Seq<char>)
    requires
        forall|i: int| 0 <= i < space.len() ==> is_space(#[trigger] space[i]),
    ensures
        trimmed_end(s + space) == trimmed_end(s),
    decreases space.len(),
{
    if space.len() == 0 {
        assert(s + space =~= s);
    } else {
        assert((s + space).drop_last() =~= s + space.drop_last());
        lemma_trimmed_end_drops_space(s, space.drop_last());
    }
}

proof fn lemma_trimmed_start_drops_space(s: Seq<char>, space: Seq<char>)
    requires
        forall|i: int| 0 <= i < space.len() ==> is_space(#[trigger] space[i]),
    ensures
        trimmed_start(space + s) == trimmed_start(s),
    decreases space.len(),
{
    if space.len() == 0 {
        assert(space + s =~= s);
    } else {
        assert((space + s).drop_first() =~= space.drop_first() + s);
        lemma_trimmed_start_drops_space(s, space.drop_first());
    }
}

/// White space around a text that begins and ends with none is taken away, all of it, and the
/// text itself stays as it is.
pub proof fn law_trim_takes_the_space_around(before: Seq<char>, text: Seq<char>, after: Seq<char>)
    requires
        forall|i: int| 0 <= i < before.len() ==> is_space(#[trigger] before[i]),
        forall|i: int| 0 <= i < after.len() ==> is_space(#[trigger] after[i]),
        text.len() > 0 ==> !is_space(text.first()) && !is_space(text.last()),
    ensures
        trimmed(before + text + after) == text,
{
    lemma_trimmed_end_drops_space(before + text, after);
    if text.len() == 0 {
        assert(before + text =~= Seq::<char>::empty() + before);
        lemma_trimmed_end_drops_space(Seq::empty(), before);
        assert(trimmed(before + text + after) =~= text);
    } else {
        assert((before + text).last() == text.last());
        lemma_trimmed_start_drops_space(text, before);
    }
}

/// A text without the separator is a single part.
pub proof fn law_split_without_separator(s: Seq<char>, separator: char)
    requires
        !s.contains(separator),
    ensures
        split_at(s, separator) == seq![s],
    decreases s.len(),
{
    if s.len() > 0 {
        assert(s.last() == s[s.len() - 1]);
        assert forall|i: int| 0 <= i < s.drop_last().len() implies s.drop_last()[i] != separator by {
            assert(s[i] != separator);
        }
        law_split_without_separator(s.drop_last(), separator);
        assert(s.drop_last().push(s.last()) =~= s);
        assert(split_at(s, separator) =~= seq![s]);
    } else {
        assert(s =~= Seq::<char>::empty());
    }
}

/// A text has at least one part, which may be empty.
pub proof fn law_split_is_never_empty(s: Seq<char>, separator: char)
    ensures
        split_at(s, separator).len() > 0,
    decreases s.len(),
{
    if s.len() > 0 {
        law_split_is_never_empty(s.drop_last(), separator);
    }
}

/// A text is cut at every separator: what stands before one and what stands after it are split on
/// their own.
pub proof fn law_split_cuts_at_a_separator(a: Seq<char>, b: Seq<char>, separator: char)
    ensures
        split_at(a.push(separator) + b, separator) == split_at(a, separator) + split_at(
            b,
            separator,
        ),
    decreases b.len(),
{
    let s = a.push(separator) + b;
    if b.len() == 0 {
        assert(s =~= a.push(separator));
        assert(a.push(separator).drop_last() =~= a);
        assert(split_at(s, separator) =~= split_at(a, separator) + split_at(b, separator));
    } else {
        law_split_cuts_at_a_separator(a, b.drop_last(), separator);
        law_split_is_never_empty(b.drop_last(), separator);
        assert(s.drop_last() =~= a.push(separator) + b.drop_last());
        assert(s.last() == b.last());
        assert(split_at(s, separator) =~= split_at(a, separator) + split_at(b, separator));
    }
}

/// A number in decimal begins with a zero only where it is zero.
pub proof fn law_decimal_has_no_leading_zero(n: nat)
    ensures
        decimal(n).len() > 0,
        decimal(n)[0] == '0' <==> n == 0,
        n == 0 ==> decimal(n) == seq!['0'],
    decreases n,
{
    if n >= 10 {
        law_decimal_has_no_leading_zero(n / 10);
    }
}

/// A further digit makes a number ten times as large and adds its value, a single digit spells
/// its value, a text with anything else behind its first place spells no number, and neither does
/// an empty one or a sign alone. A `+` before a number changes nothing.
pub proof fn law_number_reads_digits(s: Seq<char>, c: char)
    ensures
        number(Seq::empty()) is None,
        number(seq!['+']) is None,
        '0' <= c <= '9' ==> number(seq![c]) == Some((c as u32 - '0' as u32) as nat),
        c != '+' && !('0' <= c <= '9') ==> number(seq![c]) is None,
        '0' <= c <= '9' ==> (number(s) matches Some(n) ==> number(s.push(c)) == Some(
            (n * 10 + (c as u32 - '0' as u32)) as nat,
        )),
        s.len() > 0 && !('0' <= c <= '9') ==> number(s.push(c)) is None,
        s.len() > 0 && number(s) is None && s != seq!['+'] ==> number(s.push(c)) is None,
        s.len() > 0 && s[0] != '+' ==> number(seq!['+'] + s) == number(s),
        s.len() > 0 && s[0] == '+' ==> number(seq!['+'] + s) is None,
{
    let one = seq![c];
    let empty = Seq::<char>::empty();
    assert(seq!['+'].skip(1) =~= empty);
    assert(one.drop_last() =~= empty);
    assert(digits_value(empty) == 0);
    if '0' <= c <= '9' {
        assert(unsigned(one) == one);
        assert(all_digits(one));
    } else if c != '+' {
        assert(!is_digit(one[0]));
    }
    if s.len() > 0 {
        let longer = s.push(c);
        assert(longer[0] == s[0]);
        assert(unsigned(longer) =~= unsigned(s).push(c));
        assert(unsigned(longer).drop_last() =~= unsigned(s));
        let u = unsigned(s);
        assert(u.push(c)[u.len() as int] == c);
        if all_digits(u.push(c)) {
            assert forall|i: int| 0 <= i < u.len() implies is_digit(#[trigger] u[i]) by {
                assert(u.push(c)[i] == u[i]);
            }
        }
        if u.len() == 0 {
            assert(s =~= seq!['+']);
        }
        let signed = seq!['+'] + s;
        assert(signed.skip(1) =~= s);
        assert(unsigned(signed) == s);
        if s[0] != '+' {
            assert(unsigned(s) == s);
        } else {
            assert(!is_digit(s[0]));
        }
    }
}

proof fn lemma_trimmed_end_place(s: Seq<char>) -> (end: int)
    ensures
        0 <= end <= s.len(),
        trimmed_end(s) == s.take(end),
        forall|i: int| end <= i < s.len() ==> is_space(#[trigger] s[i]),
        end > 0 ==> !is_space(s[end - 1]),
    decreases s.len(),
{
    if s.len() > 0 && is_space(s.last()) {
        let end = lemma_trimmed_end_place(s.drop_last());
        assert(s.drop_last().take(end) =~= s.take(end));
        assert forall|i: int| end <= i < s.len() implies is_space(#[trigger] s[i]) by {
            if i < s.len() - 1 {
                assert(s.drop_last()[i] == s[i]);
            }
        }
        end
    } else {
        assert(s.take(s.len() as int) =~= s);
        s.len() as int
    }
}

proof fn lemma_trimmed_start_place(s: Seq<char>) -> (start: int)
    ensures
        0 <= start <= s.len(),
        trimmed_start(s) == s.skip(start),
        forall|i: int| 0 <= i < start ==> is_space(#[trigger] s[i]),
        start < s.len() ==> !is_space(s[start]),
    decreases s.len(),
{
    if s.len() > 0 && is_space(s.first()) {
        let rest = s.drop_first();
        let start = lemma_trimmed_start_place(rest);
        assert(rest.skip(start) =~= s.skip(start + 1));
        assert forall|i: int| 0 <= i < start + 1 implies is_space(#[trigger] s[i]) by {
            if i > 0 {
                assert(rest[i - 1] == s[i]);
            }
        }
        start + 1
    } else {
        assert(s.skip(0) =~= s);
        0
    }
}

/// The part of a text that is kept begins and ends with something else than white space, or is
/// empty, and all that stands around it is white space. Returns where the part begins and ends.
pub proof fn law_trim_keeps_the_rest(s: Seq<char>) -> (place: (int, int))
    ensures
        0 <= place.0 <= place.1 <= s.len(),
        trimmed(s) == s.subrange(place.0, place.1),
        forall|i: int| 0 <= i < place.0 ==> is_space(#[trigger] s[i]),
        forall|i: int| place.1 <= i < s.len() ==> is_space(#[trigger] s[i]),
        place.0 < place.1 ==> !is_space(s[place.0]) && !is_space(s[place.1 - 1]),
{
    let end = lemma_trimmed_end_place(s);
    let kept = s.take(end);
    let start = lemma_trimmed_start_place(kept);
    assert(kept.skip(start) =~= s.subrange(start, end));
    assert forall|i: int| 0 <= i < start implies is_space(#[trigger] s[i]) by {
        assert(kept[i] == s[i]);
    }
    if start < end {
        assert(kept[start] == s[start]);
    }
    (start, end)
}

proof fn lemma_trim_ignores_space(before: Seq<char>, s: Seq<char>, after: Seq<char>)
    requires
        forall|i: int| 0 <= i < before.len() ==> is_space(#[trigger] before[i]),
        forall|i: int| 0 <= i < after.len() ==> is_space(#[trigger] after[i]),
    ensures
        trimmed(before + s + after) == trimmed(s),
{
    let (start, end) = law_trim_keeps_the_rest(s);
    let all_before = before + s.take(start);
    let all_after = s.skip(end) + after;
    let text = s.subrange(start, end);
    assert(before + s + after =~= all_before + text + all_after);
    law_trim_takes_the_space_around(all_before, text, all_after);
}

proof fn lemma_split_with_more_before(before: Seq<char>, s: Seq<char>, separator: char)
    requires
        !before.contains(separator),
    ensures
        split_at(s, separator).len() > 0,
        split_at(before + s, separator) == split_at(s, separator).update(
            0,
            before + split_at(s, separator)[0],
        ),
    decreases s.len(),
{
    let parts = split_at(s, separator);
    if s.len() == 0 {
        assert(before + s =~= before);
        law_split_without_separator(before, separator);
        assert(before + parts[0] =~= before);
        assert(split_at(before + s, separator) =~= parts.update(0, before + parts[0]));
    } else {
        lemma_split_with_more_before(before, s.drop_last(), separator);
        let known = split_at(s.drop_last(), separator);
        let longer = split_at(before + s.drop_last(), separator);
        assert((before + s).drop_last() =~= before + s.drop_last());
        assert((before + s).last() == s.last());
        if s.last() != separator && known.len() == 1 {
            assert((before + known[0]).push(s.last()) =~= before + known[0].push(s.last()));
        }
        assert(split_at(before + s, separator) =~= parts.update(0, before + parts[0]));
    }
}

proof fn lemma_split_with_more_after(s: Seq<char>, after: Seq<char>, separator: char)
    requires
        !after.contains(separator),
    ensures
        split_at(s, separator).len() > 0,
        split_at(s + after, separator) == split_at(s, separator).drop_last().push(
            split_at(s, separator).last() + after,
        ),
    decreases after.len(),
{
    let parts = split_at(s, separator);
    law_split_is_never_empty(s, separator);
    if after.len() == 0 {
        assert(s + after =~= s);
        assert(parts.last() + after =~= parts.last());
        assert(parts.drop_last().push(parts.last()) =~= parts);
    } else {
        assert(after.last() == after[after.len() - 1]);
        assert forall|i: int| 0 <= i < after.drop_last().len() implies after.drop_last()[i]
            != separator by {
            assert(after[i] != separator);
        }
        lemma_split_with_more_after(s, after.drop_last(), separator);
        assert((s + after).drop_last() =~= s + after.drop_last());
        assert((parts.last() + after.drop_last()).push(after.last()) =~= parts.last() + after);
        assert(split_at(s + after, separator) =~= parts.drop_last().push(parts.last() + after));
    }
}

/// White space around a text has no part in its parts, once each of them is trimmed.
pub proof fn law_trim_before_split_changes_no_part(s: Seq<char>, separator: char)
    requires
        !is_space(separator),
    ensures
        split_at(trimmed(s), separator).len() == split_at(s, separator).len(),
        forall|i: int|
            0 <= i < split_at(s, separator).len() ==> trimmed(
                #[trigger] split_at(trimmed(s), separator)[i],
            ) == trimmed(split_at(s, separator)[i]),
{
    let (start, end) = law_trim_keeps_the_rest(s);
    let before = s.take(start);
    let text = s.subrange(start, end);
    let after = s.skip(end);
    assert(s =~= before + text + after);
    lemma_split_with_more_before(before, text, separator);
    lemma_split_with_more_after(before + text, after, separator);
    let parts = split_at(text, separator);
    let all = split_at(s, separator);
    let none = Seq::<char>::empty();
    assert forall|i: int| 0 <= i < all.len() implies trimmed(#[trigger] parts[i]) == trimmed(
        all[i],
    ) by {
        let b = if i == 0 {
            before
        } else {
            none
        };
        let a = if i == all.len() - 1 {
            after
        } else {
            none
        };
        assert(all[i] =~= b + parts[i] + a);
        lemma_trim_ignores_space(b, parts[i], a);
    }
}

} // verus!
