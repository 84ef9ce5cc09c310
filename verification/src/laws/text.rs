//! Text.
use vstd::prelude::*;
use crate::text::{
    after_prefix, all_digits, digits_value, int_text, is_digit, is_white_space, lemma_nat_text,
    nat_text, parsed_number, trim_end, trim_start, trimmed, without_trailing,
};

verus! {

/// `c`, `n` times.
pub open spec fn run(c: char, n: nat) -> Seq<char> {
    Seq::new(n, |i: int| c)
}

/// Whether a text is white space from `from` up to `to`.
pub open spec fn blank(s: Seq<char>, from: int, to: int) -> bool {
    forall|k: int| from <= k < to ==> is_white_space(#[trigger] s[k])
}

/// Whether a text neither starts nor ends with white space.
pub open spec fn is_bare(s: Seq<char>) -> bool {
    s.len() > 0 ==> !is_white_space(s[0]) && !is_white_space(s.last())
}

/// White space is what Unicode says: of ASCII, the space and the characters from
/// the tab to the carriage return; beyond, the next line and the spaces,
/// separators and no-break spaces.
pub proof fn law_white_space(c: char)
    ensures
        c <= '\u{7f}' ==> (is_white_space(c) <==> c == ' ' || '\t' <= c <= '\r'),
        c > '\u{7f}' ==> (is_white_space(c) <==> c == '\u{85}' || c == '\u{a0}' || c == '\u{1680}'
            || '\u{2000}' <= c <= '\u{200a}' || c == '\u{2028}' || c == '\u{2029}' || c
            == '\u{202f}' || c == '\u{205f}' || c == '\u{3000}'),
{
}

proof fn lemma_trim_start(before: Seq<char>, rest: Seq<char>)
    requires
        blank(before, 0, before.len() as int),
        rest.len() > 0 ==> !is_white_space(rest[0]),
    ensures
        trim_start(before + rest) == rest,
    decreases before.len(),
{
    let s = before + rest;
    if before.len() > 0 {
        let b = before.drop_first();
        assert forall|k: int| 0 <= k < b.len() implies is_white_space(#[trigger] b[k]) by {
            assert(b[k] == before[k + 1]);
        }
        lemma_trim_start(b, rest);
        assert(s.drop_first() == b + rest);
        assert(s[0] == before[0]);
    } else {
        assert(s == rest);
    }
}

proof fn lemma_trim_end(rest: Seq<char>, after: Seq<char>)
    requires
        blank(after, 0, after.len() as int),
        rest.len() > 0 ==> !is_white_space(rest.last()),
    ensures
        trim_end(rest + after) == rest,
    decreases after.len(),
{
    let s = rest + after;
    if after.len() > 0 {
        let a = after.drop_last();
        assert forall|k: int| 0 <= k < a.len() implies is_white_space(#[trigger] a[k]) by {
            assert(a[k] == after[k]);
        }
        lemma_trim_end(rest, a);
        assert(s.drop_last() == rest + a);
        assert(s.last() == after[after.len() - 1]);
    } else {
        assert(s == rest);
    }
}

/// Trimming takes the white space before and after a text, and nothing else:
/// whatever white space is put around it, it comes out as it was.
pub proof fn law_trimming_gives_what_is_between(
    before: Seq<char>,
    text: Seq<char>,
    after: Seq<char>,
)
    requires
        is_bare(text),
        blank(before, 0, before.len() as int),
        blank(after, 0, after.len() as int),
    ensures
        trimmed(before + text + after) == text,
{
    if text.len() > 0 {
        lemma_trim_start(before, text + after);
        assert(before + text + after == before + (text + after));
        lemma_trim_end(text, after);
    } else {
        let all = before + after;
        assert(before + text + after == all + Seq::<char>::empty());
        assert forall|k: int| 0 <= k < all.len() implies is_white_space(#[trigger] all[k]) by {
            if k < before.len() {
                assert(all[k] == before[k]);
            } else {
                assert(all[k] == after[k - before.len()]);
            }
        }
        lemma_trim_start(all, Seq::empty());
        assert(trim_end(Seq::<char>::empty()) == Seq::<char>::empty());
        assert(text == Seq::<char>::empty());
    }
}

/// What is trimmed is bare.
pub proof fn law_trimmed_is_bare(s: Seq<char>)
    ensures
        is_bare(trimmed(s)),
{
    lemma_start_is_bare(s);
    lemma_end_is_bare(trim_start(s));
}

proof fn lemma_start_is_bare(s: Seq<char>)
    ensures
        trim_start(s).len() > 0 ==> !is_white_space(trim_start(s)[0]),
    decreases s.len(),
{
    if s.len() > 0 && is_white_space(s[0]) {
        lemma_start_is_bare(s.drop_first());
    }
}

proof fn lemma_end_is_bare(s: Seq<char>)
    ensures
        trim_end(s).len() > 0 ==> !is_white_space(trim_end(s).last()),
        trim_end(s).len() > 0 ==> trim_end(s)[0] == s[0],
    decreases s.len(),
{
    if s.len() > 0 && is_white_space(s.last()) {
        lemma_end_is_bare(s.drop_last());
    }
}

/// The run of a character at the end goes, all of it, and nothing else.
pub proof fn law_trailing_run_goes(s: Seq<char>, c: char, n: nat)
    requires
        s.len() > 0 ==> s.last() != c,
    ensures
        without_trailing(s + run(c, n), c) == s,
    decreases n,
{
    if n > 0 {
        law_trailing_run_goes(s, c, (n - 1) as nat);
        assert((s + run(c, n)).drop_last() == s + run(c, (n - 1) as nat));
        assert((s + run(c, n)).last() == c);
    } else {
        assert(s + run(c, 0) == s);
    }
}

/// What follows a prefix is found exactly where the text is the prefix and then
/// that.
pub proof fn law_prefix(s: Seq<char>, prefix: Seq<char>, rest: Seq<char>)
    ensures
        after_prefix(s, prefix) == Some(rest) <==> s == prefix + rest,
        after_prefix(s, prefix) is None <==> !(prefix.len() <= s.len() && forall|i: int|
            0 <= i < prefix.len() ==> s[i] == prefix[i]),
{
    if prefix.len() <= s.len() {
        assert(s == s.take(prefix.len() as int) + s.skip(prefix.len() as int));
        if forall|i: int| 0 <= i < prefix.len() ==> s[i] == prefix[i] {
            assert(s.take(prefix.len() as int) == prefix);
        } else {
            let i = choose|i: int| 0 <= i < prefix.len() && s[i] != prefix[i];
            assert(s.take(prefix.len() as int)[i] != prefix[i]);
        }
    }
    assert((prefix + rest).take(prefix.len() as int) == prefix);
    assert((prefix + rest).skip(prefix.len() as int) == rest);
}

/// A number in decimal: digits only, no zero in front but for zero itself, and
/// one digit more makes it ten times as large and adds that digit.
pub proof fn law_decimal(n: nat, d: nat)
    requires
        d < 10,
    ensures
        forall|i: int| 0 <= i < nat_text(n).len() ==> '0' <= #[trigger] nat_text(n)[i] <= '9',
        nat_text(n).len() > 0,
        nat_text(n)[0] == '0' <==> n == 0,
        n > 0 ==> nat_text(10 * n + d) == nat_text(n).push((48 + d) as u32 as char),
        nat_text(d) == seq![(48 + d) as u32 as char],
        int_text(n as int) == nat_text(n),
        n > 0 ==> int_text(-(n as int)) == seq!['-'] + nat_text(n),
    decreases n,
{
    lemma_nat_text(n);
    assert forall|i: int| 0 <= i < nat_text(n).len() implies '0' <= #[trigger] nat_text(n)[i]
        <= '9' by {
        assert(is_digit(nat_text(n)[i]));
    }
    if n >= 10 {
        law_decimal(n / 10, d);
        assert(nat_text(n)[0] == nat_text(n / 10)[0]);
    }
    assert((10 * n + d) / 10 == n && (10 * n + d) % 10 == d) by (nonlinear_arith)
        requires
            d < 10,
    ;
}

/// The value of a run of digits: none is zero, and one digit more makes it ten
/// times as large and adds that digit.
pub proof fn law_digits(s: Seq<char>, c: char)
    requires
        '0' <= c <= '9',
    ensures
        digits_value(Seq::empty()) == 0,
        digits_value(s.push(c)) == 10 * digits_value(s) + (c as u32 - '0' as u32),
{
    assert(s.push(c).drop_last() == s);
}

/// A text writes a number of at most `max` exactly where it is digits, perhaps
/// after a plus sign, and their value is that number.
pub proof fn law_numbers(digits: Seq<char>, max: nat)
    requires
        digits.len() > 0 ==> digits[0] != '+',
    ensures
        parsed_number(digits, max) == parsed_number(seq!['+'] + digits, max),
        parsed_number(digits, max) is Some <==> digits.len() > 0 && (forall|i: int|
            0 <= i < digits.len() ==> '0' <= #[trigger] digits[i] <= '9') && digits_value(digits)
            <= max,
        parsed_number(digits, max) is Some ==> parsed_number(digits, max) == Some(
            digits_value(digits),
        ),
{
    let signed = seq!['+'] + digits;
    assert(signed.drop_first() == digits);
    assert(all_digits(digits) <==> digits.len() > 0 && forall|i: int|
        0 <= i < digits.len() ==> '0' <= #[trigger] digits[i] <= '9') by {
        if all_digits(digits) {
            assert forall|i: int| 0 <= i < digits.len() implies '0' <= #[trigger] digits[i]
                <= '9' by {
                assert(is_digit(digits[i]));
            }
        }
    }
}

} // verus!
