//! What holds of the text functions, in terms of the characters.
use vstd::arithmetic::power::{lemma_pow0, pow};
use vstd::prelude::*;

use crate::text::{
    after_last, digits, digits_value, is_digit, is_white, number_in, trimmed, without_leading,
    without_plus, without_trailing,
};

verus! {

/// The code points of the white space characters.
pub open spec fn white_codes() -> Set<u32> {
    set![
        9u32, 10u32, 11u32, 12u32, 13u32, 32u32, 133u32, 160u32, 5760u32, 8192u32, 8193u32, 8194u32,
        8195u32, 8196u32, 8197u32, 8198u32, 8199u32, 8200u32, 8201u32, 8202u32, 8232u32, 8233u32,
        8239u32, 8287u32, 12288u32
    ]
}

/// The white space characters are those with one of the listed code points.
pub proof fn law_white_space_is_listed(c: char)
    ensures
        is_white(c) <==> white_codes().contains(c as u32),
{
}

proof fn lemma_leading(s: Seq<char>) -> (n: int)
    ensures
        0 <= n <= s.len(),
        without_leading(s) == s.skip(n),
        forall|i: int| 0 <= i < n ==> is_white(#[trigger] s[i]),
        n < s.len() ==> !is_white(s[n]),
    decreases s.len(),
{
    if s.len() > 0 && is_white(s[0]) {
        let m = lemma_leading(s.skip(1));
        assert(s.skip(1).skip(m) =~= s.skip(m + 1));
        assert forall|i: int| 0 <= i < m + 1 implies is_white(#[trigger] s[i]) by {
            if i > 0 {
                assert(s[i] == s.skip(1)[i - 1]);
            }
        }
        if m + 1 < s.len() {
            assert(s[m + 1] == s.skip(1)[m]);
        }
        m + 1
    } else {
        assert(s.skip(0) =~= s);
        0
    }
}

proof fn lemma_trailing(s: Seq<char>) -> (n: int)
    ensures
        0 <= n <= s.len(),
        without_trailing(s) == s.take(n),
        forall|i: int| n <= i < s.len() ==> is_white(#[trigger] s[i]),
        n > 0 ==> !is_white(s[n - 1]),
    decreases s.len(),
{
    if s.len() > 0 && is_white(s.last()) {
        let m = lemma_trailing(s.drop_last());
        assert(s.drop_last().take(m) =~= s.take(m));
        assert forall|i: int| m <= i < s.len() implies is_white(#[trigger] s[i]) by {
            if i < s.len() - 1 {
                assert(s[i] == s.drop_last()[i]);
            }
        }
        m
    } else {
        assert(s.take(s.len() as int) =~= s);
        s.len() as int
    }
}

/// `core` is what is left of `s` when white space, and nothing else, is taken off both ends, and
/// no more of it can be taken off.
pub open spec fn is_core(s: Seq<char>, core: Seq<char>, from: int, to: int) -> bool {
    &&& 0 <= from <= to <= s.len()
    &&& core == s.subrange(from, to)
    &&& forall|i: int| 0 <= i < from ==> is_white(#[trigger] s[i])
    &&& forall|i: int| to <= i < s.len() ==> is_white(#[trigger] s[i])
    &&& from < to ==> !is_white(s[from]) && !is_white(s[to - 1])
}

/// Trimming takes all white space off both ends and nothing else.
pub proof fn law_trimming_takes_white_space_off(s: Seq<char>)
    ensures
        exists|from: int, to: int| is_core(s, trimmed(s), from, to),
{
    let from = lemma_leading(s);
    let rest = s.skip(from);
    let n = lemma_trailing(rest);
    let to = from + n;
    assert(rest.take(n) =~= s.subrange(from, to));
    assert forall|i: int| to <= i < s.len() implies is_white(#[trigger] s[i]) by {
        assert(s[i] == rest[i - from]);
    }
    if from < to {
        assert(s[to - 1] == rest[n - 1]);
    }
    assert(is_core(s, trimmed(s), from, to));
}

/// A text that neither starts nor ends with white space is read back from its line.
pub proof fn law_line_end_is_trimmed(text: Seq<char>)
    requires
        text.len() > 0,
        !is_white(text[0]),
        !is_white(text.last()),
    ensures
        trimmed(text) == text,
        trimmed(text + seq!['\n']) == text,
        trimmed(text + seq!['\r', '\n']) == text,
{
    reveal_with_fuel(without_leading, 2);
    reveal_with_fuel(without_trailing, 4);
    let one = text + seq!['\n'];
    let two = text + seq!['\r', '\n'];
    assert(one[0] == text[0] && two[0] == text[0]);
    assert(one.drop_last() =~= text);
    assert(two.drop_last() =~= text + seq!['\r']);
    assert(two.drop_last().drop_last() =~= text);
}

/// A text of digits has the value that its first and its second part have in decimal notation.
pub proof fn law_digits_have_decimal_value(head: Seq<char>, tail: Seq<char>)
    requires
        forall|i: int| 0 <= i < tail.len() ==> is_digit(#[trigger] tail[i]),
    ensures
        digits_value(head + tail) == digits_value(head) * pow(10, tail.len()) + digits_value(tail),
    decreases tail.len(),
{
    let s = head + tail;
    if tail.len() == 0 {
        assert(s =~= head);
        lemma_pow0(10);
    } else {
        let shorter = tail.drop_last();
        assert forall|i: int| 0 <= i < shorter.len() implies is_digit(#[trigger] shorter[i]) by {
            assert(shorter[i] == tail[i]);
        }
        law_digits_have_decimal_value(head, shorter);
        assert(s.drop_last() =~= head + shorter);
        assert(s.last() == tail.last());
        let p = pow(10, shorter.len());
        assert(pow(10, tail.len()) == 10 * p) by {
            reveal(pow);
        }
        let h = digits_value(head) as int;
        assert(10 * (h * p) == h * (10 * p)) by (nonlinear_arith);
    }
}

/// The value of one digit.
pub proof fn law_one_digit(c: char)
    requires
        '0' <= c <= '9',
    ensures
        is_digit(c),
        digits_value(seq![c]) == c as nat - 48,
{
    reveal_with_fuel(digits_value, 2);
    assert(seq![c].drop_last() =~= Seq::empty());
}

/// Only the ten digits are digits.
pub proof fn law_ten_digits(c: char)
    ensures
        is_digit(c) <==> 48 <= c as nat <= 57,
{
}

/// A number is written with digits only, at least one, without a leading zero, and its digits have
/// its value.
pub proof fn law_digits_write_the_number(n: nat)
    ensures
        digits(n).len() > 0,
        forall|i: int| 0 <= i < digits(n).len() ==> 48 <= (#[trigger] digits(n)[i]) as nat <= 57,
        n > 0 ==> digits(n)[0] != '0',
        n == 0 ==> digits(n).len() == 1,
        digits_value(digits(n)) == n,
    decreases n,
{
    if n < 10 {
        assert(digits(n).drop_last() =~= Seq::empty());
        reveal_with_fuel(digits_value, 2);
    } else {
        law_digits_write_the_number(n / 10);
        assert(digits(n).drop_last() =~= digits(n / 10));
        assert(digits(n)[0] == digits(n / 10)[0]);
    }
}

/// A text is a number exactly where it is one or more digits, with or without a plus sign in
/// front, and the sign does not change the number.
pub proof fn law_numbers_are_digits(s: Seq<char>)
    ensures
        s.len() > 0 && (forall|i: int| 0 <= i < s.len() ==> is_digit(#[trigger] s[i]))
            ==> number_in(s) == Some(digits_value(s)) && number_in(seq!['+'] + s) == Some(
            digits_value(s),
        ),
        s.len() == 0 ==> number_in(s) is None && number_in(seq!['+'] + s) is None,
        forall|i: int|
            0 <= i < s.len() && !is_digit(#[trigger] s[i]) && !(i == 0 && s[i] == '+')
                ==> number_in(s) is None,
        forall|i: int|
            0 <= i < s.len() && !is_digit(#[trigger] s[i]) ==> number_in(seq!['+'] + s) is None,
{
    let signed = seq!['+'] + s;
    assert(without_plus(signed) =~= s);
    assert forall|i: int|
        0 <= i < s.len() && !is_digit(#[trigger] s[i]) && !(i == 0 && s[i] == '+') implies number_in(
        s,
    ) is None by {
        if s[0] == '+' {
            assert(without_plus(s)[i - 1] == s[i]);
        }
    }
}

/// What follows the last mark holds no mark, and the mark stands in front of it; without a mark it
/// is all of the text.
pub proof fn law_after_the_last_mark(head: Seq<char>, tail: Seq<char>, mark: char)
    requires
        forall|i: int| 0 <= i < tail.len() ==> tail[i] != mark,
    ensures
        after_last(tail, mark) == tail,
        after_last(head + seq![mark] + tail, mark) == tail,
    decreases tail.len(),
{
    let s = head + seq![mark] + tail;
    if tail.len() == 0 {
        assert(s.last() == mark);
        assert(tail =~= Seq::empty());
    } else {
        let shorter = tail.drop_last();
        law_after_the_last_mark(head, shorter, mark);
        assert(s.last() == tail.last());
        assert(s.drop_last() =~= head + seq![mark] + shorter);
        assert(shorter.push(tail.last()) =~= tail);
    }
}

} // verus!
