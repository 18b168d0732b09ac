//! Small operations on text that the other modules share: cutting a text at
//! a separator and reading an unsigned decimal number.

use vstd::prelude::*;
use vstd::string::*;

verus! {

/// The pieces of `text` between the occurrences of `sep`, in order. There
/// is always at least one piece; two separators in a row, or one at either
/// end, give an empty piece.
pub open spec fn split_on(text: Seq<char>, sep: char) -> Seq<Seq<char>>
    decreases text.len(),
{
    if text.len() == 0 {
        seq![Seq::empty()]
    } else {
        let before = split_on(text.drop_last(), sep);
        if text.last() == sep {
            before.push(Seq::empty())
        } else {
            before.drop_last().push(before.last().push(text.last()))
        }
    }
}

/// The pieces written one after the other with `sep` between them.
pub open spec fn join_with(pieces: Seq<Seq<char>>, sep: char) -> Seq<char>
    decreases pieces.len(),
{
    if pieces.len() == 0 {
        Seq::empty()
    } else if pieces.len() == 1 {
        pieces[0]
    } else {
        join_with(pieces.drop_last(), sep).push(sep) + pieces.last()
    }
}

/// Cutting a text gives at least one piece, no piece holds the separator,
/// and the pieces joined by the separator are the text again.
pub proof fn lemma_split_on(text: Seq<char>, sep: char)
    ensures
        split_on(text, sep).len() >= 1,
        forall|i: int, j: int|
            0 <= i < split_on(text, sep).len() && 0 <= j < split_on(text, sep)[i].len()
                ==> split_on(text, sep)[i][j] != sep,
        join_with(split_on(text, sep), sep) == text,
    decreases text.len(),
{
    let pieces = split_on(text, sep);
    if text.len() == 0 {
        assert(join_with(pieces, sep) =~= text);
    } else {
        let before = split_on(text.drop_last(), sep);
        lemma_split_on(text.drop_last(), sep);
        if text.last() == sep {
            assert(pieces.drop_last() =~= before);
            assert(join_with(pieces, sep) =~= text.drop_last().push(sep));
            assert(text.drop_last().push(sep) =~= text);
        } else {
            let grown = before.last().push(text.last());
            assert(pieces.last() == grown);
            assert(pieces.drop_last() =~= before.drop_last());
            if before.len() == 1 {
                assert(join_with(before, sep) == before[0]);
                assert(join_with(pieces, sep) =~= text.drop_last().push(text.last()));
            } else {
                assert(join_with(before, sep) == join_with(before.drop_last(), sep).push(sep)
                    + before.last());
                assert(join_with(pieces, sep) =~= (join_with(before.drop_last(), sep).push(sep)
                    + before.last()).push(text.last()));
            }
            assert(text.drop_last().push(text.last()) =~= text);
        }
    }
}

/// A text without the separator is its own single piece.
pub proof fn lemma_split_on_whole(text: Seq<char>, sep: char)
    requires
        !text.contains(sep),
    ensures
        split_on(text, sep) == seq![text],
    decreases text.len(),
{
    if text.len() == 0 {
        assert(text =~= Seq::<char>::empty());
    } else {
        let init = text.drop_last();
        assert forall|c: char| init.contains(c) implies text.contains(c) by {
            let k = choose|k: int| 0 <= k < init.len() && init[k] == c;
            assert(text[k] == c);
        }
        lemma_split_on_whole(init, sep);
        assert(text[text.len() - 1] == text.last());
        assert(text.contains(text.last()));
        assert(init.push(text.last()) =~= text);
        assert(split_on(text, sep) =~= seq![text]);
    }
}

/// A separator between two texts keeps their pieces apart: the pieces of the
/// whole are those of the first text followed by those of the second.
pub proof fn lemma_split_on_concat(a: Seq<char>, b: Seq<char>, sep: char)
    ensures
        split_on(a + seq![sep] + b, sep) == split_on(a, sep) + split_on(b, sep),
    decreases b.len(),
{
    let whole = a + seq![sep] + b;
    if b.len() == 0 {
        assert(whole.drop_last() =~= a);
        assert(split_on(whole, sep) =~= split_on(a, sep) + split_on(b, sep));
    } else {
        let init = b.drop_last();
        lemma_split_on_concat(a, init, sep);
        lemma_split_on(init, sep);
        assert(whole.drop_last() =~= a + seq![sep] + init);
        assert(whole.last() == b.last());
        assert(split_on(whole, sep) =~= split_on(a, sep) + split_on(b, sep));
    }
}

/// The characters of `text`.
pub fn chars_of(text: &str) -> (chars: Vec<char>)
    ensures
        chars@ == text@,
{
    let mut chars: Vec<char> = Vec::new();
    for c in it: text.chars()
        invariant
            it.seq() == text@,
            chars@ == text@.take(it.index()),
    {
        chars.push(c);
        assert(chars@ =~= text@.take(it.index() + 1));
    }
    assert(text@.take(text@.len() as int) =~= text@);
    chars
}

/// The text made of the characters of `chars` from `from` up to `to`.
pub fn text_of(chars: &Vec<char>, from: usize, to: usize) -> (text: String)
    requires
        from <= to <= chars@.len(),
    ensures
        text@ == chars@.subrange(from as int, to as int),
{
    let mut text = String::new();
    let mut i: usize = from;
    while i < to
        invariant
            from <= i <= to <= chars@.len(),
            text@ == chars@.subrange(from as int, i as int),
        decreases to - i,
    {
        text.push(chars[i]);
        assert(text@ =~= chars@.subrange(from as int, i as int + 1));
        i += 1;
    }
    text
}

/// Cuts `text` at every `sep`.
pub fn split(text: &str, sep: char) -> (pieces: Vec<String>)
    ensures
        pieces.deep_view() == split_on(text@, sep),
        pieces@.len() >= 1,
{
    let mut pieces: Vec<String> = Vec::new();
    let mut piece = String::new();
    for c in it: text.chars()
        invariant
            it.seq() == text@,
            pieces.deep_view().push(piece@) == split_on(text@.take(it.index()), sep),
    {
        let ghost seen = text@.take(it.index());
        assert(text@.take(it.index() + 1).drop_last() =~= seen);
        assert(split_on(seen, sep).last() == piece@);
        assert(split_on(seen, sep).drop_last() =~= pieces.deep_view());
        if c == sep {
            let ghost done = pieces.deep_view();
            pieces.push(piece);
            assert(pieces.deep_view() =~= done.push(piece@));
            piece = String::new();
        } else {
            piece.push(c);
        }
    }
    assert(text@.take(text@.len() as int) =~= text@);
    let ghost done = pieces.deep_view();
    pieces.push(piece);
    assert(pieces.deep_view() =~= done.push(piece@));
    pieces
}

/// Whether `c` is one of the decimal digits `0` to `9`.
pub open spec fn is_decimal_digit(c: char) -> bool {
    '0' <= c <= '9'
}

/// Whether every character of `text` is a decimal digit.
pub open spec fn all_decimal_digits(text: Seq<char>) -> bool {
    forall|i: int| 0 <= i < text.len() ==> is_decimal_digit(#[trigger] text[i])
}

/// The number that the decimal digits of `digits` write.
pub open spec fn decimal_value(digits: Seq<char>) -> nat
    decreases digits.len(),
{
    if digits.len() == 0 {
        0
    } else {
        (decimal_value(digits.drop_last()) * 10 + (digits.last() as int - '0' as int)) as nat
    }
}

/// What is left of `text` once one leading `+` is taken off.
pub open spec fn without_plus_sign(text: Seq<char>) -> Seq<char> {
    if text.len() > 0 && text[0] == '+' {
        text.skip(1)
    } else {
        text
    }
}

/// The unsigned 64-bit number that `text` writes in decimal: an optional `+`,
/// then one or more digits and nothing else, with a value that fits. `None`
/// for every other text.
pub open spec fn decimal_u64(text: Seq<char>) -> Option<u64> {
    let digits = without_plus_sign(text);
    if digits.len() > 0 && all_decimal_digits(digits) && decimal_value(digits) <= u64::MAX {
        Some(decimal_value(digits) as u64)
    } else {
        None
    }
}

/// Longer digit strings write numbers that are at least as large: the value
/// of the first `k` digits never exceeds the value of all of them.
pub proof fn lemma_decimal_value_grows(digits: Seq<char>, k: int)
    requires
        all_decimal_digits(digits),
        0 <= k <= digits.len(),
    ensures
        decimal_value(digits.take(k)) <= decimal_value(digits),
    decreases digits.len() - k,
{
    if k == digits.len() {
        assert(digits.take(k) =~= digits);
    } else {
        let init = digits.drop_last();
        assert(is_decimal_digit(digits[digits.len() - 1]));
        if k == digits.len() - 1 {
            assert(digits.take(k) =~= init);
        } else {
            assert forall|i: int| 0 <= i < init.len() implies is_decimal_digit(
                #[trigger] init[i],
            ) by {
                assert(init[i] == digits[i]);
            }
            lemma_decimal_value_grows(init, k);
            assert(init.take(k) =~= digits.take(k));
        }
    }
}

/// Reads an unsigned 64-bit number written in decimal, with an optional
/// leading `+`.
pub fn parse_u64(text: &str) -> (number: Option<u64>)
    ensures
        number == decimal_u64(text@),
{
    let chars = chars_of(text);
    let start: usize = if chars.len() > 0 && chars[0] == '+' {
        1
    } else {
        0
    };
    let ghost digits = without_plus_sign(text@);
    assert(digits =~= chars@.skip(start as int));
    if start == chars.len() {
        return None;
    }
    let mut value: u64 = 0;
    let mut i: usize = start;
    while i < chars.len()
        invariant
            start <= i <= chars@.len(),
            digits == chars@.skip(start as int),
            digits == without_plus_sign(text@),
            all_decimal_digits(digits.take(i - start)),
            value == decimal_value(digits.take(i - start)),
        decreases chars.len() - i,
    {
        let c: char = chars[i];
        let ghost seen = digits.take(i - start);
        let ghost next = digits.take(i - start + 1);
        assert(next.drop_last() =~= seen);
        assert(next.last() == c);
        assert(digits[i - start] == c);
        if !('0' <= c && c <= '9') {
            assert(!is_decimal_digit(digits[i - start]));
            return None;
        }
        assert forall|j: int| 0 <= j < next.len() implies is_decimal_digit(#[trigger] next[j]) by {
            if j < seen.len() {
                assert(next[j] == seen[j]);
            }
        }
        let d: u64 = (c as u32 - 0x30) as u64;
        let grown = match value.checked_mul(10) {
            Some(tens) => tens.checked_add(d),
            None => None,
        };
        match grown {
            Some(v) => {
                value = v;
            },
            None => {
                proof {
                    assert(decimal_value(next) > u64::MAX);
                    if all_decimal_digits(digits) {
                        lemma_decimal_value_grows(digits, i - start + 1);
                    }
                }
                return None;
            },
        }
        i += 1;
    }
    assert(digits.take(i - start) =~= digits);
    Some(value)
}

} // verus!
