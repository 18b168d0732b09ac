//! Bytes as hexadecimal text and back.
//!
//! Encoding writes two lowercase digits per byte. Decoding is tolerant: it
//! skips every character that is no hexadecimal digit, pairs the digits that
//! remain, high nibble first, and drops a last digit that has no partner.

use vstd::prelude::*;

verus! {

/// The lowercase hexadecimal digit for a number below 16.
pub open spec fn hex_digit(nibble: int) -> char {
    if nibble < 10 {
        ('0' as int + nibble) as char
    } else {
        ('a' as int + nibble - 10) as char
    }
}

/// The number that a hexadecimal digit of either case stands for; `None` for
/// any other character.
pub open spec fn hex_value(c: char) -> Option<u8> {
    if '0' <= c <= '9' {
        Some((c as int - '0' as int) as u8)
    } else if 'a' <= c <= 'f' {
        Some((c as int - 'a' as int + 10) as u8)
    } else if 'A' <= c <= 'F' {
        Some((c as int - 'A' as int + 10) as u8)
    } else {
        None
    }
}

/// Whether `c` is a hexadecimal digit of either case.
pub open spec fn is_hex_digit(c: char) -> bool {
    hex_value(c) is Some
}

/// The text of `bytes`: for each byte its high nibble's digit, then its low
/// nibble's digit.
pub open spec fn hex_encode(bytes: Seq<u8>) -> Seq<char> {
    Seq::new(
        2 * bytes.len(),
        |i: int| if i % 2 == 0 {
            hex_digit(bytes[i / 2] as int / 16)
        } else {
            hex_digit(bytes[i / 2] as int % 16)
        },
    )
}

/// The values of the hexadecimal digits of `text`, in order; every other
/// character is passed over.
pub open spec fn hex_nibbles(text: Seq<char>) -> Seq<u8>
    decreases text.len(),
{
    if text.len() == 0 {
        Seq::empty()
    } else {
        let before = hex_nibbles(text.drop_last());
        match hex_value(text.last()) {
            Some(v) => before.push(v),
            None => before,
        }
    }
}

/// Consecutive nibbles joined into bytes, high nibble first. A last nibble
/// without a partner is left out.
pub open spec fn pair_nibbles(nibbles: Seq<u8>) -> Seq<u8> {
    Seq::new(
        nibbles.len() / 2,
        |i: int| (nibbles[2 * i] as int * 16 + nibbles[2 * i + 1] as int) as u8,
    )
}

/// The bytes that `text` decodes to.
pub open spec fn hex_decode(text: Seq<char>) -> Seq<u8> {
    pair_nibbles(hex_nibbles(text))
}

/// `String::push` appends one character.
pub assume_specification[ String::push ](s: &mut String, ch: char)
    ensures
        final(s)@ == old(s)@.push(ch),
;

fn nibble_to_char(nibble: u8) -> (c: char)
    requires
        nibble < 16,
    ensures
        c == hex_digit(nibble as int),
{
    if nibble < 10 {
        (0x30u8 + nibble) as char
    } else {
        (0x61u8 + (nibble - 10)) as char
    }
}

/// Writes `bytes` as lowercase hexadecimal text, two digits per byte.
pub fn bytes_to_hex(bytes: &[u8]) -> (text: String)
    ensures
        text@ == hex_encode(bytes@),
        text@.len() == 2 * bytes@.len(),
{
    let mut text = String::new();
    let mut i: usize = 0;
    while i < bytes.len()
        invariant
            i <= bytes.len(),
            text@ == hex_encode(bytes@.take(i as int)),
        decreases bytes.len() - i,
    {
        let b: u8 = bytes[i];
        let hi: u8 = b >> 4;
        let lo: u8 = b & 0x0f;
        assert(hi == b / 16 && lo == b % 16) by (bit_vector)
            requires
                hi == b >> 4,
                lo == b & 0x0f,
        ;
        text.push(nibble_to_char(hi));
        text.push(nibble_to_char(lo));
        assert(text@ =~= hex_encode(bytes@.take(i as int + 1)));
        i += 1;
    }
    assert(bytes@.take(i as int) =~= bytes@);
    text
}

/// Writes `hash` as lowercase hexadecimal text, two digits per byte.
pub fn vec_to_hex(hash: Vec<u8>) -> (text: String)
    ensures
        text@ == hex_encode(hash@),
        text@.len() == 2 * hash@.len(),
{
    bytes_to_hex(hash.as_slice())
}

fn char_to_nibble(c: char) -> (v: Option<u8>)
    ensures
        v == hex_value(c),
        v matches Some(n) ==> n < 16,
{
    let code: u32 = c as u32;
    if 0x30 <= code && code <= 0x39 {
        Some((code - 0x30) as u8)
    } else if 0x61 <= code && code <= 0x66 {
        Some((code - 0x61 + 10) as u8)
    } else if 0x41 <= code && code <= 0x46 {
        Some((code - 0x41 + 10) as u8)
    } else {
        None
    }
}

/// The nibble that still waits for its partner after `nibbles` were read.
pub open spec fn unpaired_nibble(nibbles: Seq<u8>) -> Option<u8> {
    if nibbles.len() % 2 == 1 {
        Some(nibbles.last())
    } else {
        None
    }
}

/// Reads the bytes that `hex_str` spells, passing over every character that
/// is no hexadecimal digit.
pub fn parse_hex(hex_str: &str) -> (bytes: Vec<u8>)
    ensures
        bytes@ == hex_decode(hex_str@),
{
    let mut bytes: Vec<u8> = Vec::new();
    let mut high: Option<u8> = None;
    for c in it: hex_str.chars()
        invariant
            it.seq() == hex_str@,
            bytes@ == hex_decode(hex_str@.take(it.index())),
            high == unpaired_nibble(hex_nibbles(hex_str@.take(it.index()))),
            high matches Some(h) ==> h < 16,
    {
        assert(hex_str@.take(it.index() + 1).drop_last() =~= hex_str@.take(it.index()));
        match char_to_nibble(c) {
            Some(v) => {
                match high {
                    Some(h) => {
                        let b: u8 = h << 4 | v;
                        assert(b == h * 16 + v) by (bit_vector)
                            requires
                                h < 16,
                                v < 16,
                                b == h << 4 | v,
                        ;
                        bytes.push(b);
                        high = None;
                    },
                    None => {
                        high = Some(v);
                    },
                }
            },
            None => {},
        }
        assert(bytes@ =~= hex_decode(hex_str@.take(it.index() + 1)));
    }
    assert(hex_str@.take(hex_str@.len() as int) =~= hex_str@);
    bytes
}

/// Whether `text` is hexadecimal text and nothing else: digits of either
/// case alone, an even number of them.
pub open spec fn is_strict_hex(text: Seq<char>) -> bool {
    text.len() % 2 == 0 && forall|i: int| 0 <= i < text.len() ==> is_hex_digit(#[trigger] text[i])
}

/// Reads the bytes that `hex_str` spells, and refuses a text that holds
/// anything but pairs of hexadecimal digits. Where it reads bytes, they are
/// those that [`parse_hex`] reads.
pub fn parse_hex_strict(hex_str: &str) -> (bytes: Option<Vec<u8>>)
    ensures
        match bytes {
            Some(b) => is_strict_hex(hex_str@) && b@ == hex_decode(hex_str@) && 2 * b@.len()
                == hex_str@.len(),
            None => !is_strict_hex(hex_str@),
        },
{
    let mut even: bool = true;
    for c in it: hex_str.chars()
        invariant
            it.seq() == hex_str@,
            even == (it.index() % 2 == 0),
            forall|i: int| 0 <= i < it.index() ==> is_hex_digit(#[trigger] hex_str@[i]),
    {
        if char_to_nibble(c).is_none() {
            assert(!is_hex_digit(hex_str@[it.index()]));
            return None;
        }
        even = !even;
    }
    if !even {
        return None;
    }
    let bytes = parse_hex(hex_str);
    proof {
        lemma_hex_nibbles_of_digits(hex_str@);
    }
    Some(bytes)
}

/// The digits of two texts written one after the other are the digits of the
/// first followed by the digits of the second.
pub proof fn lemma_hex_nibbles_concat(a: Seq<char>, b: Seq<char>)
    ensures
        hex_nibbles(a + b) == hex_nibbles(a) + hex_nibbles(b),
    decreases b.len(),
{
    if b.len() == 0 {
        assert(a + b =~= a);
        assert(hex_nibbles(a) + hex_nibbles(b) =~= hex_nibbles(a));
    } else {
        lemma_hex_nibbles_concat(a, b.drop_last());
        assert((a + b).drop_last() =~= a + b.drop_last());
        assert((a + b).last() == b.last());
        assert(hex_nibbles(a + b) =~= hex_nibbles(a) + hex_nibbles(b));
    }
}

/// Every value among the digits of a text is below 16.
pub proof fn lemma_hex_nibbles_bound(text: Seq<char>)
    ensures
        forall|i: int| 0 <= i < hex_nibbles(text).len() ==> #[trigger] hex_nibbles(text)[i] < 16,
    decreases text.len(),
{
    if text.len() > 0 {
        let before = hex_nibbles(text.drop_last());
        lemma_hex_nibbles_bound(text.drop_last());
        assert forall|i: int| 0 <= i < hex_nibbles(text).len() implies #[trigger] hex_nibbles(
            text,
        )[i] < 16 by {
            if i < before.len() {
                assert(hex_nibbles(text)[i] == before[i]);
            }
        }
    }
}

/// The nibbles of `bytes`, high before low.
pub open spec fn nibbles_of(bytes: Seq<u8>) -> Seq<u8> {
    Seq::new(
        2 * bytes.len(),
        |i: int| if i % 2 == 0 {
            (bytes[i / 2] as int / 16) as u8
        } else {
            (bytes[i / 2] as int % 16) as u8
        },
    )
}

/// The digits of an encoded text are the nibbles of the bytes it was made of.
pub proof fn lemma_hex_nibbles_of_encode(bytes: Seq<u8>)
    ensures
        hex_nibbles(hex_encode(bytes)) == nibbles_of(bytes),
    decreases bytes.len(),
{
    if bytes.len() == 0 {
        assert(hex_encode(bytes) =~= Seq::<char>::empty());
        assert(nibbles_of(bytes) =~= Seq::<u8>::empty());
    } else {
        let init = bytes.drop_last();
        let b = bytes.last();
        let hi = hex_digit(b as int / 16);
        let lo = hex_digit(b as int % 16);
        let tail = seq![hi, lo];
        lemma_hex_nibbles_of_encode(init);
        assert(hex_encode(bytes) =~= hex_encode(init) + tail);
        lemma_hex_nibbles_concat(hex_encode(init), tail);
        assert(tail.drop_last() =~= seq![hi]);
        assert(seq![hi].drop_last() =~= Seq::<char>::empty());
        reveal_with_fuel(hex_nibbles, 3);
        assert(hex_nibbles(tail) =~= seq![(b as int / 16) as u8, (b as int % 16) as u8]);
        assert(nibbles_of(bytes) =~= nibbles_of(init) + hex_nibbles(tail));
    }
}

/// Decoding what was encoded gives the bytes back.
pub proof fn lemma_decode_encode(bytes: Seq<u8>)
    ensures
        hex_decode(hex_encode(bytes)) == bytes,
{
    lemma_hex_nibbles_of_encode(bytes);
    assert(pair_nibbles(nibbles_of(bytes)) =~= bytes);
}

/// A character that is no hexadecimal digit, wherever it stands, does not
/// change what a text decodes to.
pub proof fn lemma_decode_skips_other_chars(before: Seq<char>, c: char, after: Seq<char>)
    requires
        !is_hex_digit(c),
    ensures
        hex_decode(before + seq![c] + after) == hex_decode(before + after),
{
    lemma_hex_nibbles_concat(before + seq![c], after);
    lemma_hex_nibbles_concat(before, seq![c]);
    lemma_hex_nibbles_concat(before, after);
    assert(seq![c].drop_last() =~= Seq::<char>::empty());
    reveal_with_fuel(hex_nibbles, 2);
    assert(hex_nibbles(seq![c]) =~= Seq::<u8>::empty());
    assert(hex_nibbles(before) + hex_nibbles(seq![c]) =~= hex_nibbles(before));
}

/// Whether `c` is a hexadecimal digit as the encoder writes it: a decimal
/// digit or a lowercase letter from `a` to `f`.
pub open spec fn is_lower_hex_digit(c: char) -> bool {
    '0' <= c <= '9' || 'a' <= c <= 'f'
}

/// In a text of hexadecimal digits alone, every character is a digit that
/// counts.
proof fn lemma_hex_nibbles_of_digits(text: Seq<char>)
    requires
        forall|i: int| 0 <= i < text.len() ==> is_hex_digit(#[trigger] text[i]),
    ensures
        hex_nibbles(text).len() == text.len(),
        forall|i: int|
            0 <= i < text.len() ==> hex_value(text[i]) == Some(#[trigger] hex_nibbles(text)[i]),
    decreases text.len(),
{
    if text.len() > 0 {
        let init = text.drop_last();
        assert forall|i: int| 0 <= i < init.len() implies is_hex_digit(#[trigger] init[i]) by {
            assert(init[i] == text[i]);
        }
        lemma_hex_nibbles_of_digits(init);
        assert(is_hex_digit(text[text.len() - 1]));
        assert forall|i: int| 0 <= i < text.len() implies hex_value(text[i]) == Some(
            #[trigger] hex_nibbles(text)[i],
        ) by {
            if i < init.len() {
                assert(init[i] == text[i]);
                assert(hex_nibbles(text)[i] == hex_nibbles(init)[i]);
            }
        }
    }
}

/// Encoding what was decoded gives the text back, for a text that the
/// encoder could have written: lowercase digits, an even number of them.
pub proof fn lemma_encode_decode(text: Seq<char>)
    requires
        text.len() % 2 == 0,
        forall|i: int| 0 <= i < text.len() ==> is_lower_hex_digit(#[trigger] text[i]),
    ensures
        hex_encode(hex_decode(text)) == text,
{
    assert forall|i: int| 0 <= i < text.len() implies is_hex_digit(#[trigger] text[i]) by {
        assert(is_lower_hex_digit(text[i]));
    }
    lemma_hex_nibbles_of_digits(text);
    lemma_hex_nibbles_bound(text);
    let nibbles = hex_nibbles(text);
    let bytes = hex_decode(text);
    assert forall|i: int| 0 <= i < text.len() implies hex_encode(bytes)[i] == text[i] by {
        let k = i / 2;
        let hi = nibbles[2 * k];
        let lo = nibbles[2 * k + 1];
        assert(hi < 16 && lo < 16);
        assert(bytes[k] == hi * 16 + lo);
        assert(is_lower_hex_digit(text[i]));
        assert(hex_value(text[i]) == Some(nibbles[i]));
        if i % 2 == 0 {
            assert(nibbles[i] == hi);
        } else {
            assert(nibbles[i] == lo);
        }
    }
    assert(hex_encode(bytes) =~= text);
}

/// After an even number of digits, one more character at the end adds no
/// byte: a digit there has no partner and is dropped.
pub proof fn lemma_decode_drops_unpaired_digit(text: Seq<char>, c: char)
    requires
        hex_nibbles(text).len() % 2 == 0,
    ensures
        hex_decode(text.push(c)) == hex_decode(text),
{
    assert(text.push(c).drop_last() =~= text);
    assert(hex_decode(text.push(c)) =~= hex_decode(text));
}

} // verus!
