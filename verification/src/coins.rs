//! Amounts of coins.
//!
//! An amount is written in decimal, with up to nine decimals after the
//! point. Reading one is `safe_nd`'s work; this module decides which texts
//! are handed to it and what a caller gets back.

use crate::errors::{Error, ErrorView, ResultReturn};
use crate::text::{chars_of, decimal_u64, parse_u64, split_on, text_of};
use std::str::FromStr;
use vstd::prelude::*;
use vstd::string::*;

verus! {

/// The largest amount there is, in billionths of a coin.
pub const MAX_COINS_NANOS: u64 = 4_294_967_295_999_999_999;

/// The one number of whole coins on which the arithmetic of
/// `safe_nd::Coins::from_str` can leave the range of 64 bits: with it, whole
/// coins and decimals are added beyond that range.
pub const UNREADABLE_WHOLE_COINS: u64 = 18_446_744_073;

/// The longest text, in characters, that `safe_nd::Coins::from_str` measures
/// rightly: it counts decimals in 32 bits.
pub const MAX_AMOUNT_LEN: usize = 0xffff_ffff;

/// An amount of coins, counted in billionths of a coin.
#[derive(Debug, Clone, Copy, PartialEq, Eq)]
pub struct Coins {
    nanos: u64,
}

impl View for Coins {
    type V = u64;

    closed spec fn view(&self) -> u64 {
        self.nanos
    }
}

impl Coins {
    /// No amount exceeds [`MAX_COINS_NANOS`].
    #[verifier::type_invariant]
    pub closed spec fn wf(self) -> bool {
        self.nanos <= MAX_COINS_NANOS
    }

    /// The amount of `value` billionths of a coin, unless that is more than
    /// [`MAX_COINS_NANOS`].
    pub fn from_nano(value: u64) -> (amount: Option<Coins>)
        ensures
            amount matches Some(coins) ==> coins@ == value,
            amount is Some <==> value <= MAX_COINS_NANOS,
    {
        if value > MAX_COINS_NANOS {
            None
        } else {
            Some(Coins { nanos: value })
        }
    }

    /// The amount in billionths of a coin.
    pub fn as_nano(self) -> (value: u64)
        ensures
            value == self@,
            value <= MAX_COINS_NANOS,
    {
        proof {
            use_type_invariant(self);
        }
        self.nanos
    }
}

/// The amount, in billionths of a coin, that `safe_nd::Coins::from_str` reads
/// from a text; `None` where it reads none.
pub uninterp spec fn coins_of_text(text: Seq<char>) -> Option<u64>;

/// Whether a text can be handed to `safe_nd::Coins::from_str`: it is not
/// longer than [`MAX_AMOUNT_LEN`], and what stands before its first `.` is
/// not the number [`UNREADABLE_WHOLE_COINS`].
pub open spec fn amount_is_readable(text: Seq<char>) -> bool {
    text.len() <= MAX_AMOUNT_LEN && decimal_u64(split_on(text, '.')[0]) != Some(
        UNREADABLE_WHOLE_COINS,
    )
}

/// Calls `safe_nd::Coins::from_str` and, where that yields an amount,
/// `Coins::as_nano`. The contract leaves out the texts on which the
/// function's unchecked arithmetic can overflow. It claims only that the
/// outcome is a function of the text.
#[verifier::external_body]
fn coins_from_str(amount: &str) -> (nanos: Option<u64>)
    requires
        amount_is_readable(amount@),
    ensures
        nanos == coins_of_text(amount@),
{
    match safe_nd::Coins::from_str(amount) {
        Ok(coins) => Some(coins.as_nano()),
        Err(_) => None,
    }
}

/// The amount that a text states: what `safe_nd` reads from it, where the
/// text can be handed over at all.
pub open spec fn coins_amount(text: Seq<char>) -> Option<u64> {
    if amount_is_readable(text) {
        coins_of_text(text)
    } else {
        None
    }
}

/// Description of a text that states no amount.
pub open spec fn invalid_amount_text(text: Seq<char>) -> Seq<char> {
    "Invalid safecoins amount '"@ + text + "'"@
}

/// What a caller gets for the text `amount_str` once `nanos`, the amount
/// read from it, is known: that amount, unless none was read or it is more
/// than [`MAX_COINS_NANOS`].
pub open spec fn amount_outcome(amount_str: Seq<char>, nanos: Option<u64>) -> Result<
    u64,
    ErrorView,
> {
    match nanos {
        Some(n) if n <= MAX_COINS_NANOS => Ok(n),
        _ => Err(ErrorView::InvalidAmount(invalid_amount_text(amount_str))),
    }
}

/// Turns the amount read from `amount_str` into the caller's result: the
/// coins, or `InvalidAmount` with the text that stated none.
pub fn coins_or_invalid(amount_str: &str, nanos: Option<u64>) -> (outcome: ResultReturn<Coins>)
    ensures
        match amount_outcome(amount_str@, nanos) {
            Ok(n) => outcome matches Ok(coins) && coins@ == n,
            Err(reason) => outcome matches Err(e) && e@ == reason,
        },
{
    let amount = match nanos {
        Some(n) => Coins::from_nano(n),
        None => None,
    };
    match amount {
        Some(coins) => Ok(coins),
        None => {
            let message = "Invalid safecoins amount '".to_owned().concat(amount_str).concat("'");
            assert(message@ =~= invalid_amount_text(amount_str@));
            Err(Error::InvalidAmount(message))
        },
    }
}

fn is_readable(amount_str: &str) -> (readable: bool)
    ensures
        readable == amount_is_readable(amount_str@),
{
    let chars = chars_of(amount_str);
    if chars.len() > MAX_AMOUNT_LEN {
        return false;
    }
    let mut end: usize = 0;
    assert(chars@.take(0) =~= Seq::<char>::empty());
    while end < chars.len() && chars[end] != '.'
        invariant
            end <= chars@.len(),
            chars@ == amount_str@,
            split_on(chars@.take(end as int), '.') == seq![chars@.take(end as int)],
        decreases chars.len() - end,
    {
        proof {
            let seen = chars@.take(end as int);
            let grown = chars@.take(end as int + 1);
            assert(grown.drop_last() =~= seen);
            assert(seen.push(chars@[end as int]) =~= grown);
            assert(seq![seen].drop_last().push(grown) =~= seq![grown]);
        }
        end += 1;
    }
    proof {
        lemma_first_piece(chars@, end as int);
    }
    let whole = text_of(&chars, 0, end);
    assert(whole@ =~= chars@.take(end as int));
    match parse_u64(whole.as_str()) {
        Some(n) => n != UNREADABLE_WHOLE_COINS,
        None => true,
    }
}

/// Where `text` has no `.` before position `end`, and ends there or has a
/// `.` there, its first piece is what stands before `end`.
proof fn lemma_first_piece(text: Seq<char>, end: int)
    requires
        0 <= end <= text.len(),
        split_on(text.take(end), '.') == seq![text.take(end)],
        end == text.len() || text[end] == '.',
    ensures
        split_on(text, '.')[0] == text.take(end),
    decreases text.len(),
{
    if end == text.len() {
        assert(text.take(end) =~= text);
    } else {
        let init = text.drop_last();
        if end == text.len() - 1 {
            assert(init =~= text.take(end));
        } else {
            assert(init.take(end) =~= text.take(end));
            lemma_first_piece(init, end);
            crate::text::lemma_split_on(init, '.');
        }
    }
}

/// Reads an amount of coins.
///
/// Fails with `InvalidAmount` where the text states no amount.
pub fn parse_coins_amount(amount_str: &str) -> (outcome: ResultReturn<Coins>)
    ensures
        match amount_outcome(amount_str@, coins_amount(amount_str@)) {
            Ok(n) => outcome matches Ok(coins) && coins@ == n,
            Err(reason) => outcome matches Err(e) && e@ == reason,
        },
{
    let nanos = if is_readable(amount_str) {
        coins_from_str(amount_str)
    } else {
        None
    };
    coins_or_invalid(amount_str, nanos)
}

} // verus!
