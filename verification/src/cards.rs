use vstd::prelude::*;

verus! {

/// Number of distinct cards in a standard deck.
pub const NUMBER_OF_CARDS: usize = 52;

/// Bit position where the four 4-bit suit counters begin inside a hand key.
pub const SUIT_SHIFT: u64 = 48;

/// Isolates the overflow bit (value 8) of each of the four suit counters.
/// Once five cards of one suit have been accumulated, that suit's counter
/// reaches 3 + 5 = 8 and its overflow bit turns on: the flush signal.
pub const FLUSH_MASK: u64 = 0x8888_0000_0000_0000;

/// The empty hand's key: each of the four suit counters preset to 3.
pub const KEY_BIAS: u64 = 0x3333_0000_0000_0000;

/// A card identifier is `rank * 4 + suit`, with ranks 0 (deuce) through
/// 12 (ace) and suits 0 (club), 1 (diamond), 2 (heart), 3 (spade).
pub open spec fn rank_of(card: int) -> int {
    card / 4
}

pub open spec fn suit_of(card: int) -> int {
    card % 4
}

/// Weight of one card of rank `r` inside the rank-count region of a key.
/// Using powers of five makes the low 32 bits of a key a base-5 numeral
/// whose digits are the per-rank card counts (each at most 4), so the
/// rank-count region determines the multiset of rank counts exactly.
pub open spec fn pow5(r: int) -> int
    decreases r,
{
    if r <= 0 {
        1
    } else {
        5 * pow5(r - 1)
    }
}

/// Key contribution of a card: one step of its suit's 4-bit counter
/// (the high region) plus its rank weight (the low region).
pub open spec fn card_key(card: int) -> u64 {
    (((1u64 << ((SUIT_SHIFT + 4 * suit_of(card)) as u64)) as int) + pow5(rank_of(card))) as u64
}

/// Mask contribution of a card: a single bit, unique per card.  Each suit
/// owns a 16-bit lane (suit 0 the highest lane), and within a lane bit `r`
/// stands for rank `r`, so a lane is a 13-bit rank-presence mask.
pub open spec fn card_bit(card: int) -> u64 {
    1u64 << ((SUIT_SHIFT - 16 * suit_of(card) + rank_of(card)) as u64)
}

/// The rank weight `5^rank` as an executable table.
pub fn rank_weight(rank: u64) -> (r: u64)
    requires
        rank < 13,
    ensures
        r == pow5(rank as int),
        0 < r < 0x1_0000_0000,
{
    proof {
        reveal_with_fuel(pow5, 14);
    }
    match rank {
        0 => 1,
        1 => 5,
        2 => 25,
        3 => 125,
        4 => 625,
        5 => 3125,
        6 => 15625,
        7 => 78125,
        8 => 390625,
        9 => 1953125,
        10 => 9765625,
        11 => 48828125,
        _ => 244140625,
    }
}

/// The key and mask contributions of one card.
pub fn card_entry(card: usize) -> (r: (u64, u64))
    requires
        card < NUMBER_OF_CARDS,
    ensures
        r.0 == card_key(card as int),
        r.1 == card_bit(card as int),
{
    let rank: u64 = (card as u64) / 4;
    let suit: u64 = (card as u64) % 4;
    let counter_shift: u64 = SUIT_SHIFT + 4 * suit;
    let counter: u64 = 1u64 << counter_shift;
    proof {
        assert(counter <= 0x1000_0000_0000_0000u64) by (bit_vector)
            requires
                counter == 1u64 << counter_shift,
                counter_shift <= 60u64,
        ;
    }
    let key: u64 = counter + rank_weight(rank);
    let lane_shift: u64 = (SUIT_SHIFT - 16 * suit) + rank;
    let bit: u64 = 1u64 << lane_shift;
    (key, bit)
}

} // verus!
