use vstd::prelude::*;

use crate::cards::{card_bit, card_entry, card_key, rank_of, suit_of, KEY_BIAS, NUMBER_OF_CARDS, SUIT_SHIFT};
use crate::eval::{evaluate_spec, rank_value};

verus! {

/// Addition on `u64` that wraps around on overflow.
pub open spec fn wadd(a: u64, b: u64) -> u64 {
    if a + b > u64::MAX {
        (a + b - 0x1_0000_0000_0000_0000) as u64
    } else {
        (a + b) as u64
    }
}

/// Subtraction on `u64` that wraps around on underflow.
pub open spec fn wsub(a: u64, b: u64) -> u64 {
    if a - b < 0 {
        (a - b + 0x1_0000_0000_0000_0000) as u64
    } else {
        (a - b) as u64
    }
}

/// Number of set bits of a 64-bit word.
pub open spec fn popcount(x: u64) -> int
    decreases x,
{
    if x == 0 {
        0
    } else {
        (x % 2) + popcount(x / 2)
    }
}

proof fn lemma_popcount_bound(x: u64, b: int)
    requires
        0 <= b <= 64,
        x < vstd::arithmetic::power2::pow2(b as nat),
    ensures
        0 <= popcount(x) <= b,
    decreases b,
{
    if b == 0 {
        vstd::arithmetic::power2::lemma2_to64();
    } else {
        vstd::arithmetic::power2::lemma_pow2_unfold(b as nat);
        lemma_popcount_bound(x / 2, b - 1);
    }
}

/// A multiset of cards, packed into two 64-bit words: `key` holds four
/// 4-bit suit counters (biased to start at 3) above a base-5 rank-count
/// numeral, and `mask` holds one bit per card, one 16-bit lane per suit.
#[derive(Clone, Copy, Debug, PartialEq, Eq, Hash, Structural)]
pub struct Hand {
    key: u64,
    mask: u64,
}

impl Hand {
    pub closed spec fn spec_key(self) -> u64 {
        self.key
    }

    pub closed spec fn spec_mask(self) -> u64 {
        self.mask
    }

    /// The empty hand: no mask bits, every suit counter at its bias.
    pub closed spec fn spec_new() -> Hand {
        Hand { key: KEY_BIAS, mask: 0 }
    }

    pub closed spec fn spec_add_card(self, card: int) -> Hand {
        Hand { key: wadd(self.key, card_key(card)), mask: wadd(self.mask, card_bit(card)) }
    }

    pub closed spec fn spec_remove_card(self, card: int) -> Hand {
        Hand { key: wsub(self.key, card_key(card)), mask: wsub(self.mask, card_bit(card)) }
    }

    /// Merging sums keys and masks; one copy of the counter bias is
    /// subtracted, since each operand already carries one.
    pub closed spec fn spec_merge(self, other: Hand) -> Hand {
        Hand {
            key: wsub(wadd(self.key, other.key), KEY_BIAS),
            mask: wadd(self.mask, other.mask),
        }
    }

    /// The hand obtained by adding every card of `cards` in turn.
    pub open spec fn spec_from_cards(cards: Seq<usize>) -> Hand
        decreases cards.len(),
    {
        if cards.len() == 0 {
            Hand::spec_new()
        } else {
            Hand::spec_from_cards(cards.drop_last()).spec_add_card(cards.last() as int)
        }
    }

    /// Creates an empty hand.
    pub fn new() -> (r: Self)
        ensures
            r == Hand::spec_new(),
            r.spec_key() == KEY_BIAS,
            r.spec_mask() == 0,
    {
        Self { key: KEY_BIAS, mask: 0 }
    }

    /// Creates a hand holding the cards of `cards`, which must all be
    /// distinct identifiers in [0, 51].
    pub fn from_slice(cards: &[usize]) -> (r: Self)
        requires
            forall|i: int| 0 <= i < cards@.len() ==> cards@[i] < NUMBER_OF_CARDS,
        ensures
            r == Hand::spec_from_cards(cards@),
    {
        let mut hand = Self::new();
        let n = cards.len();
        let mut i: usize = 0;
        while i < n
            invariant
                n == cards@.len(),
                i <= n,
                forall|j: int| 0 <= j < cards@.len() ==> cards@[j] < NUMBER_OF_CARDS,
                hand == Hand::spec_from_cards(cards@.subrange(0, i as int)),
            decreases n - i,
        {
            proof {
                assert(cards@.subrange(0, i + 1).drop_last() =~= cards@.subrange(0, i as int));
            }
            hand = hand.add_card(cards[i]);
            i += 1;
        }
        proof {
            assert(cards@.subrange(0, n as int) =~= cards@);
        }
        hand
    }

    /// Whether the hand holds no cards.
    pub fn is_empty(&self) -> (r: bool)
        ensures
            r == (self.spec_mask() == 0),
    {
        self.mask == 0
    }

    /// Number of cards in the hand.
    pub fn len(&self) -> (r: usize)
        ensures
            r == popcount(self.spec_mask()),
    {
        proof {
            vstd::arithmetic::power2::lemma2_to64_rest();
            lemma_popcount_bound(self.mask, 64);
        }
        let mut x: u64 = self.mask;
        let mut n: usize = 0;
        while x != 0
            invariant
                n + popcount(x) == popcount(self.spec_mask()),
                0 <= popcount(x) <= 64,
                popcount(self.spec_mask()) <= 64,
            decreases x,
        {
            proof {
                assert(x & 1 == x % 2) by (bit_vector);
                assert(x >> 1u64 == x / 2) by (bit_vector);
            }
            n = n + ((x & 1) as usize);
            x = x >> 1u64;
            proof {
                vstd::arithmetic::power2::lemma2_to64_rest();
                lemma_popcount_bound(x, 64);
            }
        }
        n
    }

    /// The card-presence bit mask of the hand.
    pub fn get_mask(&self) -> (r: u64)
        ensures
            r == self.spec_mask(),
    {
        self.mask
    }

    /// Whether `card` is present in the hand.
    pub fn contains(&self, card: usize) -> (r: bool)
        requires
            card < NUMBER_OF_CARDS,
        ensures
            r == ((self.spec_mask() & card_bit(card as int)) != 0),
    {
        let (_, bit) = card_entry(card);
        (self.mask & bit) != 0
    }

    /// Returns the hand extended with `card`, which must be in [0, 51]
    /// and not yet present (no check is made: adding a duplicate wraps
    /// the packed counters and yields a garbage hand).
    pub fn add_card(&self, card: usize) -> (r: Self)
        requires
            card < NUMBER_OF_CARDS,
        ensures
            r == self.spec_add_card(card as int),
            r.spec_key() == wadd(self.spec_key(), card_key(card as int)),
            r.spec_mask() == wadd(self.spec_mask(), card_bit(card as int)),
    {
        let (k, m) = card_entry(card);
        Self { key: self.key.wrapping_add(k), mask: self.mask.wrapping_add(m) }
    }

    /// Returns the hand with `card` taken out; `card` must be in [0, 51]
    /// and present (no check is made).
    pub fn remove_card(&self, card: usize) -> (r: Self)
        requires
            card < NUMBER_OF_CARDS,
        ensures
            r == self.spec_remove_card(card as int),
            r.spec_key() == wsub(self.spec_key(), card_key(card as int)),
            r.spec_mask() == wsub(self.spec_mask(), card_bit(card as int)),
    {
        let (k, m) = card_entry(card);
        Self { key: self.key.wrapping_sub(k), mask: self.mask.wrapping_sub(m) }
    }

    /// Combines two disjoint hands (for example hole cards and board).
    pub fn merge(self, other: Self) -> (r: Self)
        ensures
            r == self.spec_merge(other),
            r.spec_key() == wsub(wadd(self.spec_key(), other.spec_key()), KEY_BIAS),
            r.spec_mask() == wadd(self.spec_mask(), other.spec_mask()),
    {
        Self {
            key: self.key.wrapping_add(other.key).wrapping_sub(KEY_BIAS),
            mask: self.mask.wrapping_add(other.mask),
        }
    }

    /// Strength of the hand as a 16-bit code: the top four bits hold the
    /// category, the low twelve an index that grows with strength inside
    /// the category.  Meaningful only for hands of 5 to 7 distinct cards;
    /// any other hand yields a garbage (but stable) code.
    pub fn evaluate(&self) -> (r: u16)
        ensures
            r == evaluate_spec(self.spec_key(), self.spec_mask()),
            r >> 12u16 < 9,
    {
        proof {
            crate::eval::lemma_evaluate_category_in_range(self.key, self.mask);
        }
        rank_value(self.key, self.mask)
    }
}

proof fn lemma_popcount_or(x: u64, y: u64)
    requires
        x & y == 0,
    ensures
        popcount(x | y) == popcount(x) + popcount(y),
    decreases x + y,
{
    if x == 0 {
        assert(x | y == y) by (bit_vector)
            requires
                x == 0u64,
        ;
    } else if y == 0 {
        assert(x | y == x) by (bit_vector)
            requires
                y == 0u64,
        ;
    } else {
        assert((x | y) % 2 == x % 2 + y % 2) by (bit_vector)
            requires
                x & y == 0u64,
        ;
        assert((x | y) / 2 == (x / 2) | (y / 2)) by (bit_vector);
        assert((x / 2) & (y / 2) == 0) by (bit_vector)
            requires
                x & y == 0u64,
        ;
        lemma_popcount_or(x / 2, y / 2);
    }
}

proof fn lemma_popcount_single_bit(sh: u64)
    requires
        sh < 64,
    ensures
        popcount(1u64 << sh) == 1,
    decreases sh,
{
    if sh == 0 {
        assert(1u64 << sh == 1) by (bit_vector)
            requires
                sh == 0u64,
        ;
        assert(popcount(0) == 0);
    } else {
        let prev = (sh - 1) as u64;
        assert((1u64 << sh) % 2 == 0 && (1u64 << sh) / 2 == 1u64 << prev && 1u64 << sh != 0)
            by (bit_vector)
            requires
                0u64 < sh < 64u64,
                prev == (sh - 1) as u64,
        ;
        lemma_popcount_single_bit(prev);
    }
}

/// Adding a card that is not yet present grows the hand by exactly one
/// card: the new mask bit lands in an empty position, so the card count
/// (the mask's popcount) goes up by one.
pub proof fn lemma_add_card_increments_len(h: Hand, card: int)
    requires
        0 <= card < NUMBER_OF_CARDS,
        h.spec_mask() & card_bit(card) == 0,
    ensures
        popcount(h.spec_add_card(card).spec_mask()) == popcount(h.spec_mask()) + 1,
{
    let m = h.spec_mask();
    let b = card_bit(card);
    assert(m & b == 0 ==> m + b <= u64::MAX && (m + b) as u64 == (m | b)) by (bit_vector);
    lemma_popcount_or(m, b);
    lemma_popcount_single_bit((SUIT_SHIFT - 16 * suit_of(card) + rank_of(card)) as u64);
}

/// Removing a card undoes adding it.
pub proof fn lemma_remove_undoes_add(h: Hand, card: int)
    ensures
        h.spec_add_card(card).spec_remove_card(card) == h,
{
}

/// Merging two hands does not depend on the order of the operands.
pub proof fn lemma_merge_commutative(a: Hand, b: Hand)
    ensures
        a.spec_merge(b) == b.spec_merge(a),
{
}

/// Merging is associative: hands may be combined in any grouping.
pub proof fn lemma_merge_associative(a: Hand, b: Hand, c: Hand)
    ensures
        a.spec_merge(b).spec_merge(c) == a.spec_merge(b.spec_merge(c)),
{
}

/// A card may be added to either side of a merge with the same outcome.
pub proof fn lemma_merge_add_card(a: Hand, b: Hand, card: int)
    ensures
        a.spec_add_card(card).spec_merge(b) == a.spec_merge(b.spec_add_card(card)),
{
}

/// The empty hand is the identity of merging.
pub proof fn lemma_merge_identity(a: Hand)
    ensures
        a.spec_merge(Hand::spec_new()) == a,
{
}

impl core::ops::Add for Hand {
    type Output = Hand;

    /// Merges two disjoint hands, written `hole + board`.
    fn add(self, rhs: Hand) -> (r: Hand) {
        self.merge(rhs)
    }
}

impl vstd::std_specs::ops::AddSpecImpl for Hand {
    open spec fn obeys_add_spec() -> bool {
        true
    }

    open spec fn add_req(self, rhs: Hand) -> bool {
        true
    }

    open spec fn add_spec(self, rhs: Hand) -> Hand {
        self.spec_merge(rhs)
    }
}

impl Default for Hand {
    /// The default hand is the empty hand.
    fn default() -> (r: Self)
        ensures
            r == Hand::spec_new(),
    {
        Self::new()
    }
}

} // verus!
