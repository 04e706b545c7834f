use vstd::prelude::*;

use crate::cards::{pow5, rank_weight, FLUSH_MASK};

verus! {

/// The nine hand categories, ordered by increasing poker strength.
#[derive(Clone, Copy, Debug, PartialEq, Eq, PartialOrd, Ord, Hash, Structural)]
pub enum HandCategory {
    HighCard,
    OnePair,
    TwoPair,
    ThreeOfAKind,
    Straight,
    Flush,
    FullHouse,
    FourOfAKind,
    StraightFlush,
}

pub open spec fn spec_category_of(hand_rank: u16) -> HandCategory {
    let code = hand_rank >> 12u16;
    if code == 0 {
        HandCategory::HighCard
    } else if code == 1 {
        HandCategory::OnePair
    } else if code == 2 {
        HandCategory::TwoPair
    } else if code == 3 {
        HandCategory::ThreeOfAKind
    } else if code == 4 {
        HandCategory::Straight
    } else if code == 5 {
        HandCategory::Flush
    } else if code == 6 {
        HandCategory::FullHouse
    } else if code == 7 {
        HandCategory::FourOfAKind
    } else {
        HandCategory::StraightFlush
    }
}

/// The category encoded in the top four bits of a hand rank.  Rank codes
/// produced by evaluation always carry a category of at most 8.
pub fn get_hand_category(hand_rank: u16) -> (c: HandCategory)
    requires
        hand_rank >> 12u16 < 9,
    ensures
        c == spec_category_of(hand_rank),
{
    let code = hand_rank >> 12u16;
    match code {
        0 => HandCategory::HighCard,
        1 => HandCategory::OnePair,
        2 => HandCategory::TwoPair,
        3 => HandCategory::ThreeOfAKind,
        4 => HandCategory::Straight,
        5 => HandCategory::Flush,
        6 => HandCategory::FullHouse,
        7 => HandCategory::FourOfAKind,
        _ => HandCategory::StraightFlush,
    }
}

/// A rank code of a weaker category is smaller than one of a stronger
/// category, whatever the within-category indices: the category sits in
/// the high bits, the index in the low twelve.
pub proof fn lemma_rank_orders_categories(r1: u16, r2: u16)
    requires
        r1 >> 12u16 < r2 >> 12u16,
    ensures
        r1 < r2,
{
    assert(r1 >> 12u16 < r2 >> 12u16 ==> r1 < r2) by (bit_vector);
}

/// Inside one category, the low twelve bits decide: the hand whose
/// within-category index is larger gets the larger rank code.
pub proof fn lemma_index_orders_within_category(r1: u16, r2: u16)
    requires
        r1 >> 12u16 == r2 >> 12u16,
        (r1 & 0xFFF) < (r2 & 0xFFF),
    ensures
        r1 < r2,
{
    assert(r1 >> 12u16 == r2 >> 12u16 && (r1 & 0xFFF) < (r2 & 0xFFF) ==> r1 < r2) by (bit_vector);
}

/// How many cards of rank `r` a rank-count key holds: digit `r` of the
/// base-5 numeral.
pub open spec fn rank_count(rk: u32, r: int) -> int {
    (rk as int / pow5(r)) % 5
}

fn rank_count_exec(rk: u32, r: u32) -> (c: u64)
    requires
        r < 13,
    ensures
        c == rank_count(rk, r as int),
{
    ((rk as u64) / rank_weight(r as u64)) % 5
}

/// The highest rank below `hi` whose count is at least `want`, or 13
/// when there is none.
pub open spec fn spec_find_rank(rk: u32, want: int, hi: int) -> u32
    decreases hi,
{
    if hi <= 0 {
        13u32
    } else if rank_count(rk, hi - 1) >= want {
        (hi - 1) as u32
    } else {
        spec_find_rank(rk, want, hi - 1)
    }
}

fn find_rank(rk: u32, want: u64, hi: u32) -> (res: u32)
    requires
        hi <= 13,
    ensures
        res == spec_find_rank(rk, want as int, hi as int),
        res == 13 || res < hi,
    decreases hi,
{
    if hi == 0 {
        13
    } else if rank_count_exec(rk, hi - 1) >= want {
        hi - 1
    } else {
        find_rank(rk, want, hi - 1)
    }
}

/// How many ranks below `hi` have a count of at least `want`.
pub open spec fn spec_num_ranks(rk: u32, want: int, hi: int) -> int
    decreases hi,
{
    if hi <= 0 {
        0
    } else {
        (if rank_count(rk, hi - 1) >= want {
            1int
        } else {
            0int
        }) + spec_num_ranks(rk, want, hi - 1)
    }
}

fn num_ranks(rk: u32, want: u64, hi: u32) -> (res: u32)
    requires
        hi <= 13,
    ensures
        res == spec_num_ranks(rk, want as int, hi as int),
        res <= hi,
    decreases hi,
{
    if hi == 0 {
        0
    } else {
        let rest = num_ranks(rk, want, hi - 1);
        if rank_count_exec(rk, hi - 1) >= want {
            rest + 1
        } else {
            rest
        }
    }
}

/// The 13-bit rank-presence mask of a rank-count key: bit `r` is set
/// when at least one card of rank `r` is present.
pub open spec fn spec_presence(rk: u32, hi: int) -> u16
    decreases hi,
{
    if hi <= 0 {
        0u16
    } else if rank_count(rk, hi - 1) >= 1 {
        spec_presence(rk, hi - 1) | (1u16 << ((hi - 1) as u16))
    } else {
        spec_presence(rk, hi - 1)
    }
}

fn presence(rk: u32, hi: u32) -> (p: u16)
    requires
        hi <= 13,
    ensures
        p == spec_presence(rk, hi as int),
    decreases hi,
{
    if hi == 0 {
        0
    } else {
        let rest = presence(rk, hi - 1);
        if rank_count_exec(rk, hi - 1) >= 1 {
            rest | (1u16 << ((hi - 1) as u16))
        } else {
            rest
        }
    }
}

/// The highest set bit of a 13-bit presence mask (0 when empty).
pub open spec fn spec_top1(p: u16) -> u32 {
    if p & 0x1000 != 0 {
        12u32
    } else if p & 0x800 != 0 {
        11u32
    } else if p & 0x400 != 0 {
        10u32
    } else if p & 0x200 != 0 {
        9u32
    } else if p & 0x100 != 0 {
        8u32
    } else if p & 0x80 != 0 {
        7u32
    } else if p & 0x40 != 0 {
        6u32
    } else if p & 0x20 != 0 {
        5u32
    } else if p & 0x10 != 0 {
        4u32
    } else if p & 0x8 != 0 {
        3u32
    } else if p & 0x4 != 0 {
        2u32
    } else if p & 0x2 != 0 {
        1u32
    } else {
        0u32
    }
}

fn top1(p: u16) -> (r: u32)
    ensures
        r == spec_top1(p),
        r <= 12,
{
    if p & 0x1000 != 0 {
        12
    } else if p & 0x800 != 0 {
        11
    } else if p & 0x400 != 0 {
        10
    } else if p & 0x200 != 0 {
        9
    } else if p & 0x100 != 0 {
        8
    } else if p & 0x80 != 0 {
        7
    } else if p & 0x40 != 0 {
        6
    } else if p & 0x20 != 0 {
        5
    } else if p & 0x10 != 0 {
        4
    } else if p & 0x8 != 0 {
        3
    } else if p & 0x4 != 0 {
        2
    } else if p & 0x2 != 0 {
        1
    } else {
        0
    }
}

/// The presence mask with the bit of rank `r` cleared.
pub open spec fn spec_clear(p: u16, r: u32) -> u16 {
    p & !(1u16 << (r as u16))
}

fn clear_rank(p: u16, r: u32) -> (res: u16)
    requires
        r <= 13,
    ensures
        res == spec_clear(p, r),
{
    p & !(1u16 << (r as u16))
}

/// Binomial coefficients over 13 ranks, as small tables.
pub open spec fn binom2(n: int) -> int {
    n * (n - 1) / 2
}

pub open spec fn binom3(n: int) -> int {
    n * (n - 1) * (n - 2) / 6
}

pub open spec fn binom4(n: int) -> int {
    n * (n - 1) * (n - 2) * (n - 3) / 24
}

pub open spec fn binom5(n: int) -> int {
    n * (n - 1) * (n - 2) * (n - 3) * (n - 4) / 120
}

fn binom2_exec(n: u32) -> (r: u32)
    requires
        n <= 13,
    ensures
        r == binom2(n as int),
        r <= 78,
{
    if n < 2 {
        proof {
            assert(n < 2 ==> n * (n - 1) / 2 == 0) by (nonlinear_arith);
        }
        0
    } else {
        proof {
            assert(n * (n - 1) <= 156) by (nonlinear_arith)
                requires
                    n <= 13u32,
            ;
        }
        let m = n * (n - 1);
        m / 2
    }
}

fn binom3_exec(n: u32) -> (r: u32)
    requires
        n <= 13,
    ensures
        r == binom3(n as int),
        r <= 286,
{
    if n < 3 {
        proof {
            assert(n < 3 ==> n * (n - 1) * (n - 2) / 6 == 0) by (nonlinear_arith);
        }
        0
    } else {
        proof {
            assert(n * (n - 1) <= 156 && n * (n - 1) * (n - 2) <= 1716) by (nonlinear_arith)
                requires
                    n <= 13u32,
            ;
        }
        let m = n * (n - 1) * (n - 2);
        m / 6
    }
}

fn binom4_exec(n: u32) -> (r: u32)
    requires
        n <= 13,
    ensures
        r == binom4(n as int),
        r <= 715,
{
    if n < 4 {
        proof {
            assert(n < 4 ==> n * (n - 1) * (n - 2) * (n - 3) / 24 == 0) by (nonlinear_arith);
        }
        0
    } else {
        proof {
            assert(n * (n - 1) <= 156 && n * (n - 1) * (n - 2) <= 1716 && n * (n - 1) * (n - 2) * (
            n - 3) <= 17160) by (nonlinear_arith)
                requires
                    n <= 13u32,
            ;
        }
        let m = n * (n - 1) * (n - 2) * (n - 3);
        m / 24
    }
}

fn binom5_exec(n: u32) -> (r: u32)
    requires
        n <= 13,
    ensures
        r == binom5(n as int),
        r <= 1287,
{
    if n < 5 {
        proof {
            assert(n < 5 ==> n * (n - 1) * (n - 2) * (n - 3) * (n - 4) / 120 == 0)
                by (nonlinear_arith);
        }
        0
    } else {
        proof {
            assert(n * (n - 1) <= 156 && n * (n - 1) * (n - 2) <= 1716 && n * (n - 1) * (n - 2) * (
            n - 3) <= 17160 && n * (n - 1) * (n - 2) * (n - 3) * (n - 4) <= 154440)
                by (nonlinear_arith)
                requires
                    n <= 13u32,
            ;
        }
        let m = n * (n - 1) * (n - 2) * (n - 3) * (n - 4);
        m / 120
    }
}

/// Position of the five-card rank set `a > b > c > d > e` in the
/// ordering of all such sets by increasing strength (the combinatorial
/// number system).
pub open spec fn spec_idx5(a: int, b: int, c: int, d: int, e: int) -> int {
    binom5(a) + binom4(b) + binom3(c) + binom2(d) + e
}

/// How many of the ten straight rank sets sit strictly below position
/// `v` in that same ordering.
pub open spec fn spec_straights_below(v: int) -> int {
    (if v > 0 {
        1int
    } else {
        0int
    }) + (if v > 5 {
        1int
    } else {
        0int
    }) + (if v > 20 {
        1int
    } else {
        0int
    }) + (if v > 55 {
        1int
    } else {
        0int
    }) + (if v > 125 {
        1int
    } else {
        0int
    }) + (if v > 251 {
        1int
    } else {
        0int
    }) + (if v > 461 {
        1int
    } else {
        0int
    }) + (if v > 791 {
        1int
    } else {
        0int
    }) + (if v > 792 {
        1int
    } else {
        0int
    }) + (if v > 1286 {
        1int
    } else {
        0int
    })
}

fn straights_below(v: u32) -> (r: u32)
    ensures
        r == spec_straights_below(v as int),
        r <= v,
        r <= 10,
{
    let mut r: u32 = 0;
    if v > 0 {
        r += 1;
    }
    if v > 5 {
        r += 1;
    }
    if v > 20 {
        r += 1;
    }
    if v > 55 {
        r += 1;
    }
    if v > 125 {
        r += 1;
    }
    if v > 251 {
        r += 1;
    }
    if v > 461 {
        r += 1;
    }
    if v > 791 {
        r += 1;
    }
    if v > 792 {
        r += 1;
    }
    if v > 1286 {
        r += 1;
    }
    r
}

/// The highest rank completing a five-in-a-row run of the presence mask
/// (3 stands for the ace-low wheel), or 13 when there is no straight.
pub open spec fn spec_straight_high(p: u16) -> u32 {
    if (p >> 8u16) & 0x1F == 0x1F {
        12u32
    } else if (p >> 7u16) & 0x1F == 0x1F {
        11u32
    } else if (p >> 6u16) & 0x1F == 0x1F {
        10u32
    } else if (p >> 5u16) & 0x1F == 0x1F {
        9u32
    } else if (p >> 4u16) & 0x1F == 0x1F {
        8u32
    } else if (p >> 3u16) & 0x1F == 0x1F {
        7u32
    } else if (p >> 2u16) & 0x1F == 0x1F {
        6u32
    } else if (p >> 1u16) & 0x1F == 0x1F {
        5u32
    } else if p & 0x1F == 0x1F {
        4u32
    } else if p & 0x100F == 0x100F {
        3u32
    } else {
        13u32
    }
}

fn straight_high(p: u16) -> (r: u32)
    ensures
        r == spec_straight_high(p),
        3 <= r <= 13,
{
    if (p >> 8u16) & 0x1F == 0x1F {
        12
    } else if (p >> 7u16) & 0x1F == 0x1F {
        11
    } else if (p >> 6u16) & 0x1F == 0x1F {
        10
    } else if (p >> 5u16) & 0x1F == 0x1F {
        9
    } else if (p >> 4u16) & 0x1F == 0x1F {
        8
    } else if (p >> 3u16) & 0x1F == 0x1F {
        7
    } else if (p >> 2u16) & 0x1F == 0x1F {
        6
    } else if (p >> 1u16) & 0x1F == 0x1F {
        5
    } else if p & 0x1F == 0x1F {
        4
    } else if p & 0x100F == 0x100F {
        3
    } else {
        13
    }
}

/// A kicker rank renumbered among the ranks other than `skip`.
pub open spec fn spec_adj1(k: u32, skip: u32) -> int {
    if k > skip {
        k - 1
    } else {
        k as int
    }
}

fn adj1(k: u32, skip: u32) -> (r: u32)
    requires
        k <= 13,
    ensures
        r == spec_adj1(k, skip),
        r <= 13,
{
    if k > skip {
        k - 1
    } else {
        k
    }
}

/// A kicker rank renumbered among the ranks other than `s1` and `s2`
/// (for two distinct skipped ranks below the kicker this subtracts 2).
pub open spec fn spec_adj2(k: u32, s1: u32, s2: u32) -> int {
    let a = if k > s1 {
        k - 1
    } else {
        k as int
    };
    if k > s2 && a > 0 {
        a - 1
    } else {
        a
    }
}

fn adj2(k: u32, s1: u32, s2: u32) -> (r: u32)
    requires
        k <= 13,
    ensures
        r == spec_adj2(k, s1, s2),
        r <= 13,
{
    let a = if k > s1 {
        k - 1
    } else {
        k
    };
    if k > s2 && a > 0 {
        a - 1
    } else {
        a
    }
}

/// Rank code of a flush hand, from the 13-bit rank-presence mask of the
/// flush suit's lane: a straight flush ranks by its high card, any other
/// flush by the position of its best five ranks among all five-rank
/// sets, with the straight sets taken out.
pub open spec fn spec_flush_rank(lane: u16) -> u16 {
    let p = lane & 0x1FFF;
    let sh = spec_straight_high(p);
    if sh < 13 {
        (0x8000 + (sh - 3)) as u16
    } else {
        let a = spec_top1(p);
        let p1 = spec_clear(p, a);
        let b = spec_top1(p1);
        let p2 = spec_clear(p1, b);
        let c = spec_top1(p2);
        let p3 = spec_clear(p2, c);
        let d = spec_top1(p3);
        let p4 = spec_clear(p3, d);
        let e = spec_top1(p4);
        let v = spec_idx5(a as int, b as int, c as int, d as int, e as int);
        (0x5000 + v - spec_straights_below(v)) as u16
    }
}

fn flush_rank(lane: u16) -> (r: u16)
    ensures
        r == spec_flush_rank(lane),
{
    let p = lane & 0x1FFF;
    let sh = straight_high(p);
    if sh < 13 {
        (0x8000 + (sh - 3)) as u16
    } else {
        let a = top1(p);
        let p1 = clear_rank(p, a);
        let b = top1(p1);
        let p2 = clear_rank(p1, b);
        let c = top1(p2);
        let p3 = clear_rank(p2, c);
        let d = top1(p3);
        let p4 = clear_rank(p3, d);
        let e = top1(p4);
        let v = binom5_exec(a) + binom4_exec(b) + binom3_exec(c) + binom2_exec(d) + e;
        let idx = v - straights_below(v);
        (0x5000 + idx) as u16
    }
}

/// Rank code of a non-flush hand, from its rank-count key.  The category
/// comes first from the count multiset (with a straight ranked between
/// three of a kind and a full house), then the index orders the hands of
/// the category by the deciding ranks and renumbered kickers.
pub open spec fn spec_nonflush_rank(rk: u32) -> u16 {
    let pres = spec_presence(rk, 13);
    let q = spec_find_rank(rk, 4, 13);
    if q < 13 {
        let k = spec_top1(spec_clear(pres, q));
        (0x7000 + 12 * q + spec_adj1(k, q)) as u16
    } else {
        let t = spec_find_rank(rk, 3, 13);
        let npair = spec_num_ranks(rk, 2, 13);
        if t < 13 && npair >= 2 {
            let p1 = spec_find_rank(rk, 2, 13);
            let p = if p1 == t {
                spec_find_rank(rk, 2, t as int)
            } else {
                p1
            };
            (0x6000 + 12 * t + spec_adj1(p, t)) as u16
        } else {
            let sh = spec_straight_high(pres);
            if sh < 13 {
                (0x4000 + (sh - 3)) as u16
            } else if t < 13 {
                let pk = spec_clear(pres, t);
                let k1 = spec_top1(pk);
                let k2 = spec_top1(spec_clear(pk, k1));
                (0x3000 + 66 * t + binom2(spec_adj1(k1, t)) + spec_adj1(k2, t)) as u16
            } else if npair >= 2 {
                let p1 = spec_find_rank(rk, 2, 13);
                let p2 = spec_find_rank(rk, 2, p1 as int);
                let k = spec_top1(spec_clear(spec_clear(pres, p1), p2));
                (0x2000 + 11 * (binom2(p1 as int) + p2) + spec_adj2(k, p1, p2)) as u16
            } else if npair == 1 {
                let p = spec_find_rank(rk, 2, 13);
                let pk = spec_clear(pres, p);
                let a = spec_top1(pk);
                let b = spec_top1(spec_clear(pk, a));
                let c = spec_top1(spec_clear(spec_clear(pk, a), b));
                (0x1000 + 220 * p + binom3(spec_adj1(a, p)) + binom2(spec_adj1(b, p))
                    + spec_adj1(c, p)) as u16
            } else {
                let a = spec_top1(pres);
                let p1 = spec_clear(pres, a);
                let b = spec_top1(p1);
                let p2 = spec_clear(p1, b);
                let c = spec_top1(p2);
                let p3 = spec_clear(p2, c);
                let d = spec_top1(p3);
                let p4 = spec_clear(p3, d);
                let e = spec_top1(p4);
                let v = spec_idx5(a as int, b as int, c as int, d as int, e as int);
                (v - spec_straights_below(v)) as u16
            }
        }
    }
}

fn nonflush_rank(rk: u32) -> (r: u16)
    ensures
        r == spec_nonflush_rank(rk),
{
    let pres = presence(rk, 13);
    let q = find_rank(rk, 4, 13);
    if q < 13 {
        let k = top1(clear_rank(pres, q));
        (0x7000 + 12 * q + adj1(k, q)) as u16
    } else {
        let t = find_rank(rk, 3, 13);
        let npair = num_ranks(rk, 2, 13);
        if t < 13 && npair >= 2 {
            let p1 = find_rank(rk, 2, 13);
            let p = if p1 == t {
                find_rank(rk, 2, t)
            } else {
                p1
            };
            (0x6000 + 12 * t + adj1(p, t)) as u16
        } else {
            let sh = straight_high(pres);
            if sh < 13 {
                (0x4000 + (sh - 3)) as u16
            } else if t < 13 {
                let pk = clear_rank(pres, t);
                let k1 = top1(pk);
                let k2 = top1(clear_rank(pk, k1));
                (0x3000 + 66 * t + binom2_exec(adj1(k1, t)) + adj1(k2, t)) as u16
            } else if npair >= 2 {
                let p1 = find_rank(rk, 2, 13);
                let p2 = find_rank(rk, 2, p1);
                let k = top1(clear_rank(clear_rank(pres, p1), p2));
                (0x2000 + 11 * (binom2_exec(p1) + p2) + adj2(k, p1, p2)) as u16
            } else if npair == 1 {
                let p = find_rank(rk, 2, 13);
                let pk = clear_rank(pres, p);
                let a = top1(pk);
                let b = top1(clear_rank(pk, a));
                let c = top1(clear_rank(clear_rank(pk, a), b));
                (0x1000 + 220 * p + binom3_exec(adj1(a, p)) + binom2_exec(adj1(b, p)) + adj1(
                    c,
                    p,
                )) as u16
            } else {
                let a = top1(pres);
                let p1 = clear_rank(pres, a);
                let b = top1(p1);
                let p2 = clear_rank(p1, b);
                let c = top1(p2);
                let p3 = clear_rank(p2, c);
                let d = top1(p3);
                let p4 = clear_rank(p3, d);
                let e = top1(p4);
                let v = binom5_exec(a) + binom4_exec(b) + binom3_exec(c) + binom2_exec(d) + e;
                let idx = v - straights_below(v);
                idx as u16
            }
        }
    }
}

/// Which suit's 16-bit lane of the mask holds the flush suit, as a right
/// shift, decided by the highest set suit-counter overflow bit.
pub open spec fn spec_flush_lane_shift(key: u64) -> u64 {
    if key & 0x8000_0000_0000_0000 != 0 {
        0u64
    } else if key & 0x0800_0000_0000_0000 != 0 {
        16u64
    } else if key & 0x0080_0000_0000_0000 != 0 {
        32u64
    } else {
        48u64
    }
}

/// The strength of the hand packed as `(key, mask)`: if some suit
/// counter has overflowed, the flush path ranks that suit's lane of the
/// mask; otherwise the rank-count region of the key decides alone.
pub open spec fn evaluate_spec(key: u64, mask: u64) -> u16 {
    if key & FLUSH_MASK != 0 {
        spec_flush_rank((mask >> spec_flush_lane_shift(key)) as u16)
    } else {
        spec_nonflush_rank(key as u32)
    }
}

proof fn lemma_find_rank_le(rk: u32, want: int, hi: int)
    requires
        0 <= hi <= 13,
    ensures
        spec_find_rank(rk, want, hi) <= 13,
    decreases hi,
{
    if hi <= 0 {
    } else {
        lemma_find_rank_le(rk, want, hi - 1);
    }
}

proof fn lemma_binom_le(n: int)
    requires
        0 <= n <= 13,
    ensures
        0 <= binom2(n) <= 78,
        0 <= binom3(n) <= 286,
        0 <= binom4(n) <= 715,
        0 <= binom5(n) <= 1287,
{
    assert(0 <= n * (n - 1) <= 156 && 0 <= n * (n - 1) * (n - 2) <= 1716 && 0 <= n * (n - 1) * (n
        - 2) * (n - 3) <= 17160 && 0 <= n * (n - 1) * (n - 2) * (n - 3) * (n - 4) <= 154440)
        by (nonlinear_arith)
        requires
            0 <= n <= 13,
    ;
}

proof fn lemma_flush_rank_le(lane: u16)
    ensures
        spec_flush_rank(lane) <= 0x8009,
{
    let p = lane & 0x1FFF;
    let sh = spec_straight_high(p);
    if sh >= 13 {
        let a = spec_top1(p);
        let p1 = spec_clear(p, a);
        let b = spec_top1(p1);
        let p2 = spec_clear(p1, b);
        let c = spec_top1(p2);
        let p3 = spec_clear(p2, c);
        let d = spec_top1(p3);
        let p4 = spec_clear(p3, d);
        let e = spec_top1(p4);
        lemma_binom_le(a as int);
        lemma_binom_le(b as int);
        lemma_binom_le(c as int);
        lemma_binom_le(d as int);
    }
}

proof fn lemma_nonflush_rank_le(rk: u32)
    ensures
        spec_nonflush_rank(rk) <= 0x709D,
{
    let pres = spec_presence(rk, 13);
    let q = spec_find_rank(rk, 4, 13);
    lemma_find_rank_le(rk, 4, 13);
    let t = spec_find_rank(rk, 3, 13);
    lemma_find_rank_le(rk, 3, 13);
    lemma_find_rank_le(rk, 2, 13);
    let p1 = spec_find_rank(rk, 2, 13);
    lemma_find_rank_le(rk, 2, t as int);
    lemma_find_rank_le(rk, 2, p1 as int);
    lemma_binom_le(spec_find_rank(rk, 2, 13) as int);
    let pk = spec_clear(pres, spec_find_rank(rk, 2, 13));
    let a = spec_top1(pk);
    let b = spec_top1(spec_clear(pk, a));
    lemma_binom_le(spec_adj1(a, spec_find_rank(rk, 2, 13)));
    lemma_binom_le(spec_adj1(b, spec_find_rank(rk, 2, 13)));
    if q >= 13 && !(t < 13 && spec_num_ranks(rk, 2, 13) >= 2) {
        if t < 13 {
            let pkt = spec_clear(pres, t);
            lemma_binom_le(spec_adj1(spec_top1(pkt), t));
        }
        let a5 = spec_top1(pres);
        let q1 = spec_clear(pres, a5);
        let b5 = spec_top1(q1);
        let q2 = spec_clear(q1, b5);
        let c5 = spec_top1(q2);
        let q3 = spec_clear(q2, c5);
        let d5 = spec_top1(q3);
        lemma_binom_le(a5 as int);
        lemma_binom_le(b5 as int);
        lemma_binom_le(c5 as int);
        lemma_binom_le(d5 as int);
    }
}

/// Every code that evaluation can yield carries a category of at most
/// 8 in its top four bits, so it may be handed to `get_hand_category`.
pub proof fn lemma_evaluate_category_in_range(key: u64, mask: u64)
    ensures
        evaluate_spec(key, mask) >> 12u16 < 9,
{
    if key & FLUSH_MASK != 0 {
        lemma_flush_rank_le((mask >> spec_flush_lane_shift(key)) as u16);
        let r = evaluate_spec(key, mask);
        assert(r <= 0x8009 ==> r >> 12u16 < 9) by (bit_vector);
    } else {
        lemma_nonflush_rank_le(key as u32);
        let r = evaluate_spec(key, mask);
        assert(r <= 0x709D ==> r >> 12u16 < 9) by (bit_vector);
    }
}

pub fn rank_value(key: u64, mask: u64) -> (r: u16)
    ensures
        r == evaluate_spec(key, mask),
{
    if key & FLUSH_MASK != 0 {
        let shift: u64 = if key & 0x8000_0000_0000_0000u64 != 0 {
            0
        } else if key & 0x0800_0000_0000_0000u64 != 0 {
            16
        } else if key & 0x0080_0000_0000_0000u64 != 0 {
            32
        } else {
            48
        };
        let lane: u16 = #[verifier::truncate] ((mask >> shift) as u16);
        flush_rank(lane)
    } else {
        let rk: u32 = #[verifier::truncate] (key as u32);
        nonflush_rank(rk)
    }
}

} // verus!
