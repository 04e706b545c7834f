use vstd::prelude::*;

use vstd::string::{StrSliceExecFns, StringExecFns};

use crate::hand::Hand;

verus! {

/// Why a hand string failed to parse.
#[derive(Clone, Copy, Debug, PartialEq, Eq, Structural)]
pub enum ParseError {
    /// A rank character stood last, with no suit character after it.
    SuitEof,
    /// The character is not a rank character (`2`-`9`, `T`, `J`, `Q`, `K`, `A`).
    BadRank(char),
    /// The character is not a suit character (`c`, `d`, `h`, `s`).
    BadSuit(char),
}

/// Rank id of a rank character, case-insensitive; 13 for any other
/// character.
pub open spec fn spec_rank_id(ch: char) -> u32 {
    if ch == '2' {
        0u32
    } else if ch == '3' {
        1u32
    } else if ch == '4' {
        2u32
    } else if ch == '5' {
        3u32
    } else if ch == '6' {
        4u32
    } else if ch == '7' {
        5u32
    } else if ch == '8' {
        6u32
    } else if ch == '9' {
        7u32
    } else if ch == 'T' || ch == 't' {
        8u32
    } else if ch == 'J' || ch == 'j' {
        9u32
    } else if ch == 'Q' || ch == 'q' {
        10u32
    } else if ch == 'K' || ch == 'k' {
        11u32
    } else if ch == 'A' || ch == 'a' {
        12u32
    } else {
        13u32
    }
}

/// Suit id of a suit character, case-insensitive (0 club, 1 diamond,
/// 2 heart, 3 spade); 4 for any other character.
pub open spec fn spec_suit_id(ch: char) -> u32 {
    if ch == 'c' || ch == 'C' {
        0u32
    } else if ch == 'd' || ch == 'D' {
        1u32
    } else if ch == 'h' || ch == 'H' {
        2u32
    } else if ch == 's' || ch == 'S' {
        3u32
    } else {
        4u32
    }
}

fn rank_id_of(ch: char) -> (r: u32)
    ensures
        r == spec_rank_id(ch),
{
    if ch == '2' {
        0
    } else if ch == '3' {
        1
    } else if ch == '4' {
        2
    } else if ch == '5' {
        3
    } else if ch == '6' {
        4
    } else if ch == '7' {
        5
    } else if ch == '8' {
        6
    } else if ch == '9' {
        7
    } else if ch == 'T' || ch == 't' {
        8
    } else if ch == 'J' || ch == 'j' {
        9
    } else if ch == 'Q' || ch == 'q' {
        10
    } else if ch == 'K' || ch == 'k' {
        11
    } else if ch == 'A' || ch == 'a' {
        12
    } else {
        13
    }
}

fn suit_id_of(ch: char) -> (r: u32)
    ensures
        r == spec_suit_id(ch),
{
    if ch == 'c' || ch == 'C' {
        0
    } else if ch == 'd' || ch == 'D' {
        1
    } else if ch == 'h' || ch == 'H' {
        2
    } else if ch == 's' || ch == 'S' {
        3
    } else {
        4
    }
}

/// What parsing the characters `s` does to a hand already holding the
/// cards read so far: tokens are read strictly left to right, two
/// characters at a time, and a lone trailing character is an error even
/// before its being a rank character is checked.
pub open spec fn spec_parse_from(h: Hand, s: Seq<char>) -> Result<Hand, ParseError>
    decreases s.len(),
{
    if s.len() == 0 {
        Ok(h)
    } else if s.len() == 1 {
        Err(ParseError::SuitEof)
    } else if spec_rank_id(s[0]) >= 13 {
        Err(ParseError::BadRank(s[0]))
    } else if spec_suit_id(s[1]) >= 4 {
        Err(ParseError::BadSuit(s[1]))
    } else {
        spec_parse_from(
            h.spec_add_card(4 * spec_rank_id(s[0]) + spec_suit_id(s[1])),
            s.skip(2),
        )
    }
}

/// The hand denoted by a hand string, starting from the empty hand.
pub open spec fn spec_parse(s: Seq<char>) -> Result<Hand, ParseError> {
    spec_parse_from(Hand::spec_new(), s)
}

/// The card identifiers of the tokens of `s`, in reading order
/// (meaningful for strings that parse successfully).
pub open spec fn spec_card_ids(s: Seq<char>) -> Seq<usize>
    decreases s.len(),
{
    if s.len() < 2 {
        Seq::empty()
    } else {
        seq![(4 * spec_rank_id(s[0]) + spec_suit_id(s[1])) as usize] + spec_card_ids(s.skip(2))
    }
}

/// Parses concatenated two-character rank-suit tokens into a hand.
/// The empty string parses to the empty hand; no duplicate-card or
/// cardinality check is made.
pub fn parse_hand(s: &str) -> (r: Result<Hand, ParseError>)
    ensures
        r == spec_parse(s@),
{
    let n = s.unicode_len();
    let mut hand = Hand::new();
    let mut i: usize = 0;
    proof {
        assert(s@.skip(0) =~= s@);
    }
    while i < n
        invariant
            n == s@.len(),
            i <= n,
            spec_parse(s@) == spec_parse_from(hand, s@.skip(i as int)),
        decreases n - i,
    {
        let c0 = s.get_char(i);
        proof {
            assert(s@.skip(i as int)[0] == s@[i as int]);
        }
        if i + 1 == n {
            return Err(ParseError::SuitEof);
        }
        let c1 = s.get_char(i + 1);
        proof {
            assert(s@.skip(i as int)[1] == s@[i + 1]);
        }
        let r_id = rank_id_of(c0);
        if r_id >= 13 {
            return Err(ParseError::BadRank(c0));
        }
        let s_id = suit_id_of(c1);
        if s_id >= 4 {
            return Err(ParseError::BadSuit(c1));
        }
        let card = (4 * r_id + s_id) as usize;
        proof {
            assert(s@.skip(i as int).skip(2) =~= s@.skip(i + 2));
        }
        hand = hand.add_card(card);
        i += 2;
    }
    proof {
        assert(s@.skip(n as int) =~= Seq::<char>::empty());
    }
    Ok(hand)
}

/// Adding the cards of `ids` one by one, left to right.
pub open spec fn spec_fold_cards(h: Hand, ids: Seq<usize>) -> Hand
    decreases ids.len(),
{
    if ids.len() == 0 {
        h
    } else {
        spec_fold_cards(h.spec_add_card(ids[0] as int), ids.skip(1))
    }
}

proof fn lemma_fold_snoc(h: Hand, ids: Seq<usize>, c: usize)
    ensures
        spec_fold_cards(h, ids.push(c)) == spec_fold_cards(h, ids).spec_add_card(c as int),
    decreases ids.len(),
{
    if ids.len() == 0 {
        assert(ids.push(c)[0] == c);
        assert(ids.push(c).skip(1) =~= Seq::<usize>::empty());
        assert(spec_fold_cards(h, ids.push(c)) == spec_fold_cards(
            h.spec_add_card(c as int),
            ids.push(c).skip(1),
        ));
    } else {
        assert(ids.push(c)[0] == ids[0]);
        assert(ids.push(c).skip(1) =~= ids.skip(1).push(c));
        lemma_fold_snoc(h.spec_add_card(ids[0] as int), ids.skip(1), c);
        assert(spec_fold_cards(h, ids.push(c)) == spec_fold_cards(
            h.spec_add_card(ids[0] as int),
            ids.skip(1).push(c),
        ));
        assert(spec_fold_cards(h, ids) == spec_fold_cards(
            h.spec_add_card(ids[0] as int),
            ids.skip(1),
        ));
    }
}

proof fn lemma_from_cards_is_fold(ids: Seq<usize>)
    ensures
        Hand::spec_from_cards(ids) == spec_fold_cards(Hand::spec_new(), ids),
    decreases ids.len(),
{
    if ids.len() == 0 {
    } else {
        lemma_from_cards_is_fold(ids.drop_last());
        lemma_fold_snoc(Hand::spec_new(), ids.drop_last(), ids.last());
        assert(ids.drop_last().push(ids.last()) =~= ids);
    }
}

proof fn lemma_parse_fold(h: Hand, s: Seq<char>)
    requires
        spec_parse_from(h, s) is Ok,
    ensures
        spec_parse_from(h, s) == Ok::<Hand, ParseError>(spec_fold_cards(h, spec_card_ids(s))),
    decreases s.len(),
{
    if s.len() == 0 {
    } else {
        let id = (4 * spec_rank_id(s[0]) + spec_suit_id(s[1])) as usize;
        lemma_parse_fold(h.spec_add_card(id as int), s.skip(2));
        assert((seq![id] + spec_card_ids(s.skip(2)))[0] == id);
        assert((seq![id] + spec_card_ids(s.skip(2))).skip(1) =~= spec_card_ids(s.skip(2)));
    }
}

/// A hand string that parses successfully denotes exactly the hand
/// built by `Hand::from_slice` from its card identifiers: parsing and
/// folding the identifiers are the same round trip.
pub proof fn lemma_parse_round_trip(s: Seq<char>)
    requires
        spec_parse(s) is Ok,
    ensures
        spec_parse(s) == Ok::<Hand, ParseError>(Hand::spec_from_cards(spec_card_ids(s))),
{
    lemma_parse_fold(Hand::spec_new(), s);
    lemma_from_cards_is_fold(spec_card_ids(s));
}

/// The message of a parse error, as `Hand`'s `FromStr` reports it.
pub open spec fn spec_message(e: ParseError) -> Seq<char> {
    match e {
        ParseError::SuitEof => "parse failed: expected suit character, but got EOF"@,
        ParseError::BadRank(ch) => "parse failed: expected rank character, but got '"@.push(
            ch,
        ).push('\''),
        ParseError::BadSuit(ch) => "parse failed: expected suit character, but got '"@.push(
            ch,
        ).push('\''),
    }
}

/// Relies on `String::push`: appends exactly the given character.
#[verifier::external_body]
fn push_char(s: &mut String, c: char)
    ensures
        final(s)@ == old(s)@.push(c),
{
    s.push(c);
}

/// Renders a parse error as its human-readable message.
pub fn error_message(e: &ParseError) -> (r: String)
    ensures
        r@ == spec_message(*e),
{
    match e {
        ParseError::SuitEof => <String as StringExecFns>::from_str(
            "parse failed: expected suit character, but got EOF",
        ),
        ParseError::BadRank(ch) => {
            let mut m = <String as StringExecFns>::from_str(
                "parse failed: expected rank character, but got '",
            );
            push_char(&mut m, *ch);
            push_char(&mut m, '\'');
            m
        },
        ParseError::BadSuit(ch) => {
            let mut m = <String as StringExecFns>::from_str(
                "parse failed: expected suit character, but got '",
            );
            push_char(&mut m, *ch);
            push_char(&mut m, '\'');
            m
        },
    }
}

impl core::str::FromStr for Hand {
    type Err = String;

    /// Parses a hand string, reporting a failure as its message.
    fn from_str(s: &str) -> Result<Hand, String> {
        match parse_hand(s) {
            Ok(h) => Ok(h),
            Err(e) => Err(error_message(&e)),
        }
    }
}

} // verus!
