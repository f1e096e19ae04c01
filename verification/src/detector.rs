//! The motif detector: two cheap filters on occupancy masks, then a search
//! of the encoded board for the four squares of the motif.

use crate::bitboard::{
    count, file_of, has_square, lemma_band_squares, lemma_empty_mask, lemma_intersection_squares,
    lemma_popcount_two, lemma_squares_on_rank, popcount, rank_mask, rank_of, rank_squares,
    BISHOP_MASK, FIRST_INNER_RANK, LAST_INNER_RANK,
};
use crate::position::{
    board_fen, board_text, occupancy, our, side_to_move, their, turn, Color, Piece, Role,
};
use vstd::prelude::*;

verus! {

/// What the detector says of a position.
#[derive(Clone, Copy, Debug, PartialEq, Eq, Structural)]
pub enum Outcome {
    /// A filter has ruled the motif out.
    Skip,
    /// Both filters passed, but the motif is not on the board.
    PassOnly,
    /// Both filters passed and the motif is on the board.
    Confirmed,
}

/// A white bishop in the encoded board: the letter `B`.
pub const WHITE_BISHOP: u8 = 0x42;

/// A black bishop in the encoded board: the letter `b`.
pub const BLACK_BISHOP: u8 = 0x62;

/// A white pawn in the encoded board: the letter `P`.
pub const WHITE_PAWN: u8 = 0x50;

/// A black pawn in the encoded board: the letter `p`.
pub const BLACK_PAWN: u8 = 0x70;

/// The separator between two ranks of the encoded board: the character `/`.
pub const RANK_SEPARATOR: u8 = 0x2f;

/// First filter: some bishop stands in the band.
pub open spec fn in_band(bishops: u64) -> bool {
    bishops & BISHOP_MASK != 0
}

/// At least two of the bishops and at least two of the pawns stand on the
/// rank.
pub open spec fn rank_pair(bishops: u64, pawns: u64, rank: u32) -> bool {
    popcount(bishops & rank_squares(rank)) >= 2 && popcount(pawns & rank_squares(rank)) >= 2
}

/// The mask holds two different squares of the rank.
pub open spec fn two_on_rank(mask: u64, rank: u32) -> bool {
    exists|a: u64, b: u64|
        a != b && has_square(mask, a) && has_square(mask, b) && rank_of(a) == rank && rank_of(b)
            == rank
}

/// Second filter: some rank that is not a back rank holds at least two of the
/// bishops and at least two of the pawns.
pub open spec fn some_rank_pair(bishops: u64, pawns: u64) -> bool {
    exists|rank: u32|
        FIRST_INNER_RANK <= rank <= LAST_INNER_RANK && #[trigger] rank_pair(bishops, pawns, rank)
}

/// The motif as the encoded board shows it to the side to move: one of its
/// bishops, two pawns of the other side, and another of its bishops.
pub open spec fn motif_pattern(turn: Color) -> Seq<u8> {
    match turn {
        Color::White => seq![WHITE_BISHOP, BLACK_PAWN, BLACK_PAWN, WHITE_BISHOP],
        Color::Black => seq![BLACK_BISHOP, WHITE_PAWN, WHITE_PAWN, BLACK_BISHOP],
    }
}

/// `pattern` stands in `text` from index `at` on.
pub open spec fn occurs_at(text: Seq<u8>, pattern: Seq<u8>, at: int) -> bool {
    &&& 0 <= at
    &&& at + pattern.len() <= text.len()
    &&& text.subrange(at, at + pattern.len()) == pattern
}

/// `pattern` stands somewhere in `text` as a contiguous run.
pub open spec fn contains_run(text: Seq<u8>, pattern: Seq<u8>) -> bool {
    exists|at: int| occurs_at(text, pattern, at)
}

/// The outcome for given masks, side to move and encoded board.
pub open spec fn classify(bishops: u64, pawns: u64, turn: Color, text: Seq<u8>) -> Outcome {
    if !in_band(bishops) || !some_rank_pair(bishops, pawns) {
        Outcome::Skip
    } else if contains_run(text, motif_pattern(turn)) {
        Outcome::Confirmed
    } else {
        Outcome::PassOnly
    }
}

/// The bishops of the side to move.
pub open spec fn mover_bishops(pos: shakmaty::Chess) -> u64 {
    occupancy(pos)[(Piece { color: side_to_move(pos), role: Role::Bishop })]
}

/// The pawns of the side that is not to move.
pub open spec fn opponent_pawns(pos: shakmaty::Chess) -> u64 {
    occupancy(pos)[(Piece { color: side_to_move(pos).other(), role: Role::Pawn })]
}

/// The encoded board of a position: its pieces rank by rank, with no square
/// marked as a promoted piece.
pub open spec fn encoding(pos: shakmaty::Chess) -> Seq<u8> {
    board_text(occupancy(pos), 0)
}

/// The outcome for a position as it stands.
pub open spec fn verdict(pos: shakmaty::Chess) -> Outcome {
    classify(mover_bishops(pos), opponent_pawns(pos), side_to_move(pos), encoding(pos))
}

/// First filter: whether a bishop stands on the d, e or f file off the back
/// ranks.
pub fn piece_band(bishops: u64) -> (hit: bool)
    ensures
        hit == in_band(bishops),
{
    bishops & BISHOP_MASK != 0
}

/// Second filter: scans the second to the seventh rank, lowest first, for one
/// that holds at least two of the bishops and at least two of the pawns.
pub fn rank_pairs(bishops: u64, pawns: u64) -> (found: bool)
    ensures
        found == some_rank_pair(bishops, pawns),
{
    let mut rank: u32 = FIRST_INNER_RANK;
    while rank <= LAST_INNER_RANK
        invariant
            FIRST_INNER_RANK <= rank <= LAST_INNER_RANK + 1,
            forall|r: u32| FIRST_INNER_RANK <= r < rank ==> !rank_pair(bishops, pawns, r),
        decreases LAST_INNER_RANK + 1 - rank,
    {
        let mask = rank_mask(rank);
        if count(bishops & mask) >= 2 && count(pawns & mask) >= 2 {
            assert(rank_pair(bishops, pawns, rank));
            return true;
        }
        rank = rank + 1;
    }
    false
}

/// Whether `pattern` stands somewhere in `text` as a contiguous run.
pub fn contains(text: &[u8], pattern: &[u8]) -> (found: bool)
    ensures
        found == contains_run(text@, pattern@),
{
    let n = text.len();
    let k = pattern.len();
    if k > n {
        return false;
    }
    let mut at: usize = 0;
    while at <= n - k
        invariant
            k <= n,
            n == text@.len(),
            k == pattern@.len(),
            at <= n - k + 1,
            forall|i: int| 0 <= i < at ==> !occurs_at(text@, pattern@, i),
        decreases n - k + 1 - at,
    {
        let mut j: usize = 0;
        while j < k && text[at + j] == pattern[j]
            invariant
                k <= n,
                n == text@.len(),
                k == pattern@.len(),
                at <= n - k,
                j <= k,
                forall|i: int| 0 <= i < j ==> text@[at + i] == pattern@[i],
            decreases k - j,
        {
            j = j + 1;
        }
        if j == k {
            assert(text@.subrange(at as int, at + k) =~= pattern@);
            assert(occurs_at(text@, pattern@, at as int));
            return true;
        }
        assert(!occurs_at(text@, pattern@, at as int)) by {
            if occurs_at(text@, pattern@, at as int) {
                assert(text@.subrange(at as int, at + k)[j as int] == pattern@[j as int]);
            }
        }
        at = at + 1;
    }
    false
}

/// Third stage: whether the encoded board shows the motif to the side to
/// move.
pub fn confirm(turn: Color, encoding: &[u8]) -> (found: bool)
    ensures
        found == contains_run(encoding@, motif_pattern(turn)),
{
    let pattern: [u8; 4] = match turn {
        Color::White => [WHITE_BISHOP, BLACK_PAWN, BLACK_PAWN, WHITE_BISHOP],
        Color::Black => [BLACK_BISHOP, WHITE_PAWN, WHITE_PAWN, BLACK_BISHOP],
    };
    assert(pattern@ =~= motif_pattern(turn));
    contains(encoding, pattern.as_slice())
}

/// Both filters in turn: the ranks are scanned only where a bishop stands in
/// the band.
pub fn prefilter(bishops: u64, pawns: u64) -> (pass: bool)
    ensures
        pass == (in_band(bishops) && some_rank_pair(bishops, pawns)),
{
    piece_band(bishops) && rank_pairs(bishops, pawns)
}

/// Runs the three stages on a position as it stands, for the side to move.
/// The board is encoded only where both filters pass.
pub fn detect(pos: &shakmaty::Chess) -> (outcome: Outcome)
    ensures
        outcome == verdict(*pos),
        !in_band(mover_bishops(*pos)) ==> outcome == Outcome::Skip,
        !some_rank_pair(mover_bishops(*pos), opponent_pawns(*pos)) ==> outcome == Outcome::Skip,
        outcome == Outcome::Confirmed ==> contains_run(
            encoding(*pos),
            motif_pattern(side_to_move(*pos)),
        ),
        in_band(mover_bishops(*pos)) && some_rank_pair(mover_bishops(*pos), opponent_pawns(*pos))
            ==> (outcome == Outcome::Confirmed <==> contains_run(
            encoding(*pos),
            motif_pattern(side_to_move(*pos)),
        )),
{
    let bishops = our(pos, Role::Bishop);
    let pawns = their(pos, Role::Pawn);
    if !prefilter(bishops, pawns) {
        return Outcome::Skip;
    }
    let text = board_fen(pos, 0);
    if confirm(turn(pos), text.as_slice()) {
        Outcome::Confirmed
    } else {
        Outcome::PassOnly
    }
}

/// Without a bishop in the band the outcome is `Skip`, whatever the pawns,
/// the side to move and the encoded board.
pub proof fn lemma_skip_outside_band(bishops: u64, pawns: u64, turn: Color, text: Seq<u8>)
    requires
        bishops & BISHOP_MASK == 0,
    ensures
        classify(bishops, pawns, turn, text) == Outcome::Skip,
{
}

/// With a bishop in the band the outcome is `Skip` unless one of the second
/// to seventh ranks holds at least two of the bishops and at least two of the
/// pawns.
pub proof fn lemma_skip_without_rank_pair(bishops: u64, pawns: u64, turn: Color, text: Seq<u8>)
    requires
        in_band(bishops),
    ensures
        classify(bishops, pawns, turn, text) != Outcome::Skip <==> exists|rank: u32|
            1 <= rank <= 6 && popcount(bishops & rank_squares(rank)) >= 2 && popcount(
                pawns & rank_squares(rank),
            ) >= 2,
{
    if classify(bishops, pawns, turn, text) != Outcome::Skip {
        let rank = choose|rank: u32| 1 <= rank <= 6 && #[trigger] rank_pair(bishops, pawns, rank);
        assert(popcount(bishops & rank_squares(rank)) >= 2);
    }
    if exists|rank: u32|
        1 <= rank <= 6 && popcount(bishops & rank_squares(rank)) >= 2 && popcount(
            pawns & rank_squares(rank),
        ) >= 2 {
        let rank = choose|rank: u32|
            1 <= rank <= 6 && popcount(bishops & rank_squares(rank)) >= 2 && popcount(
                pawns & rank_squares(rank),
            ) >= 2;
        assert(rank_pair(bishops, pawns, rank));
    }
}

/// The first filter passes exactly if a bishop stands on the d, e or f file
/// and on one of the second to seventh ranks.
pub proof fn lemma_band_bishop(bishops: u64)
    ensures
        in_band(bishops) <==> exists|sq: u64|
            has_square(bishops, sq) && 3 <= file_of(sq) <= 5 && 1 <= rank_of(sq) <= 6,
{
    let cut = bishops & BISHOP_MASK;
    lemma_empty_mask(cut);
    if in_band(bishops) {
        let sq = choose|sq: u64| has_square(cut, sq);
        lemma_intersection_squares(bishops, BISHOP_MASK, sq);
        lemma_band_squares(sq);
        assert(has_square(bishops, sq) && 3 <= file_of(sq) <= 5 && 1 <= rank_of(sq) <= 6);
    }
    if exists|sq: u64| has_square(bishops, sq) && 3 <= file_of(sq) <= 5 && 1 <= rank_of(sq) <= 6 {
        let sq = choose|sq: u64|
            has_square(bishops, sq) && 3 <= file_of(sq) <= 5 && 1 <= rank_of(sq) <= 6;
        lemma_band_squares(sq);
        lemma_intersection_squares(bishops, BISHOP_MASK, sq);
        assert(has_square(cut, sq));
    }
}

/// A rank passes the second filter exactly if two different squares of it
/// hold bishops and two different squares of it hold pawns.
pub proof fn lemma_rank_pair_squares(bishops: u64, pawns: u64, rank: u32)
    requires
        rank < 8,
    ensures
        rank_pair(bishops, pawns, rank) <==> two_on_rank(bishops, rank) && two_on_rank(pawns, rank),
{
    lemma_two_on_rank(bishops, rank);
    lemma_two_on_rank(pawns, rank);
}

/// A mask cut down to a rank counts at least two squares exactly if the mask
/// holds two different squares of the rank.
proof fn lemma_two_on_rank(mask: u64, rank: u32)
    requires
        rank < 8,
    ensures
        popcount(mask & rank_squares(rank)) >= 2 <==> two_on_rank(mask, rank),
{
    let cut = mask & rank_squares(rank);
    lemma_popcount_two(cut);
    if popcount(cut) >= 2 {
        let (a, b) = choose|a: u64, b: u64| a != b && has_square(cut, a) && has_square(cut, b);
        lemma_squares_on_rank(mask, rank, a);
        lemma_squares_on_rank(mask, rank, b);
        assert(a != b && has_square(mask, a) && has_square(mask, b) && rank_of(a) == rank
            && rank_of(b) == rank);
    }
    if two_on_rank(mask, rank) {
        let (a, b) = choose|a: u64, b: u64|
            a != b && has_square(mask, a) && has_square(mask, b) && rank_of(a) == rank && rank_of(
                b,
            ) == rank;
        lemma_squares_on_rank(mask, rank, a);
        lemma_squares_on_rank(mask, rank, b);
        assert(a != b && has_square(cut, a) && has_square(cut, b));
    }
}

/// Where both filters pass, the outcome is `Confirmed` exactly if the encoded
/// board holds the motif of the side to move as a contiguous run. Where one
/// of them fails, nothing is confirmed, whatever the encoded board holds.
pub proof fn lemma_confirmed_iff_run(bishops: u64, pawns: u64, turn: Color, text: Seq<u8>)
    ensures
        classify(bishops, pawns, turn, text) == Outcome::Confirmed ==> contains_run(
            text,
            motif_pattern(turn),
        ),
        in_band(bishops) && some_rank_pair(bishops, pawns) ==> (classify(bishops, pawns, turn, text)
            == Outcome::Confirmed <==> contains_run(text, motif_pattern(turn))),
        !in_band(bishops) || !some_rank_pair(bishops, pawns) ==> classify(
            bishops,
            pawns,
            turn,
            text,
        ) != Outcome::Confirmed,
{
}

/// A run of the motif lies within one rank of the encoded board: none of its
/// four bytes is a rank separator.
pub proof fn lemma_run_within_rank(text: Seq<u8>, turn: Color, at: int)
    requires
        occurs_at(text, motif_pattern(turn), at),
    ensures
        at + 4 <= text.len(),
        forall|i: int| at <= i < at + 4 ==> text[i] != RANK_SEPARATOR,
{
    let pattern = motif_pattern(turn);
    assert(pattern.len() == 4);
    assert forall|i: int| at <= i < at + 4 implies text[i] != RANK_SEPARATOR by {
        assert(text.subrange(at, at + 4)[i - at] == text[i]);
        assert(pattern[i - at] != RANK_SEPARATOR);
    }
}

} // verus!
