//! Occupancy masks: sets of board squares held in the bits of a `u64`.
//!
//! Squares are numbered rank by rank from White's side of the board:
//! a1 is square 0, h1 is square 7, a2 is square 8 and h8 is square 63.
//! A mask holds square `sq` exactly if its bit `sq` is set.

use vstd::prelude::*;
use vstd::std_specs::bits::{axiom_u64_trailing_zeros, u64_trailing_zeros};

verus! {

/// The d, e and f files without the two back ranks.
pub const BISHOP_MASK: u64 = 0x0038_3838_3838_3800;

/// Index of the lowest rank that is not a back rank.
pub const FIRST_INNER_RANK: u32 = 1;

/// Index of the highest rank that is not a back rank.
pub const LAST_INNER_RANK: u32 = 6;

/// Whether `mask` holds the square `sq`.
pub open spec fn has_square(mask: u64, sq: u64) -> bool {
    sq < 64 && (mask >> sq) & 1 == 1
}

/// File of a square, 0 for the a-file up to 7 for the h-file.
pub open spec fn file_of(sq: u64) -> u64 {
    sq % 8
}

/// Rank of a square, 0 for the first rank up to 7 for the eighth.
pub open spec fn rank_of(sq: u64) -> u64 {
    sq / 8
}

/// Number of squares below `limit` that `mask` holds.
pub open spec fn count_below(mask: u64, limit: u64) -> nat
    decreases limit,
{
    if limit == 0 {
        0
    } else {
        let sq = (limit - 1) as u64;
        count_below(mask, sq) + if has_square(mask, sq) {
            1nat
        } else {
            0nat
        }
    }
}

/// Number of squares that `mask` holds.
pub open spec fn popcount(mask: u64) -> nat {
    count_below(mask, 64)
}

/// The mask of all eight squares of a rank.
pub open spec fn rank_squares(rank: u32) -> u64 {
    0xffu64 << ((8 * rank) as u64)
}

/// At least one square below `limit` is counted exactly if the mask holds one.
proof fn lemma_one_below(mask: u64, limit: u64)
    ensures
        count_below(mask, limit) >= 1 <==> exists|a: u64| a < limit && has_square(mask, a),
    decreases limit,
{
    if limit != 0 {
        let sq = (limit - 1) as u64;
        lemma_one_below(mask, sq);
        if count_below(mask, limit) >= 1 {
            if has_square(mask, sq) {
                assert(sq < limit && has_square(mask, sq));
            } else {
                let a = choose|a: u64| a < sq && has_square(mask, a);
                assert(a < limit && has_square(mask, a));
            }
        }
        if exists|a: u64| a < limit && has_square(mask, a) {
            let a = choose|a: u64| a < limit && has_square(mask, a);
            if a != sq {
                assert(a < sq && has_square(mask, a));
            }
        }
    }
}

/// At least two squares below `limit` are counted exactly if the mask holds
/// two different ones.
proof fn lemma_two_below(mask: u64, limit: u64)
    ensures
        count_below(mask, limit) >= 2 <==> exists|a: u64, b: u64|
            a < b < limit && has_square(mask, a) && has_square(mask, b),
    decreases limit,
{
    if limit != 0 {
        let sq = (limit - 1) as u64;
        lemma_two_below(mask, sq);
        lemma_one_below(mask, sq);
        if count_below(mask, limit) >= 2 {
            if count_below(mask, sq) >= 2 {
                let (a, b) = choose|a: u64, b: u64|
                    a < b < sq && has_square(mask, a) && has_square(mask, b);
                assert(a < b < limit && has_square(mask, a) && has_square(mask, b));
            } else {
                let a = choose|a: u64| a < sq && has_square(mask, a);
                assert(a < sq < limit && has_square(mask, a) && has_square(mask, sq));
            }
        }
        if exists|a: u64, b: u64| a < b < limit && has_square(mask, a) && has_square(mask, b) {
            let (a, b) = choose|a: u64, b: u64|
                a < b < limit && has_square(mask, a) && has_square(mask, b);
            if b == sq {
                assert(a < sq && has_square(mask, a));
            } else {
                assert(a < b < sq && has_square(mask, a) && has_square(mask, b));
            }
        }
    }
}

/// A mask counts at least two squares exactly if it holds two different
/// squares.
pub proof fn lemma_popcount_two(mask: u64)
    ensures
        popcount(mask) >= 2 <==> exists|a: u64, b: u64|
            a != b && has_square(mask, a) && has_square(mask, b),
{
    lemma_two_below(mask, 64);
    if exists|a: u64, b: u64| a != b && has_square(mask, a) && has_square(mask, b) {
        let (a, b) = choose|a: u64, b: u64|
            a != b && has_square(mask, a) && has_square(mask, b);
        if a < b {
            assert(a < b < 64 && has_square(mask, a) && has_square(mask, b));
        } else {
            assert(b < a < 64 && has_square(mask, b) && has_square(mask, a));
        }
    }
    if popcount(mask) >= 2 {
        let (a, b) = choose|a: u64, b: u64|
            a < b < 64 && has_square(mask, a) && has_square(mask, b);
        assert(a != b && has_square(mask, a) && has_square(mask, b));
    }
}

/// The intersection of two masks holds exactly the squares that both hold.
pub proof fn lemma_intersection_squares(left: u64, right: u64, sq: u64)
    ensures
        has_square(left & right, sq) <==> has_square(left, sq) && has_square(right, sq),
{
    if sq < 64 {
        assert((((left & right) >> sq) & 1 == 1) <==> ((left >> sq) & 1 == 1) && ((right >> sq) & 1
            == 1)) by (bit_vector)
            requires
                sq < 64,
        ;
    }
}

/// A mask is empty exactly if it holds no square.
pub proof fn lemma_empty_mask(mask: u64)
    ensures
        mask == 0 <==> forall|sq: u64| !has_square(mask, sq),
{
    if mask != 0 {
        axiom_u64_trailing_zeros(mask);
        let sq = u64_trailing_zeros(mask) as u64;
        assert(has_square(mask, sq));
    } else {
        assert forall|sq: u64| !has_square(mask, sq) by {
            if sq < 64 {
                assert((0u64 >> sq) & 1 == 0) by (bit_vector)
                    requires
                        sq < 64,
                ;
            }
        }
    }
}

/// A mask cut down to a rank holds exactly the squares of the mask that lie on
/// that rank.
pub proof fn lemma_squares_on_rank(mask: u64, rank: u32, sq: u64)
    requires
        rank < 8,
        sq < 64,
    ensures
        has_square(mask & rank_squares(rank), sq) <==> has_square(mask, sq) && rank_of(sq) == rank,
{
    lemma_rank_squares(rank, sq);
    lemma_intersection_squares(mask, rank_squares(rank), sq);
}

/// Counts the squares of an occupancy mask.
pub fn count(mask: u64) -> (n: u32)
    ensures
        n == popcount(mask),
        n <= 64,
{
    let mut n: u32 = 0;
    let mut sq: u64 = 0;
    while sq < 64
        invariant
            sq <= 64,
            n == count_below(mask, sq),
            n <= sq,
        decreases 64 - sq,
    {
        if (mask >> sq) & 1 == 1 {
            n = n + 1;
        }
        sq = sq + 1;
    }
    n
}

/// The mask of all squares of the rank with index `rank`.
pub fn rank_mask(rank: u32) -> (mask: u64)
    requires
        rank < 8,
    ensures
        mask == rank_squares(rank),
{
    0xffu64 << ((8 * rank) as u64)
}

/// The band mask holds exactly the squares of the d, e and f files that lie
/// on the second to seventh rank.
pub proof fn lemma_band_squares(sq: u64)
    requires
        sq < 64,
    ensures
        has_square(BISHOP_MASK, sq) <==> (3 <= file_of(sq) <= 5 && 1 <= rank_of(sq) <= 6),
{
    assert(((0x0038_3838_3838_3800u64 >> sq) & 1 == 1) <==> (3 <= sq % 8 && sq % 8 <= 5 && 1 <= sq
        / 8 && sq / 8 <= 6)) by (bit_vector)
        requires
            sq < 64,
    ;
}

/// A rank mask holds exactly the squares of its rank.
pub proof fn lemma_rank_squares(rank: u32, sq: u64)
    requires
        rank < 8,
        sq < 64,
    ensures
        has_square(rank_squares(rank), sq) <==> rank_of(sq) == rank,
{
    let shift = (8 * rank) as u64;
    assert((((0xffu64 << shift) >> sq) & 1 == 1) <==> sq / 8 == shift / 8) by (bit_vector)
        requires
            sq < 64,
            shift == 0 || shift == 8 || shift == 16 || shift == 24 || shift == 32 || shift == 40
                || shift == 48 || shift == 56,
    ;
}

} // verus!
