use il_vaticano::detector::{
    confirm, contains, detect, piece_band, prefilter, rank_pairs, Outcome, BLACK_BISHOP,
    BLACK_PAWN, RANK_SEPARATOR, WHITE_BISHOP, WHITE_PAWN,
};
use il_vaticano::position::Color;
use shakmaty::fen::Fen;
use shakmaty::{CastlingMode, Chess, Position};

fn position(fen: &str) -> Chess {
    Fen::from_ascii(fen.as_bytes())
        .expect("a well-formed FEN")
        .into_position(CastlingMode::Standard)
        .expect("a valid position")
}

fn square(file: u32, rank: u32) -> u64 {
    1u64 << (rank * 8 + file)
}

#[test]
fn letters_of_the_encoded_board() {
    assert_eq!(WHITE_BISHOP, b'B');
    assert_eq!(BLACK_BISHOP, b'b');
    assert_eq!(WHITE_PAWN, b'P');
    assert_eq!(BLACK_PAWN, b'p');
    assert_eq!(RANK_SEPARATOR, b'/');
}

#[test]
fn band_is_empty_without_bishops() {
    assert!(!piece_band(0));
}

#[test]
fn band_holds_d2_and_f7() {
    assert!(piece_band(square(3, 1)));
    assert!(piece_band(square(5, 6)));
}

#[test]
fn band_leaves_out_the_back_ranks() {
    for file in 0..8 {
        assert!(!piece_band(square(file, 0)));
        assert!(!piece_band(square(file, 7)));
    }
}

#[test]
fn band_leaves_out_the_outer_files() {
    for rank in 0..8 {
        for file in [0, 1, 2, 6, 7] {
            assert!(!piece_band(square(file, rank)));
        }
    }
}

#[test]
fn band_holds_every_square_of_the_central_files_off_the_back_ranks() {
    for rank in 1..7 {
        for file in 3..6 {
            assert!(piece_band(square(file, rank)));
        }
    }
}

#[test]
fn rank_pair_on_the_fifth_rank() {
    let bishops = square(1, 4) | square(4, 4);
    let pawns = square(2, 4) | square(3, 4);
    assert!(rank_pairs(bishops, pawns));
}

#[test]
fn rank_pair_needs_two_bishops() {
    let bishops = square(1, 4);
    let pawns = square(2, 4) | square(3, 4);
    assert!(!rank_pairs(bishops, pawns));
}

#[test]
fn rank_pair_needs_two_pawns() {
    let bishops = square(1, 4) | square(4, 4);
    let pawns = square(2, 4);
    assert!(!rank_pairs(bishops, pawns));
}

#[test]
fn rank_pair_needs_the_same_rank() {
    let bishops = square(1, 4) | square(4, 4);
    let pawns = square(2, 3) | square(3, 3);
    assert!(!rank_pairs(bishops, pawns));
}

#[test]
fn rank_pair_is_not_sought_on_the_back_ranks() {
    let first = square(0, 0) | square(1, 0);
    assert!(!rank_pairs(first, first));
    let eighth = square(0, 7) | square(1, 7);
    assert!(!rank_pairs(eighth, eighth));
}

#[test]
fn rank_pair_is_found_on_each_inner_rank() {
    for rank in 1..7 {
        let bishops = square(0, rank) | square(7, rank);
        let pawns = square(3, rank) | square(4, rank);
        assert!(rank_pairs(bishops, pawns));
    }
}

#[test]
fn prefilter_needs_a_bishop_in_the_band() {
    let bishops = square(0, 4) | square(1, 4);
    let pawns = square(6, 4) | square(7, 4);
    assert!(rank_pairs(bishops, pawns));
    assert!(!prefilter(bishops, pawns));
}

#[test]
fn prefilter_needs_a_rank_pair() {
    let bishops = square(3, 2);
    assert!(piece_band(bishops));
    assert!(!prefilter(bishops, 0));
    assert!(!prefilter(bishops, u64::MAX));
}

#[test]
fn prefilter_passes_with_both() {
    let bishops = square(1, 4) | square(4, 4);
    let pawns = square(2, 4) | square(3, 4);
    assert!(prefilter(bishops, pawns));
}

#[test]
fn prefilter_ignores_pawns_without_band_bishop() {
    assert!(!prefilter(0, u64::MAX));
    assert!(!prefilter(square(0, 4) | square(7, 4), u64::MAX));
}

#[test]
fn contains_finds_a_run_at_the_start() {
    assert!(contains(b"bPPb4/8", b"bPPb"));
}

#[test]
fn contains_finds_a_run_at_the_end() {
    assert!(contains(b"8/4bPPb", b"bPPb"));
}

#[test]
fn contains_finds_a_run_in_the_middle() {
    assert!(contains(b"8/1bPPb3/8", b"bPPb"));
}

#[test]
fn contains_rejects_a_broken_run() {
    assert!(!contains(b"8/1bP1Pb2/8", b"bPPb"));
    assert!(!contains(b"8/1b/PPb/8", b"bPPb"));
}

#[test]
fn contains_handles_short_texts() {
    assert!(!contains(b"", b"bPPb"));
    assert!(!contains(b"bPP", b"bPPb"));
    assert!(contains(b"bPPb", b"bPPb"));
}

#[test]
fn contains_finds_the_empty_pattern() {
    assert!(contains(b"", b""));
    assert!(contains(b"8/8", b""));
}

#[test]
fn contains_restarts_after_a_partial_match() {
    assert!(contains(b"bPbPPb", b"bPPb"));
    assert!(contains(b"bbPPb", b"bPPb"));
}

#[test]
fn contains_agrees_with_str_contains() {
    let texts = [
        "rnbqkbnr/pppppppp/8/8/8/8/PPPPPPPP/RNBQKBNR",
        "4k3/8/8/1bPPb3/8/8/8/4K3",
        "6k1/8/8/1BppB3/8/8/8/4K3",
        "6k1/8/8/b1PPb3/8/8/8/6K1",
        "",
    ];
    for text in texts {
        for pattern in ["bPPb", "BppB", "8/8", "/"] {
            assert_eq!(contains(text.as_bytes(), pattern.as_bytes()), text.contains(pattern));
        }
    }
}

#[test]
fn confirm_for_black_seeks_black_bishops_round_white_pawns() {
    assert!(confirm(Color::Black, b"4k3/8/8/1bPPb3/8/8/8/4K3"));
    assert!(!confirm(Color::Black, b"6k1/8/8/1BppB3/8/8/8/4K3"));
}

#[test]
fn confirm_for_white_seeks_white_bishops_round_black_pawns() {
    assert!(confirm(Color::White, b"6k1/8/8/1BppB3/8/8/8/4K3"));
    assert!(!confirm(Color::White, b"4k3/8/8/1bPPb3/8/8/8/4K3"));
}

#[test]
fn confirm_rejects_a_gap_between_bishop_and_pawn() {
    assert!(!confirm(Color::Black, b"6k1/8/8/b1PPb3/8/8/8/6K1"));
    assert!(!confirm(Color::Black, b"6k1/8/8/bPP1b3/8/8/8/6K1"));
}

#[test]
fn confirm_rejects_a_run_across_two_ranks() {
    assert!(!confirm(Color::Black, b"6k1/8/6bP/Pb6/8/8/8/6K1"));
}

#[test]
fn confirm_rejects_other_orders() {
    assert!(!confirm(Color::Black, b"6k1/8/8/PbbP4/8/8/8/6K1"));
    assert!(!confirm(Color::Black, b"6k1/8/8/bPbP4/8/8/8/6K1"));
    assert!(!confirm(Color::Black, b"6k1/8/8/bPPPb3/8/8/8/6K1"));
}

#[test]
fn detect_skips_the_starting_position() {
    assert_eq!(detect(&Chess::default()), Outcome::Skip);
}

#[test]
fn detect_skips_without_bishops() {
    let pos = position("rn1qk1nr/pppppppp/8/8/8/8/PPPPPPPP/RN1QK1NR w KQkq - 0 1");
    assert_eq!(detect(&pos), Outcome::Skip);
}

#[test]
fn detect_skips_with_a_band_bishop_but_no_rank_pair() {
    let pos = position("4k3/8/8/8/8/3B4/8/4K3 w - - 0 1");
    assert_eq!(detect(&pos), Outcome::Skip);
}

#[test]
fn detect_skips_with_a_rank_pair_but_no_band_bishop() {
    let pos = position("6k1/8/8/BB4pp/8/8/8/6K1 w - - 0 1");
    assert_eq!(detect(&pos), Outcome::Skip);
}

#[test]
fn detect_skips_when_bishops_and_pawns_are_on_different_ranks() {
    let pos = position("6k1/8/8/3bb3/3PP3/8/8/6K1 b - - 0 1");
    assert_eq!(detect(&pos), Outcome::Skip);
}

#[test]
fn detect_confirms_for_black() {
    let pos = position("4k3/8/8/1bPPb3/8/8/8/4K3 b - - 0 1");
    assert_eq!(detect(&pos), Outcome::Confirmed);
}

#[test]
fn detect_confirms_for_white() {
    let pos = position("6k1/8/8/1BppB3/8/8/8/4K3 w - - 0 1");
    assert_eq!(detect(&pos), Outcome::Confirmed);
}

#[test]
fn detect_looks_at_the_bishops_of_the_side_to_move_only() {
    let pos = position("4k3/8/8/1bPPb3/8/8/8/4K3 w - - 0 1");
    assert_eq!(detect(&pos), Outcome::Skip);
}

#[test]
fn detect_looks_at_the_pawns_of_the_other_side_only() {
    let pos = position("4k3/8/8/1bppb3/8/8/8/4K3 b - - 0 1");
    assert_eq!(detect(&pos), Outcome::Skip);
}

#[test]
fn detect_passes_without_confirming_a_gap() {
    let pos = position("6k1/8/8/b1PPb3/8/8/8/6K1 b - - 0 1");
    assert_eq!(detect(&pos), Outcome::PassOnly);
}

#[test]
fn detect_passes_without_confirming_other_orders() {
    let pos = position("6k1/8/8/bP1bP3/8/8/8/6K1 b - - 0 1");
    assert_eq!(detect(&pos), Outcome::PassOnly);
}

#[test]
fn detect_confirms_a_run_on_another_rank_than_the_rank_pair_needs() {
    let pos = position("6k1/8/bPPb4/8/8/8/8/6K1 b - - 0 1");
    assert_eq!(detect(&pos), Outcome::Confirmed);
}

#[test]
fn detect_does_not_change_the_position() {
    let pos = position("4k3/8/8/1bPPb3/8/8/8/4K3 b - - 0 1");
    let before = pos.clone();
    let _ = detect(&pos);
    assert_eq!(pos, before);
}

/// Writes the board part of a FEN for pieces given by file, rank and letter.
fn board_fen(pieces: &[(u32, u32, char)]) -> String {
    let mut text = String::new();
    for rank in (0..8).rev() {
        let mut empty = 0;
        for file in 0..8 {
            match pieces.iter().find(|piece| piece.0 == file && piece.1 == rank) {
                Some(piece) => {
                    if empty > 0 {
                        text.push_str(&empty.to_string());
                        empty = 0;
                    }
                    text.push(piece.2);
                }
                None => empty += 1,
            }
        }
        if empty > 0 {
            text.push_str(&empty.to_string());
        }
        if rank > 0 {
            text.push('/');
        }
    }
    text
}

/// A valid position with the given pieces and both kings, which are put off
/// the given rank on the first squares where the position is valid.
fn arrange(pieces: &[(u32, u32, char)], turn: char, off_rank: u32) -> Chess {
    for white_king in 0..64u32 {
        for black_king in 0..64u32 {
            let kings = [(white_king % 8, white_king / 8, 'K'), (black_king % 8, black_king / 8, 'k')];
            if white_king == black_king || kings.iter().any(|king| king.1 == off_rank) {
                continue;
            }
            let mut all = pieces.to_vec();
            all.extend_from_slice(&kings);
            let fen = format!("{} {} - - 0 1", board_fen(&all), turn);
            let parsed = Fen::from_ascii(fen.as_bytes()).expect("a well-formed FEN");
            if let Ok(pos) = parsed.into_position(CastlingMode::Standard) {
                return pos;
            }
        }
    }
    panic!("no valid position with these pieces");
}

fn in_band(file: u32, rank: u32) -> bool {
    (3..=5).contains(&file) && (1..=6).contains(&rank)
}

#[test]
fn motif_is_confirmed_wherever_it_stands() {
    for rank in 1..7 {
        for file in 0..5 {
            let black = [
                (file, rank, 'b'),
                (file + 1, rank, 'P'),
                (file + 2, rank, 'P'),
                (file + 3, rank, 'b'),
            ];
            assert_eq!(detect(&arrange(&black, 'b', rank)), Outcome::Confirmed);
            let white = [
                (file, rank, 'B'),
                (file + 1, rank, 'p'),
                (file + 2, rank, 'p'),
                (file + 3, rank, 'B'),
            ];
            assert_eq!(detect(&arrange(&white, 'w', rank)), Outcome::Confirmed);
        }
    }
}

#[test]
fn motif_of_the_side_not_to_move_is_skipped() {
    for rank in 1..7 {
        for file in 0..5 {
            let black = [
                (file, rank, 'b'),
                (file + 1, rank, 'P'),
                (file + 2, rank, 'P'),
                (file + 3, rank, 'b'),
            ];
            assert_eq!(detect(&arrange(&black, 'w', rank)), Outcome::Skip);
        }
    }
}

#[test]
fn confirmed_means_bishop_pawn_pawn_bishop_on_adjacent_squares() {
    let rank = 3;
    for first_bishop in 0..8 {
        for second_bishop in first_bishop + 1..8 {
            for first_pawn in 0..8 {
                for second_pawn in first_pawn + 1..8 {
                    if [first_pawn, second_pawn]
                        .iter()
                        .any(|pawn| *pawn == first_bishop || *pawn == second_bishop)
                    {
                        continue;
                    }
                    let pieces = [
                        (first_bishop, rank, 'b'),
                        (second_bishop, rank, 'b'),
                        (first_pawn, rank, 'P'),
                        (second_pawn, rank, 'P'),
                    ];
                    let flanked = first_pawn == first_bishop + 1
                        && second_pawn == first_bishop + 2
                        && second_bishop == first_bishop + 3;
                    let band = in_band(first_bishop, rank) || in_band(second_bishop, rank);
                    let expected = if flanked {
                        Outcome::Confirmed
                    } else if band {
                        Outcome::PassOnly
                    } else {
                        Outcome::Skip
                    };
                    assert_eq!(detect(&arrange(&pieces, 'b', rank)), expected, "{:?}", pieces);
                }
            }
        }
    }
}

#[test]
fn bishops_and_pawns_on_neighbouring_ranks_are_not_confirmed() {
    let pieces = [(7, 4, 'b'), (0, 3, 'P'), (1, 3, 'P'), (2, 3, 'b'), (4, 3, 'b')];
    let pos = arrange(&pieces, 'b', 3);
    assert!(pos.board().to_string().contains("b/PPb1b3"));
    assert_eq!(detect(&pos), Outcome::PassOnly);
}
