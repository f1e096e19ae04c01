//! The rules engine behind the tracker. Positions, textual moves and their
//! resolution are shakmaty's: this module declares its types, names what its
//! functions return, and wraps each call in a function whose contract Verus
//! takes on trust. Nothing here is proved; the rest of the library is proved
//! from what is stated here.

use shakmaty::Position;
use vstd::prelude::*;

verus! {

/// One of the two sides.
#[derive(Clone, Copy, Debug, PartialEq, Eq, Structural)]
pub enum Color {
    White,
    Black,
}

/// Kind of a piece.
#[derive(Clone, Copy, Debug, PartialEq, Eq, Structural)]
pub enum Role {
    Pawn,
    Knight,
    Bishop,
    Rook,
    Queen,
    King,
}

/// A piece: a role in a color.
#[derive(Clone, Copy, Debug, PartialEq, Eq, Structural)]
pub struct Piece {
    pub color: Color,
    pub role: Role,
}

impl Color {
    /// The other side.
    pub open spec fn other(self) -> Color {
        match self {
            Color::White => Color::Black,
            Color::Black => Color::White,
        }
    }
}

/// `shakmaty::Chess`, a position of standard chess. Verus sees nothing inside
/// it.
#[verifier::external_type_specification]
#[verifier::external_body]
pub struct ExChess(shakmaty::Chess);

/// `shakmaty::san::SanPlus`, a move in standard algebraic notation with its
/// check suffix. Verus sees nothing inside it.
#[verifier::external_type_specification]
#[verifier::external_body]
pub struct ExSanPlus(shakmaty::san::SanPlus);

/// `shakmaty::Move`, a move with its squares. Verus sees nothing inside it.
#[verifier::external_type_specification]
#[verifier::external_body]
pub struct ExMove(shakmaty::Move);

/// `shakmaty::san::SanError`, the reason why a textual move names no move.
/// Verus sees nothing inside it.
#[verifier::external_type_specification]
#[verifier::external_body]
pub struct ExSanError(shakmaty::san::SanError);

/// What stands on the board of a position: for each piece the mask of the
/// squares that hold it, as `Board::by_piece` gives it.
pub uninterp spec fn occupancy(pos: shakmaty::Chess) -> Map<Piece, u64>;

/// The side that is about to move in a position, as `Position::turn` gives
/// it.
pub uninterp spec fn side_to_move(pos: shakmaty::Chess) -> Color;

/// Whether the position is one that shakmaty generates moves for without
/// fail: the starting position, or what a legal move makes of such a
/// position. A position that was built by setting shakmaty's validation aside
/// may hold more material than its move lists have room for.
pub uninterp spec fn playable(pos: shakmaty::Chess) -> bool;

/// The board part of a FEN as `Board::board_fen` writes it for the pieces of
/// `occupancy`, with the squares in `promoted` marked as promoted pieces.
pub uninterp spec fn board_text(occupancy: Map<Piece, u64>, promoted: u64) -> Seq<u8>;

/// The move that `San::to_move` finds for a textual move in a position, if it
/// finds one.
pub uninterp spec fn resolution(pos: shakmaty::Chess, san: shakmaty::san::SanPlus) -> Option<
    shakmaty::Move,
>;

/// The position that `Position::play_unchecked` makes of a position and a
/// move.
pub uninterp spec fn position_after(pos: shakmaty::Chess, m: shakmaty::Move) -> shakmaty::Chess;

/// The squares of each piece at the start of a game.
pub open spec fn starting_squares(piece: Piece) -> u64 {
    match (piece.color, piece.role) {
        (Color::White, Role::Pawn) => 0x0000_0000_0000_ff00,
        (Color::White, Role::Knight) => 0x0000_0000_0000_0042,
        (Color::White, Role::Bishop) => 0x0000_0000_0000_0024,
        (Color::White, Role::Rook) => 0x0000_0000_0000_0081,
        (Color::White, Role::Queen) => 0x0000_0000_0000_0008,
        (Color::White, Role::King) => 0x0000_0000_0000_0010,
        (Color::Black, Role::Pawn) => 0x00ff_0000_0000_0000,
        (Color::Black, Role::Knight) => 0x4200_0000_0000_0000,
        (Color::Black, Role::Bishop) => 0x2400_0000_0000_0000,
        (Color::Black, Role::Rook) => 0x8100_0000_0000_0000,
        (Color::Black, Role::Queen) => 0x0800_0000_0000_0000,
        (Color::Black, Role::King) => 0x1000_0000_0000_0000,
    }
}

/// Whether a position is the standard initial arrangement with White to move.
pub open spec fn is_starting_position(pos: shakmaty::Chess) -> bool {
    &&& side_to_move(pos) == Color::White
    &&& forall|piece: Piece| #[trigger] occupancy(pos)[piece] == starting_squares(piece)
}

/// Whether a move is legal in a position: some textual move resolves to it.
pub open spec fn legal(pos: shakmaty::Chess, m: shakmaty::Move) -> bool {
    exists|san: shakmaty::san::SanPlus| resolution(pos, san) == Some(m)
}

/// Calls `Chess::default()`. On trust: the result is the starting position of
/// a game, with the pieces where `starting_squares` puts them and White to
/// move.
#[verifier::external_body]
pub(crate) fn starting_position() -> (pos: shakmaty::Chess)
    ensures
        playable(pos),
        is_starting_position(pos),
{
    shakmaty::Chess::default()
}

/// Calls `Position::our`. On trust: the result is the mask of the squares that
/// hold a piece of the given role and of the side to move.
#[verifier::external_body]
pub(crate) fn our(pos: &shakmaty::Chess, role: Role) -> (squares: u64)
    ensures
        squares == occupancy(*pos)[(Piece { color: side_to_move(*pos), role })],
{
    let role = match role {
        Role::Pawn => shakmaty::Role::Pawn,
        Role::Knight => shakmaty::Role::Knight,
        Role::Bishop => shakmaty::Role::Bishop,
        Role::Rook => shakmaty::Role::Rook,
        Role::Queen => shakmaty::Role::Queen,
        Role::King => shakmaty::Role::King,
    };
    pos.our(role).0
}

/// Calls `Position::their`. On trust: the result is the mask of the squares
/// that hold a piece of the given role and of the side that is not to move.
#[verifier::external_body]
pub(crate) fn their(pos: &shakmaty::Chess, role: Role) -> (squares: u64)
    ensures
        squares == occupancy(*pos)[(Piece { color: side_to_move(*pos).other(), role })],
{
    let role = match role {
        Role::Pawn => shakmaty::Role::Pawn,
        Role::Knight => shakmaty::Role::Knight,
        Role::Bishop => shakmaty::Role::Bishop,
        Role::Rook => shakmaty::Role::Rook,
        Role::Queen => shakmaty::Role::Queen,
        Role::King => shakmaty::Role::King,
    };
    pos.their(role).0
}

/// Calls `Position::turn`. On trust: the result is the side to move.
#[verifier::external_body]
pub(crate) fn turn(pos: &shakmaty::Chess) -> (color: Color)
    ensures
        color == side_to_move(*pos),
{
    match pos.turn() {
        shakmaty::Color::White => Color::White,
        shakmaty::Color::Black => Color::Black,
    }
}

/// Calls `Board::board_fen` on the board of the position and writes the
/// result out as bytes. On trust: the text depends on the pieces on the board
/// and on `promoted` alone. What the text is, is not stated.
#[verifier::external_body]
pub(crate) fn board_fen(pos: &shakmaty::Chess, promoted: u64) -> (text: Vec<u8>)
    ensures
        text@ == board_text(occupancy(*pos), promoted),
{
    pos.board().board_fen(shakmaty::Bitboard(promoted)).to_string().into_bytes()
}

/// Calls `San::to_move`. On trust: whether a move is found, and which, depends
/// on the position and the textual move alone. Which moves are found is not
/// stated.
#[verifier::external_body]
pub(crate) fn resolve(pos: &shakmaty::Chess, san: &shakmaty::san::SanPlus) -> (found: Result<
    shakmaty::Move,
    shakmaty::san::SanError,
>)
    requires
        playable(*pos),
    ensures
        found matches Ok(m) ==> resolution(*pos, *san) == Some(m),
        found is Err ==> resolution(*pos, *san) is None,
{
    san.san.to_move(pos)
}

/// Calls `Position::play_unchecked`, which may fail on a move that is not
/// legal. On trust: with a legal move the new position depends on the old one
/// and the move alone, and shakmaty generates moves for it as for the old one.
#[verifier::external_body]
pub(crate) fn play(pos: &mut shakmaty::Chess, m: &shakmaty::Move)
    requires
        playable(*old(pos)),
        legal(*old(pos), *m),
    ensures
        *final(pos) == position_after(*old(pos), *m),
        playable(*final(pos)),
{
    pos.play_unchecked(m)
}

} // verus!
