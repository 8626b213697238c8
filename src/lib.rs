//! Rule engine of a Blokus-style tile-placement game: the catalog of
//! polyomino pieces and their rotations, the board, and the rules that decide
//! where a color may place a piece.

pub mod grid;
pub mod shape;
pub mod count;
pub mod piece;
pub mod board;
pub mod messages;
pub mod text;

pub use grid::{Grid, CellText, DIM};
pub use shape::{MaskCell, Rotation, ShapeError, check_mask, parse_mask, rot_piece_90, rot_piece_180, mask_to_coords};
pub use piece::{Piece, PieceOffsets, PIECE_COUNT, shape_offsets};
pub use board::{Board, Occupancy, Validity, coords_for_placement};
pub use messages::{ClientMessage, ServerMessage};
pub use text::{title_case, title_case_with};
