//! Rule engine of a falling-block puzzle game: the shape table and rotation
//! codec, the playing field, the falling piece and the game session.
pub mod field;
pub mod shape;
pub mod tetromino;
pub mod game;
