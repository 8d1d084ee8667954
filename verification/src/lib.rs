//! Rules of a chess variant in which a card, drawn after every move, may
//! transform the pieces of the side that is about to play.
//!
//! A [`Board`] holds a game in progress. It lists the legal moves of the side
//! to move, makes a move, tells how the game stands, and draws a card. What
//! each of these does is stated over [`position::Position`], the mathematical
//! model of a position: [`rules`] says how the pieces move and [`mutation`]
//! what the cards do. [`laws`] holds what follows for every game.

pub mod board;
pub mod candidates;
pub mod deck;
pub mod event;
pub mod events;
pub mod generate;
pub mod laws;
pub mod lines;
pub mod location;
pub mod moves;
pub mod mutation;
pub mod offers;
pub mod piece;
pub mod play;
pub mod position;
pub mod random;
pub mod rules;
pub mod seqs;
pub mod shape;
pub mod sound;
pub mod text;

pub use board::{Board, BoardView};
pub use event::Event;
pub use location::Location;
pub use moves::{GameState, LocationState, Move};
pub use piece::{Color, Piece, PieceType};
pub use position::Position;
