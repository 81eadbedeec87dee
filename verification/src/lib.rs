//! A reusable engine for Battleship-style grid games.
//!
//! The engine is layered: a geometry ([`board::Dimensions`]) and ship shapes
//! ([`ships::ShipShape`]) at the bottom, a per-player board with a setup phase
//! and a play phase above them, a multi-player game on top of the boards, and
//! a narrowed two-player game on the classic ten by ten grid. Beside the
//! engine, [`console`] holds what a text front end of the two-player game
//! decides: how lines are read as commands and how boards are laid out.
//!
//! Every type has a mathematical view, and every operation states its effect
//! on that view. The laws that hold between operations are proof functions
//! next to the views they speak of.
pub mod board;
pub mod console;
pub mod game;
pub mod ships;
