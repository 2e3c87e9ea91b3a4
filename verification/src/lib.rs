//! Tracking of a single player's hand against the wall in a game of riichi mahjong.
//!
//! The central type is [`game::GameManager`]: it owns the wall and the hand, accepts
//! typed operations, and either applies one completely or leaves everything as it was.

pub mod game;
