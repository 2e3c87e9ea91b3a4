//! Tiles, melds, the wall, the hand, and the manager that drives a turn.

pub mod error;
pub mod game_manager;
pub mod hai;
pub mod haiyama;
pub mod json;
pub mod mentsu;
pub mod model;
pub mod notation;
pub mod session;
pub mod tehai;

pub use error::Error;
pub use game_manager::{GameManager, HaiyamaOperation, Kan, Naku, Operation, State, TehaiOperation};
pub use model::{GameView, HaiyamaOperationView, OperationView, TehaiOperationView};
pub use hai::{Hai, Kazehai, Sangenpai};
pub use json::JsonModel;
pub use haiyama::{Haiyama, HaiyamaView, PlayerNumber};
pub use mentsu::Mentsu;
pub use tehai::{Tehai, TehaiView};
