//! An in-memory scoreboard registry: players are registered under validated,
//! unique names, receive sequential ids starting at 1, and gain or lose points
//! as match results are recorded. Listing operations return the players in
//! ascending id order.

pub mod board;
pub mod input;
pub mod text;

pub use board::LookupError;
pub use board::PlayerData;
pub use board::Scoreboard;
pub use board::ValidationError;
