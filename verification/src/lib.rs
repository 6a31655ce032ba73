//! The rules of dot-tower that do not depend on floating point: which floor is
//! locked and what the tick looks at, who spawns next, whom a healer can
//! reach, what prestige keeps and clears, what load-time validation may
//! change, what a save load decides, what time away is paid for, where the
//! column looks and which climbers it draws, and what the game says in counts.
//!
//! The economy itself — health, damage, gold, prices, multipliers — is `f64`
//! throughout and lives with the simulation outside this crate; what it hands
//! in here is counts, floors and clock readings.

pub mod types;
pub mod tower;
pub mod stream;
pub mod tuning;
pub mod save;
pub mod offline;
pub mod autoplay;
pub mod slot;
pub mod sweep;
pub mod heal;
pub mod view;
pub mod rest;
pub mod text;
pub mod laws;

pub use types::{ClimberType, PerType};
pub use tower::Floor;
