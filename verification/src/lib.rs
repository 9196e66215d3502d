//! Counter-Strike 2 Game State Integration: the verified core.

pub mod cfg;
pub mod dispatcher;
pub mod error;
pub mod events;
pub mod handlers;
pub mod listener;
pub mod model;
pub mod numbers;
pub mod snapshot;
pub mod steam;
pub mod strmap;
pub mod text;
