//! A turn-based, grid-positioned multiplayer game engine for chat
//! communities: each community hosts at most one game, a rectangular board
//! on which players hold a position, a health value, an action-point balance
//! and a vision radius. The crate holds the direction resolver, the
//! persistence gateway over the two relations, the game engine — create,
//! destroy, join with randomized placement, movement, batch supply — and the
//! deterministic board-image composition, each with a verified contract.

pub mod direction;
pub mod engine;
pub mod render;
pub mod state;
