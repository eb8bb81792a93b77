//! Hover and selection state machine for a grid of tic-tac-toe boards.
//!
//! The library tracks which cell and which board the pointer occupies,
//! emits edge-triggered enter/exit transitions, keeps the single active
//! board, navigates between boards on clicks with toroidal wraparound,
//! and decides which highlight layer each transition toggles.

pub mod event;
pub mod geom;
pub mod hit;
pub mod hover;
pub mod nav;
pub mod region;
pub mod session;
pub mod skin;
