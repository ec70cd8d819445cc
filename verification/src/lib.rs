//! Game logic of a small light-switch puzzle room: the achievement toasts
//! that pop up and stack in the corner of the screen, the triggers that earn
//! them, and the tiled wall that displays the score.
//!
//! Everything here works on plain values. Time is a reading of a monotonic
//! clock in milliseconds, screen distances are thousandths of a pixel, and
//! the scene itself (entities, meshes, sounds) belongs to the caller.

pub mod achievements;
pub mod history;
pub mod triggers;
pub mod wall;
