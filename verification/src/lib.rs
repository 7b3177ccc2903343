//! Movement integrity verification: a window of per-tick player state is
//! encoded as a fixed-point algebraic trace whose constraints say that the
//! state evolved by the game's deterministic physics.

pub mod check_constraints;
pub mod encoding;
pub mod field;
pub mod integrity;
pub mod matrix;
pub mod movement_air;
pub mod movement_trace;
pub mod proof_system;
pub mod proof_task;
pub mod simulation;
