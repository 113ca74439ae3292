pub mod accounts;
pub mod address;
pub mod error;
pub mod registry;
pub mod settlement;
pub mod state;
pub mod tune_arena_betting;
pub mod solvency;
