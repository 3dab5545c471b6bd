pub mod assets;
pub mod counts_actions;
pub mod draw;
pub mod game;
pub mod job;
pub mod job_slot;
pub mod skill;
pub mod palette;
pub mod number_text;
pub mod laws;
