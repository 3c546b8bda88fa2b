//! Reconstruction of user login sessions from an ordered login/logout
//! accounting log.
//!
//! The library consumes an already-decoded, chronologically ordered sequence
//! of [`LogRecord`] values (oldest first) and produces, for every login, an
//! [`Enter`] event paired with its resolved [`Exit`] outcome: a clean logout,
//! an unclean restart, a deliberate reboot or shutdown, or "still logged in".
//! Decoding the on-disk record format, timezone handling and text output are
//! left to the surrounding program.

pub mod cli;
pub mod engine;
pub mod laws;
pub mod model;
pub mod sweep;

pub use cli::cli;
pub use engine::find_accompanying_logout;
pub use engine::get_logins;
pub use engine::reconstruct;
pub use model::Enter;
pub use model::Exit;
pub use model::LastError;
pub use model::LogRecord;
pub use sweep::reconstruct_linear;
