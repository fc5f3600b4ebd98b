//! Traversing the sibling directories, the directories that share one parent.
//!
//! [`Dirs`] holds the target directories, their parent, and the position of the
//! current directory among them; [`Nextable`] finds the next directory by a
//! [`NexterType`] and a step.
pub mod command;
pub mod dirs;
pub mod error;
pub mod factory;
pub mod laws;
pub mod minisib;
pub mod nexter;
pub mod path;
pub mod printer;
pub mod text;

pub use dirs::{Dir, Dirs, Nextable};
pub use nexter::NexterType;
pub use error::{Error, Result};
