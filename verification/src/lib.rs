//! Per-repository git identity management: named identity profiles, the
//! repositories bound to them, and the rules deciding which identity a commit
//! is made under.

pub mod assoc;
pub mod store;
pub mod repo;
pub mod text;
pub mod hook;
pub mod identity;
pub mod provision;
pub mod manage;
pub mod paths;
pub mod laws;
