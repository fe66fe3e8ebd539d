//! The departments whose work is modelled in depth.

pub mod devops;
pub mod infosec;
pub mod networking;
pub mod ops;
