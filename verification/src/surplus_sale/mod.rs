//! The surplus sale: an auction of members' equipment, and the settling of
//! accounts between each member and the club afterwards.

pub mod model;
pub mod types;
pub mod lots;
pub mod laws;
pub mod export;
