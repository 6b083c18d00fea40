//! What holds of the library as a whole.

pub mod routing;
pub mod failover;
pub mod lists;
pub mod editing;
pub mod gateway;
pub mod models;
pub mod choice;
pub mod attempts;
pub mod wire;
pub mod texts;
pub mod keys;
