pub mod amount;
pub mod transaction;
pub mod engine;
pub mod laws;
