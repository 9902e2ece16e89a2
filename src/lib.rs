pub mod cache;
pub mod codec;
pub mod laws;
pub mod record;
pub mod signal;
pub mod store;
