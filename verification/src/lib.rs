pub mod token;
pub mod attrs;
pub mod enum_dispatch;
pub mod laws;
