pub mod effects;
pub mod laws;
pub mod rgb;
