pub mod config;
pub mod dispatch;
pub mod energy;
pub mod filter;
pub mod laws;
pub mod model;
pub mod reply;
pub mod segmenter;
