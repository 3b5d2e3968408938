pub mod bbox;
pub mod buffers;
pub mod compose;
pub mod config;
pub mod errors;
pub mod filters;
pub mod height;
pub mod normal;
pub mod pipeline;
pub mod region;
pub mod segment;
