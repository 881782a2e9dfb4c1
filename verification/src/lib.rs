pub mod engine;
pub mod laws;
pub mod scanner;
pub mod preview;
pub mod timestamp;
pub mod writer;
