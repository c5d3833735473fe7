pub mod block;
pub mod chain;
pub mod digits;
pub mod hashing;
pub mod merkle;
