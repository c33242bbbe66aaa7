pub mod numbers;
pub mod scalars;
pub mod wide;
pub mod strings;
pub mod ip;
pub mod hashes;
