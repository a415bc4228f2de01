//! Predefined languages.
pub mod brainfxck;
pub mod ook;
