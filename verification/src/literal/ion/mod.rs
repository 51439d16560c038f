//! Scanners for the Ion text forms that PartiQL literals use.
pub mod string;
pub mod timestamp;
pub mod number;
pub mod blob;
pub mod annotation;
