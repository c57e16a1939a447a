//! Shared binary-reading support.

pub mod big_endian;
pub mod num;
pub mod byte_reader;
pub mod decimal;
