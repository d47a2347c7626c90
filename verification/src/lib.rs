//! Utilities for whitespace-tokenized input, bounds-checked sequence ranges,
//! and fixed-width integer decoding under a byte-order policy.

pub mod bytes_utils;
pub mod error;
pub mod files;
pub mod reader;
pub mod str_utils;
pub mod system;
pub mod tokens;
pub mod vec_utils;
