//! Decoding and encoding of the fixed-size ELF header.

pub mod file;
