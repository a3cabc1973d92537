//! A binary codec for the fixed-size header of an ELF object file.
//!
//! The `endian` module reads and writes fixed-width unsigned integers in a
//! chosen byte order; the `elf` module decodes and encodes the header itself
//! and preserves everything after it as an opaque tail.

pub mod elf;
pub mod endian;
