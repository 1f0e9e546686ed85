//! Codec for the DXBC container format produced by the Direct3D shader
//! compiler: a byte-level decoder, chunk parsers, a bit-packed instruction
//! token codec, a module builder that emits bit-exact DXBC bytes, and the
//! format's custom streaming checksum.

pub mod bytes;
pub mod error;
pub mod decoder;
pub mod tokens;
pub mod stat;
pub mod checksum;
pub mod shex;
pub mod isgn;
pub mod rdef;
pub mod parser;
pub mod builder;
