//! QPACK (RFC 9204) wire primitives: prefix integers, prefix strings and the
//! encoder and decoder stream instructions.
use vstd::prelude::*;

pub mod prefix_int;
pub mod qpack_result;
pub mod prefix_string;
pub mod stream;
pub mod string_decoder;
pub mod huffman;
pub mod encoder_instructions;

verus! {
} // verus!
