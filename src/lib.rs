//! Extraction and insertion of bit fields of any width in fixed-width integers and in
//! big-endian byte sequences. Bit offset 0 is the most significant bit.
//!
//! The contracts speak of the functions of [`model`]: a value's bit pattern, its bits as a
//! sequence, the field that a span of them spells, and the outcome of each operation.
mod buffer;
mod ints;
mod laws;
mod lemmas;
pub mod model;
mod scalar;
mod single_bit;
mod width;

pub use buffer::{extract_buffer, insert_buffer, ExtractBitsFromVecU8, InsertBitsIntoVecU8};
pub use ints::{bits_of, FixedWidthInt, SignedInfo, TypeInfo};
pub use laws::{
    law_buffer_non_interference, law_buffer_range_rejection, law_buffer_round_trip,
    law_scalar_non_interference, law_scalar_range_rejection, law_scalar_round_trip, written_field,
};
pub use model::{BitError, IntType};
pub use scalar::{
    extract_scalar, insert_scalar, result_value, ExtractBitsFromIntegralTypes,
    InsertIntoSizedIntegerTypes,
};
pub use single_bit::SingleBits;
pub use width::{n_required_bits_for_a_signed_int, n_required_bits_for_an_unsigned_int};
