//! Sense data: the triples this target reports and their wire encoding.
use vstd::prelude::*;

verus! {

/// A sense key with its additional sense code and qualifier.
#[derive(Debug, PartialEq, Eq, Clone, Copy, Structural)]
pub struct SenseTriple(pub u8, pub u8, pub u8);

/// Length of fixed-format sense data.
pub const FIXED_SENSE_LEN: usize = 18;

/// The fixed-format encoding of a triple: response code `0x70`, the sense
/// key in byte 2, additional length 10 in byte 7, the code and its
/// qualifier in bytes 12 and 13, zero everywhere else.
pub open spec fn fixed_sense(key: u8, asc: u8, ascq: u8) -> Seq<u8> {
    seq![0x70u8, 0, key, 0, 0, 0, 0, 0x0a, 0, 0, 0, 0, asc, ascq, 0, 0, 0, 0]
}

impl SenseTriple {
    /// Encodes the triple as fixed-format sense data.
    pub fn to_fixed_sense(self) -> (out: Vec<u8>)
        ensures
            out@ == fixed_sense(self.0, self.1, self.2),
            out@.len() == FIXED_SENSE_LEN,
    {
        let out = vec![
            0x70u8, 0x0, self.0, 0x0, 0x0, 0x0, 0x0, 0xa, 0x0, 0x0, 0x0, 0x0, self.1, self.2, 0x0,
            0x0, 0x0, 0x0,
        ];
        assert(out@ =~= fixed_sense(self.0, self.1, self.2));
        out
    }
}

/// ILLEGAL REQUEST: the operation code is not one this target knows.
pub open spec fn invalid_command_operation_code_spec() -> SenseTriple {
    SenseTriple(0x5, 0x20, 0x0)
}

/// ILLEGAL REQUEST: the operation code is not one this target knows.
#[verifier::when_used_as_spec(invalid_command_operation_code_spec)]
pub fn invalid_command_operation_code() -> (t: SenseTriple)
    ensures
        t == invalid_command_operation_code_spec(),
{
    SenseTriple(0x5, 0x20, 0x0)
}

/// ILLEGAL REQUEST: the addressed block lies past the end of the medium.
pub open spec fn logical_block_address_out_of_range_spec() -> SenseTriple {
    SenseTriple(0x5, 0x21, 0x0)
}

/// ILLEGAL REQUEST: the addressed block lies past the end of the medium.
#[verifier::when_used_as_spec(logical_block_address_out_of_range_spec)]
pub fn logical_block_address_out_of_range() -> (t: SenseTriple)
    ensures
        t == logical_block_address_out_of_range_spec(),
{
    SenseTriple(0x5, 0x21, 0x0)
}

/// ILLEGAL REQUEST: a field of the CDB holds a value this target refuses.
pub open spec fn invalid_field_in_cdb_spec() -> SenseTriple {
    SenseTriple(0x5, 0x24, 0x0)
}

/// ILLEGAL REQUEST: a field of the CDB holds a value this target refuses.
#[verifier::when_used_as_spec(invalid_field_in_cdb_spec)]
pub fn invalid_field_in_cdb() -> (t: SenseTriple)
    ensures
        t == invalid_field_in_cdb_spec(),
{
    SenseTriple(0x5, 0x24, 0x0)
}

/// ILLEGAL REQUEST: no logical unit has the addressed number.
pub open spec fn logical_unit_not_supported_spec() -> SenseTriple {
    SenseTriple(0x5, 0x25, 0x0)
}

/// ILLEGAL REQUEST: no logical unit has the addressed number.
#[verifier::when_used_as_spec(logical_unit_not_supported_spec)]
pub fn logical_unit_not_supported() -> (t: SenseTriple)
    ensures
        t == logical_unit_not_supported_spec(),
{
    SenseTriple(0x5, 0x25, 0x0)
}

/// MEDIUM ERROR: the backing store could not be read.
pub open spec fn unrecovered_read_error_spec() -> SenseTriple {
    SenseTriple(0x3, 0x11, 0x0)
}

/// MEDIUM ERROR: the backing store could not be read.
#[verifier::when_used_as_spec(unrecovered_read_error_spec)]
pub fn unrecovered_read_error() -> (t: SenseTriple)
    ensures
        t == unrecovered_read_error_spec(),
{
    SenseTriple(0x3, 0x11, 0x0)
}

} // verus!
