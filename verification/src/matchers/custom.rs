//! Custom fixed-header matcher: a deliberately loose ad-hoc format for
//! otherwise-unclassified fixed headers, recognized by one of three magic
//! first bytes. Multi-byte values are little-endian, unlike Modbus.

use vstd::prelude::*;
use vstd::string::StringExecFns;

verus! {

use crate::fields::{FieldMap, FieldV, FieldValue};
use crate::render::{push_hex_byte, spec_hex_byte};

/// The little-endian sixteen-bit value of two bytes.
pub open spec fn spec_le16(b0: u8, b1: u8) -> u16 {
    (b1 * 256 + b0) as u16
}

/// Reads a little-endian sixteen-bit value.
pub fn le16(b0: u8, b1: u8) -> (r: u16)
    ensures
        r == spec_le16(b0, b1),
{
    (b1 as u16) * 256 + (b0 as u16)
}

/// The little-endian thirty-two-bit value of four bytes.
pub open spec fn spec_le32(b0: u8, b1: u8, b2: u8, b3: u8) -> u32 {
    (b3 * 0x1000000 + b2 * 0x10000 + b1 * 0x100 + b0) as u32
}

/// Reads a little-endian thirty-two-bit value.
pub fn le32(b0: u8, b1: u8, b2: u8, b3: u8) -> (r: u32)
    ensures
        r == spec_le32(b0, b1, b2, b3),
{
    (b3 as u32) * 0x1000000 + (b2 as u32) * 0x10000 + (b1 as u32) * 0x100 + (b0 as u32)
}

/// Whether the buffer carries the custom header signature: at least
/// fifteen bytes and an accepted magic first byte.
pub open spec fn custom_matches(b: Seq<u8>) -> bool {
    b.len() >= 15 && (b[0] == 0xaa || b[0] == 0xab || b[0] == 0x7e)
}

/// The magic rendering: the first four bytes as space-separated
/// uppercase hex pairs.
pub open spec fn spec_magic(b: Seq<u8>) -> Seq<char> {
    spec_hex_byte(b[0]) + seq![' '] + spec_hex_byte(b[1]) + seq![' ']
        + spec_hex_byte(b[2]) + seq![' '] + spec_hex_byte(b[3])
}

/// The name of a custom-header message type; types beyond the four
/// defined ones are reported as unknown.
pub open spec fn spec_message_type_name(ty: u8) -> Seq<char> {
    match ty {
        0x01u8 => "Request"@,
        0x02u8 => "Response"@,
        0x03u8 => "Notify"@,
        0x04u8 => "Error"@,
        _ => "Unknown"@,
    }
}

pub fn get_message_type_name(ty: u8) -> (r: &'static str)
    ensures
        r@ == spec_message_type_name(ty),
{
    match ty {
        0x01u8 => "Request",
        0x02u8 => "Response",
        0x03u8 => "Notify",
        0x04u8 => "Error",
        _ => "Unknown",
    }
}

/// The field mapping emitted for a matched custom-header buffer.
pub open spec fn spec_custom_fields(b: Seq<u8>) -> Map<Seq<char>, FieldV> {
    Map::<Seq<char>, FieldV>::empty()
        .insert("magic_number"@, FieldV::Str(spec_magic(b)))
        .insert("version"@, FieldV::UInt(spec_le16(b[4], b[5]) as u64))
        .insert("message_type"@, FieldV::Str("0x"@ + spec_hex_byte(b[6])))
        .insert("message_type_name"@, FieldV::Str(spec_message_type_name(b[6])))
        .insert("sequence"@, FieldV::UInt(spec_le32(b[7], b[8], b[9], b[10]) as u64))
        .insert("payload_length"@, FieldV::UInt(spec_le32(b[11], b[12], b[13], b[14]) as u64))
}

/// A decoded custom fixed header.
pub struct CustomHeaderResult {
    pub magic: String,
    pub version: u16,
    pub message_type: u8,
    pub sequence: u32,
    pub payload_length: u32,
    pub fields: FieldMap,
}

/// Attempts to read the buffer as a custom fixed header. The match
/// succeeds exactly on buffers of at least fifteen bytes whose first
/// byte is one of the accepted magic values.
pub fn parse_custom_header(data: &[u8]) -> (r: Option<CustomHeaderResult>)
    ensures
        r is Some <==> custom_matches(data@),
        r matches Some(m) ==> ({
            &&& m.magic@ == spec_magic(data@)
            &&& m.version == spec_le16(data@[4], data@[5])
            &&& m.message_type == data@[6]
            &&& m.sequence == spec_le32(data@[7], data@[8], data@[9], data@[10])
            &&& m.payload_length == spec_le32(data@[11], data@[12], data@[13], data@[14])
            &&& m.fields@ == spec_custom_fields(data@)
        }),
{
    if data.len() < 15 {
        return None;
    }
    let magic_ok = data[0] == 0xaa || data[0] == 0xab || data[0] == 0x7e;
    if !magic_ok {
        return None;
    }
    let mut magic = String::new();
    push_hex_byte(&mut magic, data[0]);
    crate::text::push_char(&mut magic, ' ');
    push_hex_byte(&mut magic, data[1]);
    crate::text::push_char(&mut magic, ' ');
    push_hex_byte(&mut magic, data[2]);
    crate::text::push_char(&mut magic, ' ');
    push_hex_byte(&mut magic, data[3]);
    proof {
        assert(magic@ =~= spec_magic(data@));
    }
    let version = le16(data[4], data[5]);
    let message_type = data[6];
    let sequence = le32(data[7], data[8], data[9], data[10]);
    let payload_length = le32(data[11], data[12], data[13], data[14]);

    let mut fields = FieldMap::new();
    fields.set("magic_number", FieldValue::Str(magic.clone()));
    fields.set("version", FieldValue::UInt(version as u64));
    let mut mt = String::from_str("0x");
    push_hex_byte(&mut mt, message_type);
    fields.set("message_type", FieldValue::Str(mt));
    fields.set(
        "message_type_name",
        FieldValue::Str(String::from_str(get_message_type_name(message_type))),
    );
    fields.set("sequence", FieldValue::UInt(sequence as u64));
    fields.set("payload_length", FieldValue::UInt(payload_length as u64));

    Some(CustomHeaderResult {
        magic,
        version,
        message_type,
        sequence,
        payload_length,
        fields,
    })
}

} // verus!
