//! Modbus TCP matcher: a fixed binary MBAP header whose discriminating
//! signature is a zero protocol identifier in bytes two and three.

use vstd::prelude::*;
use vstd::string::StringExecFns;

verus! {

use crate::fields::{FieldMap, FieldV, FieldValue};
use crate::render::{push_hex_byte, push_hex_u16, spec_hex_byte, spec_hex_u16};

/// The big-endian sixteen-bit value of two bytes.
pub open spec fn spec_be16(hi: u8, lo: u8) -> u16 {
    (hi * 256 + lo) as u16
}

/// Reads a big-endian sixteen-bit value.
pub fn be16(hi: u8, lo: u8) -> (r: u16)
    ensures
        r == spec_be16(hi, lo),
{
    (hi as u16) * 256 + (lo as u16)
}

/// Whether the buffer carries the Modbus TCP signature: at least eight
/// bytes and a zero protocol identifier in bytes two and three.
pub open spec fn modbus_matches(b: Seq<u8>) -> bool {
    b.len() >= 8 && b[2] == 0 && b[3] == 0
}

/// The name of a Modbus function code, for the standard read and write
/// codes; every other code is reported as unknown.
pub open spec fn spec_modbus_fn_name(code: u8) -> Seq<char> {
    match code {
        0x01u8 => "Read Coils"@,
        0x02u8 => "Read Discrete Inputs"@,
        0x03u8 => "Read Holding Registers"@,
        0x04u8 => "Read Input Registers"@,
        0x05u8 => "Write Single Coil"@,
        0x06u8 => "Write Single Register"@,
        0x0fu8 => "Write Multiple Coils"@,
        0x10u8 => "Write Multiple Registers"@,
        _ => "Unknown"@,
    }
}

pub fn get_modbus_fn_name(code: u8) -> (r: &'static str)
    ensures
        r@ == spec_modbus_fn_name(code),
{
    match code {
        0x01u8 => "Read Coils",
        0x02u8 => "Read Discrete Inputs",
        0x03u8 => "Read Holding Registers",
        0x04u8 => "Read Input Registers",
        0x05u8 => "Write Single Coil",
        0x06u8 => "Write Single Register",
        0x0fu8 => "Write Multiple Coils",
        0x10u8 => "Write Multiple Registers",
        _ => "Unknown",
    }
}

/// The descriptive display name of a Modbus function code, used in the
/// operation summary of a classification result.
pub open spec fn spec_modbus_function_name(code: u8) -> Seq<char> {
    match code {
        0x01u8 => "读线圈状态"@,
        0x02u8 => "读离散输入"@,
        0x03u8 => "读保持寄存器"@,
        0x04u8 => "读输入寄存器"@,
        0x05u8 => "写单个线圈"@,
        0x06u8 => "写单个寄存器"@,
        0x0fu8 => "写多个线圈"@,
        0x10u8 => "写多个寄存器"@,
        _ => "未知功能"@,
    }
}

pub fn get_modbus_function_name(code: u8) -> (r: &'static str)
    ensures
        r@ == spec_modbus_function_name(code),
{
    match code {
        0x01u8 => "读线圈状态",
        0x02u8 => "读离散输入",
        0x03u8 => "读保持寄存器",
        0x04u8 => "读输入寄存器",
        0x05u8 => "写单个线圈",
        0x06u8 => "写单个寄存器",
        0x0fu8 => "写多个线圈",
        0x10u8 => "写多个寄存器",
        _ => "未知功能",
    }
}

/// The start address: decoded only when at least twelve bytes are
/// present, zero otherwise.
pub open spec fn spec_modbus_start_address(b: Seq<u8>) -> u16 {
    if b.len() >= 12 { spec_be16(b[8], b[9]) } else { 0u16 }
}

/// The register count: decoded only when at least twelve bytes are
/// present, zero otherwise.
pub open spec fn spec_modbus_register_count(b: Seq<u8>) -> u16 {
    if b.len() >= 12 { spec_be16(b[10], b[11]) } else { 0u16 }
}

/// The field mapping emitted for a matched Modbus buffer.
pub open spec fn spec_modbus_fields(b: Seq<u8>) -> Map<Seq<char>, FieldV> {
    let sa = spec_modbus_start_address(b);
    let rc = spec_modbus_register_count(b);
    Map::<Seq<char>, FieldV>::empty()
        .insert("transaction_id"@, FieldV::UInt(spec_be16(b[0], b[1]) as u64))
        .insert("protocol_id"@, FieldV::UInt(spec_be16(b[2], b[3]) as u64))
        .insert("length"@, FieldV::UInt(spec_be16(b[4], b[5]) as u64))
        .insert("unit_id"@, FieldV::Str("0x"@ + spec_hex_byte(b[6])))
        .insert("function_code"@, FieldV::Str("0x"@ + spec_hex_byte(b[7])))
        .insert("function_name"@, FieldV::Str(spec_modbus_fn_name(b[7])))
        .insert("start_address"@, FieldV::Str("0x"@ + spec_hex_u16(sa)))
        .insert("register_count"@, FieldV::UInt(rc as u64))
}

/// A decoded Modbus TCP request header.
pub struct ModbusResult {
    pub transaction_id: u16,
    pub protocol_id: u16,
    pub length: u16,
    pub unit_id: u8,
    pub function_code: u8,
    pub start_address: u16,
    pub register_count: u16,
    pub fields: FieldMap,
}

/// Attempts to read the buffer as a Modbus TCP request. The match
/// succeeds exactly on buffers of at least eight bytes whose protocol
/// identifier is zero; the start address and register count decode only
/// when at least twelve bytes are present and default to zero otherwise.
pub fn parse_modbus_tcp(data: &[u8]) -> (r: Option<ModbusResult>)
    ensures
        r is Some <==> modbus_matches(data@),
        r matches Some(m) ==> ({
            &&& m.transaction_id == spec_be16(data@[0], data@[1])
            &&& m.protocol_id == 0
            &&& m.length == spec_be16(data@[4], data@[5])
            &&& m.unit_id == data@[6]
            &&& m.function_code == data@[7]
            &&& m.start_address == spec_modbus_start_address(data@)
            &&& m.register_count == spec_modbus_register_count(data@)
            &&& m.fields@ == spec_modbus_fields(data@)
        }),
{
    if data.len() < 8 {
        return None;
    }
    let protocol_id = be16(data[2], data[3]);
    if protocol_id != 0 {
        return None;
    }
    let transaction_id = be16(data[0], data[1]);
    let length = be16(data[4], data[5]);
    let unit_id = data[6];
    let function_code = data[7];
    let (start_address, register_count) = if data.len() >= 12 {
        (be16(data[8], data[9]), be16(data[10], data[11]))
    } else {
        (0u16, 0u16)
    };

    let mut fields = FieldMap::new();
    fields.set("transaction_id", FieldValue::UInt(transaction_id as u64));
    fields.set("protocol_id", FieldValue::UInt(protocol_id as u64));
    fields.set("length", FieldValue::UInt(length as u64));
    let mut uid = String::from_str("0x");
    push_hex_byte(&mut uid, unit_id);
    fields.set("unit_id", FieldValue::Str(uid));
    let mut fc = String::from_str("0x");
    push_hex_byte(&mut fc, function_code);
    fields.set("function_code", FieldValue::Str(fc));
    fields.set("function_name", FieldValue::Str(String::from_str(get_modbus_fn_name(function_code))));
    let mut sa = String::from_str("0x");
    push_hex_u16(&mut sa, start_address);
    fields.set("start_address", FieldValue::Str(sa));
    fields.set("register_count", FieldValue::UInt(register_count as u64));

    Some(ModbusResult {
        transaction_id,
        protocol_id,
        length,
        unit_id,
        function_code,
        start_address,
        register_count,
        fields,
    })
}

} // verus!
