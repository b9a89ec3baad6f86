//! The classifier: applies the matcher set to an input buffer in a fixed
//! priority order, returns the first successful match, and falls back to
//! an unknown result when none matches. The hex and printable-ASCII
//! renderings of the complete input are attached to every result.

use vstd::prelude::*;
use vstd::string::StringExecFns;

verus! {

use vstd::utf8::decode_utf8;
use crate::fields::{FieldMap, FieldV, FieldValue};
use crate::render::{
    bytes_to_ascii, dec_u64, hex_dump, push_hex_byte, spec_ascii_dump, spec_dec,
    spec_hex_byte, spec_hex_dump,
};
use crate::text::spec_join;
use crate::matchers::modbus::{
    modbus_matches, parse_modbus_tcp, get_modbus_function_name, spec_modbus_fields,
    spec_modbus_function_name, spec_modbus_register_count, spec_modbus_start_address,
};
use crate::matchers::http::{http_matches, parse_http, spec_http_fields, spec_http_result};
use crate::matchers::redis::{redis_matches, parse_redis_resp, spec_redis_fields, spec_redis_result};
use crate::matchers::ftp::{
    ftp_matches, parse_ftp, spec_ftp_command, spec_ftp_fields, spec_ftp_username,
};
use crate::matchers::smtp::{smtp_matches, parse_smtp, spec_smtp_fields, spec_smtp_result};
use crate::matchers::websocket::{
    websocket_matches, parse_websocket, spec_websocket_fields, spec_websocket_result,
};
use crate::matchers::telnet::{
    telnet_matches, parse_telnet, spec_telnet_commands, spec_telnet_fields,
};
use crate::matchers::custom::{
    custom_matches, parse_custom_header, get_message_type_name, spec_custom_fields,
    spec_le16, spec_le32, spec_magic,
};
use crate::text::{spec_lines, spec_tokens, spec_trim, upper_of};

/// The protocol a buffer classifies as, decided by trying the matchers
/// in the fixed priority order and taking the first that succeeds.
pub enum ProtocolTag {
    Modbus,
    Http,
    Redis,
    Ftp,
    Smtp,
    WebSocket,
    Telnet,
    Custom,
    Unknown,
}

/// The matcher that claims the buffer under the priority order.
pub open spec fn spec_tag(b: Seq<u8>) -> ProtocolTag {
    if modbus_matches(b) {
        ProtocolTag::Modbus
    } else if http_matches(b) {
        ProtocolTag::Http
    } else if redis_matches(b) {
        ProtocolTag::Redis
    } else if ftp_matches(b) {
        ProtocolTag::Ftp
    } else if smtp_matches(b) {
        ProtocolTag::Smtp
    } else if websocket_matches(b) {
        ProtocolTag::WebSocket
    } else if telnet_matches(b) {
        ProtocolTag::Telnet
    } else if custom_matches(b) {
        ProtocolTag::Custom
    } else {
        ProtocolTag::Unknown
    }
}

/// The operation summary of a Modbus result.
pub open spec fn spec_modbus_operation(b: Seq<u8>) -> Seq<char> {
    "Function Code 0x"@ + spec_hex_byte(b[7]) + " - "@ + spec_modbus_function_name(b[7])
}

/// The free-text message of a Modbus result.
pub open spec fn spec_modbus_message(b: Seq<u8>) -> Seq<char> {
    "Modbus请求: 功能码="@ + spec_dec(b[7] as nat) + ", 起始地址="@
        + spec_dec(spec_modbus_start_address(b) as nat) + ", 寄存器数量="@
        + spec_dec(spec_modbus_register_count(b) as nat)
}

/// The free-text message of an HTTP result.
pub open spec fn spec_http_message(s: Seq<char>) -> Seq<char> {
    let toks = spec_tokens(spec_lines(s)[0]);
    "HTTP请求: "@ + toks[0] + " "@ + toks[1] + ", Host: "@ + spec_http_result(s).0
}

/// The free-text message of a Redis result.
pub open spec fn spec_redis_message(s: Seq<char>) -> Seq<char> {
    let r = spec_redis_result(s);
    "Redis命令: "@ + r.0 + " "@ + r.1 + " "@ + r.2
}

/// The free-text message of an FTP result.
pub open spec fn spec_ftp_message(s: Seq<char>) -> Seq<char> {
    let first = upper_of(spec_trim(spec_lines(s)[0]));
    "FTP命令: "@ + spec_ftp_command(first) + ", 用户: "@ + spec_ftp_username(first)
}

/// The free-text message of an SMTP result.
pub open spec fn spec_smtp_message(s: Seq<char>) -> Seq<char> {
    let r = spec_smtp_result(s);
    "SMTP邮件: 发件人="@ + r.0 + ", 收件人="@ + r.1
}

/// The free-text message of a WebSocket result.
pub open spec fn spec_websocket_message(s: Seq<char>) -> Seq<char> {
    let r = spec_websocket_result(s);
    "WebSocket握手: Host="@ + r.0 + ", Key="@ + r.1
}

/// The free-text message of a Telnet result.
pub open spec fn spec_telnet_message(b: Seq<u8>) -> Seq<char> {
    "Telnet命令: "@ + spec_join(spec_telnet_commands(b), "; "@)
}

/// The operation summary of a custom-header result.
pub open spec fn spec_custom_operation(b: Seq<u8>) -> Seq<char> {
    "消息类型: 0x"@ + spec_hex_byte(b[6])
}

/// The free-text message of a custom-header result.
pub open spec fn spec_custom_message(b: Seq<u8>) -> Seq<char> {
    "自定义协议: 魔术字="@ + spec_magic(b) + ", 版本="@
        + spec_dec(spec_le16(b[4], b[5]) as nat) + ", 类型="@ + spec_dec(b[6] as nat)
        + ", 序列号="@ + spec_dec(spec_le32(b[7], b[8], b[9], b[10]) as nat)
}

/// The field mapping of an unknown result: the byte count and a preview
/// equal to the full printable-ASCII rendering.
pub open spec fn spec_unknown_fields(b: Seq<u8>) -> Map<Seq<char>, FieldV> {
    Map::<Seq<char>, FieldV>::empty()
        .insert("data_length"@, FieldV::UInt(b.len() as u64))
        .insert("preview"@, FieldV::Str(spec_ascii_dump(b)))
}

/// The free-text message of an unknown result.
pub open spec fn spec_unknown_message(b: Seq<u8>) -> Seq<char> {
    "收到未知数据，长度: "@ + spec_dec(b.len() as nat) + " 字节"@
}

/// A classification result: the protocol tag, a display label, an
/// operation summary, the field mapping, both raw renderings of the
/// complete input, and one free-text message.
pub struct Classification {
    pub protocol: String,
    pub protocol_display: String,
    pub operation: String,
    pub fields: FieldMap,
    pub raw_hex: String,
    pub raw_ascii: String,
    pub message: String,
}

/// Classifies one buffer. Total: every input, including the empty one,
/// yields exactly one result, decided by the first matcher in the
/// priority order that succeeds, with the unknown fallback when none
/// does. The raw renderings are always computed from the complete,
/// unmodified input.
pub fn classify(data: &[u8]) -> (r: Classification)
    ensures
        r.raw_hex@ == spec_hex_dump(data@),
        r.raw_ascii@ == spec_ascii_dump(data@),
        spec_tag(data@) is Modbus ==> ({
            &&& r.protocol@ == "Modbus TCP"@
            &&& r.protocol_display@ == "Modbus TCP (MBAP Header + PDU)"@
            &&& r.operation@ == spec_modbus_operation(data@)
            &&& r.fields@ == spec_modbus_fields(data@)
            &&& r.message@ == spec_modbus_message(data@)
        }),
        spec_tag(data@) is Http ==> ({
            let s = decode_utf8(data@);
            let toks = spec_tokens(spec_lines(s)[0]);
            &&& r.protocol@ == toks[0]
            &&& r.protocol_display@ == "HTTP/1.1 "@ + toks[0]
            &&& r.operation@ == toks[0] + " "@ + toks[1]
            &&& r.fields@ == spec_http_fields(s)
            &&& r.message@ == spec_http_message(s)
        }),
        spec_tag(data@) is Redis ==> ({
            let s = decode_utf8(data@);
            &&& r.protocol@ == "Redis RESP"@
            &&& r.protocol_display@ == "Redis Serialization Protocol (RESP)"@
            &&& r.operation@ == "Redis Command: "@ + spec_redis_result(s).0
            &&& r.fields@ == spec_redis_fields(s)
            &&& r.message@ == spec_redis_message(s)
        }),
        spec_tag(data@) is Ftp ==> ({
            let s = decode_utf8(data@);
            let first = upper_of(spec_trim(spec_lines(s)[0]));
            &&& r.protocol@ == "FTP"@
            &&& r.protocol_display@ == "File Transfer Protocol"@
            &&& r.operation@ == "FTP Command: "@ + spec_ftp_command(first)
            &&& r.fields@ == spec_ftp_fields(s)
            &&& r.message@ == spec_ftp_message(s)
        }),
        spec_tag(data@) is Smtp ==> ({
            let s = decode_utf8(data@);
            &&& r.protocol@ == "SMTP"@
            &&& r.protocol_display@ == "Simple Mail Transfer Protocol"@
            &&& r.operation@ == "Mail from: "@ + spec_smtp_result(s).0
            &&& r.fields@ == spec_smtp_fields(s)
            &&& r.message@ == spec_smtp_message(s)
        }),
        spec_tag(data@) is WebSocket ==> ({
            let s = decode_utf8(data@);
            &&& r.protocol@ == "WebSocket"@
            &&& r.protocol_display@ == "WebSocket Handshake (RFC 6455)"@
            &&& r.operation@ == "WebSocket握手升级"@
            &&& r.fields@ == spec_websocket_fields(s)
            &&& r.message@ == spec_websocket_message(s)
        }),
        spec_tag(data@) is Telnet ==> ({
            &&& r.protocol@ == "Telnet"@
            &&& r.protocol_display@ == "Telnet Protocol (RFC 854)"@
            &&& r.operation@ == "Telnet选项协商"@
            &&& r.fields@ == spec_telnet_fields(data@)
            &&& r.message@ == spec_telnet_message(data@)
        }),
        spec_tag(data@) is Custom ==> ({
            &&& r.protocol@ == "Custom Header"@
            &&& r.protocol_display@ == "自定义协议头"@
            &&& r.operation@ == spec_custom_operation(data@)
            &&& r.fields@ == spec_custom_fields(data@)
            &&& r.message@ == spec_custom_message(data@)
        }),
        spec_tag(data@) is Unknown ==> ({
            &&& r.protocol@ == "Unknown"@
            &&& r.protocol_display@ == "未知协议"@
            &&& r.operation@ == "原始数据"@
            &&& r.fields@ == spec_unknown_fields(data@)
            &&& r.message@ == spec_unknown_message(data@)
        }),
{
    let raw_hex = hex_dump(data);
    let raw_ascii = bytes_to_ascii(data);

    if let Some(m) = parse_modbus_tcp(data) {
        let mut operation = String::from_str("Function Code 0x");
        push_hex_byte(&mut operation, m.function_code);
        operation.append(" - ");
        operation.append(get_modbus_function_name(m.function_code));
        let mut message = String::from_str("Modbus请求: 功能码=");
        message.append(dec_u64(m.function_code as u64).as_str());
        message.append(", 起始地址=");
        message.append(dec_u64(m.start_address as u64).as_str());
        message.append(", 寄存器数量=");
        message.append(dec_u64(m.register_count as u64).as_str());
        return Classification {
            protocol: String::from_str("Modbus TCP"),
            protocol_display: String::from_str("Modbus TCP (MBAP Header + PDU)"),
            operation,
            fields: m.fields,
            raw_hex,
            raw_ascii,
            message,
        };
    }

    if let Some(m) = parse_http(data) {
        let mut display = String::from_str("HTTP/1.1 ");
        display.append(m.method.as_str());
        let mut operation = m.method.clone();
        operation.append(" ");
        operation.append(m.path.as_str());
        let mut message = String::from_str("HTTP请求: ");
        message.append(m.method.as_str());
        message.append(" ");
        message.append(m.path.as_str());
        message.append(", Host: ");
        message.append(m.host.as_str());
        return Classification {
            protocol: m.method.clone(),
            protocol_display: display,
            operation,
            fields: m.fields,
            raw_hex,
            raw_ascii,
            message,
        };
    }

    if let Some(m) = parse_redis_resp(data) {
        let mut operation = String::from_str("Redis Command: ");
        operation.append(m.command.as_str());
        let mut message = String::from_str("Redis命令: ");
        message.append(m.command.as_str());
        message.append(" ");
        message.append(m.key.as_str());
        message.append(" ");
        message.append(m.value.as_str());
        return Classification {
            protocol: String::from_str("Redis RESP"),
            protocol_display: String::from_str("Redis Serialization Protocol (RESP)"),
            operation,
            fields: m.fields,
            raw_hex,
            raw_ascii,
            message,
        };
    }

    if let Some(m) = parse_ftp(data) {
        let mut operation = String::from_str("FTP Command: ");
        operation.append(m.command.as_str());
        let mut message = String::from_str("FTP命令: ");
        message.append(m.command.as_str());
        message.append(", 用户: ");
        message.append(m.username.as_str());
        return Classification {
            protocol: String::from_str("FTP"),
            protocol_display: String::from_str("File Transfer Protocol"),
            operation,
            fields: m.fields,
            raw_hex,
            raw_ascii,
            message,
        };
    }

    if let Some(m) = parse_smtp(data) {
        let mut operation = String::from_str("Mail from: ");
        operation.append(m.from.as_str());
        let mut message = String::from_str("SMTP邮件: 发件人=");
        message.append(m.from.as_str());
        message.append(", 收件人=");
        message.append(m.to.as_str());
        return Classification {
            protocol: String::from_str("SMTP"),
            protocol_display: String::from_str("Simple Mail Transfer Protocol"),
            operation,
            fields: m.fields,
            raw_hex,
            raw_ascii,
            message,
        };
    }

    if let Some(m) = parse_websocket(data) {
        let mut message = String::from_str("WebSocket握手: Host=");
        message.append(m.host.as_str());
        message.append(", Key=");
        message.append(m.key.as_str());
        return Classification {
            protocol: String::from_str("WebSocket"),
            protocol_display: String::from_str("WebSocket Handshake (RFC 6455)"),
            operation: String::from_str("WebSocket握手升级"),
            fields: m.fields,
            raw_hex,
            raw_ascii,
            message,
        };
    }

    if let Some(m) = parse_telnet(data) {
        let mut message = String::from_str("Telnet命令: ");
        message.append(m.command.as_str());
        return Classification {
            protocol: String::from_str("Telnet"),
            protocol_display: String::from_str("Telnet Protocol (RFC 854)"),
            operation: String::from_str("Telnet选项协商"),
            fields: m.fields,
            raw_hex,
            raw_ascii,
            message,
        };
    }

    if let Some(m) = parse_custom_header(data) {
        let mut operation = String::from_str("消息类型: 0x");
        push_hex_byte(&mut operation, m.message_type);
        let mut message = String::from_str("自定义协议: 魔术字=");
        message.append(m.magic.as_str());
        message.append(", 版本=");
        message.append(dec_u64(m.version as u64).as_str());
        message.append(", 类型=");
        message.append(dec_u64(m.message_type as u64).as_str());
        message.append(", 序列号=");
        message.append(dec_u64(m.sequence as u64).as_str());
        return Classification {
            protocol: String::from_str("Custom Header"),
            protocol_display: String::from_str("自定义协议头"),
            operation,
            fields: m.fields,
            raw_hex,
            raw_ascii,
            message,
        };
    }

    let mut fields = FieldMap::new();
    fields.set("data_length", FieldValue::UInt(data.len() as u64));
    fields.set("preview", FieldValue::Str(raw_ascii.clone()));
    let mut message = String::from_str("收到未知数据，长度: ");
    message.append(dec_u64(data.len() as u64).as_str());
    message.append(" 字节");
    Classification {
        protocol: String::from_str("Unknown"),
        protocol_display: String::from_str("未知协议"),
        operation: String::from_str("原始数据"),
        fields,
        raw_hex,
        raw_ascii,
        message,
    }
}

/// Priority of HTTP over the WebSocket matcher: a buffer that
/// structurally satisfies both never classifies as WebSocket, and
/// classifies as HTTP whenever Modbus has not already claimed it.
pub proof fn lemma_http_shadows_websocket(b: Seq<u8>)
    requires
        http_matches(b),
        websocket_matches(b),
    ensures
        !(spec_tag(b) is WebSocket),
        !modbus_matches(b) ==> spec_tag(b) is Http,
{
}

/// The Modbus discriminator: a buffer of at least eight bytes whose
/// protocol identifier bytes are not both zero never classifies as
/// Modbus, regardless of the other byte values.
pub proof fn lemma_modbus_discriminator(b: Seq<u8>)
    requires
        b.len() >= 8,
        b[2] != 0 || b[3] != 0,
    ensures
        !(spec_tag(b) is Modbus),
{
}

} // verus!

