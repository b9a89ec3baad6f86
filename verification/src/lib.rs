//! A multi-protocol byte-stream dissection engine.
//!
//! Given an arbitrary chunk of bytes, the engine decides which of several
//! well-known wire protocols the chunk structurally matches, extracts a
//! normalized set of named fields describing the message, and attaches
//! protocol-independent hex and printable-ASCII renderings of the input.
//! Classification is total: input that matches no protocol is reported as
//! opaque raw data, never guessed at further.

pub mod text;
pub mod render;
pub mod fields;
pub mod matchers;
pub mod classify;

pub use fields::{FieldMap, FieldV, FieldValue};
pub use render::bytes_to_ascii;
pub use matchers::modbus::{
    parse_modbus_tcp, ModbusResult, get_modbus_fn_name, get_modbus_function_name,
};
pub use matchers::http::{parse_http, HttpResult};
pub use matchers::redis::{parse_redis_resp, RedisResult};
pub use matchers::ftp::{parse_ftp, FtpResult};
pub use matchers::smtp::{parse_smtp, SmtpResult};
pub use matchers::websocket::{parse_websocket, WebSocketResult};
pub use matchers::telnet::{
    parse_telnet, TelnetResult, get_telnet_command_name, get_telnet_option_name,
};
pub use matchers::custom::{parse_custom_header, CustomHeaderResult, get_message_type_name};
pub use classify::{classify, Classification, ProtocolTag};
