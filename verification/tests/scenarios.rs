use dissect::{classify, FieldValue};

fn field_str(c: &dissect::Classification, key: &str) -> String {
    match c.fields.get(key) {
        Some(FieldValue::Str(s)) => s.clone(),
        other => panic!("field {} is not a string: present={}", key, other.is_some()),
    }
}

fn field_u64(c: &dissect::Classification, key: &str) -> u64 {
    match c.fields.get(key) {
        Some(FieldValue::UInt(n)) => *n,
        other => panic!("field {} is not an integer: present={}", key, other.is_some()),
    }
}

#[test]
fn modbus_round_trip_scenario() {
    let data: Vec<u8> = vec![0x00, 0x01, 0x00, 0x00, 0x00, 0x06, 0x01, 0x03, 0x00, 0x00, 0x00, 0x01];
    let c = classify(&data);
    assert_eq!(c.protocol, "Modbus TCP");
    assert_eq!(field_u64(&c, "transaction_id"), 1);
    assert_eq!(field_str(&c, "unit_id"), "0x01");
    assert_eq!(field_str(&c, "function_code"), "0x03");
    assert_eq!(field_str(&c, "function_name"), "Read Holding Registers");
    assert_eq!(field_str(&c, "start_address"), "0x0000");
    assert_eq!(field_u64(&c, "register_count"), 1);
    assert_eq!(field_u64(&c, "length"), 6);
    assert_eq!(field_u64(&c, "protocol_id"), 0);
    assert_eq!(c.raw_hex, "00 01 00 00 00 06 01 03 00 00 00 01");
}

#[test]
fn http_get_scenario() {
    let data = b"GET /index.html HTTP/1.1\r\nHost: localhost\r\n\r\n";
    let c = classify(data);
    assert_eq!(c.protocol, "GET");
    assert_eq!(c.protocol_display, "HTTP/1.1 GET");
    assert_eq!(c.operation, "GET /index.html");
    assert_eq!(field_str(&c, "method"), "GET");
    assert_eq!(field_str(&c, "path"), "/index.html");
    assert_eq!(field_str(&c, "host"), "localhost");
    assert_eq!(field_str(&c, "version"), "HTTP/1.1");
}

#[test]
fn redis_set_scenario() {
    let data = b"*3\r\n$3\r\nSET\r\n$4\r\nkey\r\n$5\r\nvalue\r\n";
    let c = classify(data);
    assert_eq!(c.protocol, "Redis RESP");
    assert_eq!(field_str(&c, "command"), "SET");
    assert_eq!(field_str(&c, "key"), "key");
    assert_eq!(field_str(&c, "value"), "value");
    assert_eq!(field_u64(&c, "array_count"), 3);
}

#[test]
fn telnet_three_byte_scenario() {
    let data: Vec<u8> = vec![0xFF, 0xFB, 0x18];
    let c = classify(&data);
    assert_eq!(c.protocol, "Telnet");
    let commands = match c.fields.get("commands") {
        Some(FieldValue::List(v)) => v.clone(),
        _ => panic!("commands field missing"),
    };
    assert_eq!(commands.len(), 1);
    assert_eq!(commands[0], "IAC WILL Terminal-Type");
    assert_eq!(field_u64(&c, "data_length"), 3);
    assert_eq!(c.message, "Telnet命令: IAC WILL Terminal-Type");
}

#[test]
fn unknown_three_byte_scenario() {
    // Three continuation bytes: not decodable as text, no IAC marker, too
    // short for any binary matcher.
    let data: Vec<u8> = vec![0x80, 0x80, 0x80];
    let c = classify(&data);
    assert_eq!(c.protocol, "Unknown");
    assert_eq!(field_u64(&c, "data_length"), 3);
    assert_eq!(field_str(&c, "preview"), "...");
    assert_eq!(c.raw_ascii, "...");
}

#[test]
fn nul_text_is_claimed_by_ftp_catch_all() {
    // Decodable text always reaches the FTP matcher, which declines only
    // on undecodable input, so three zero bytes classify as FTP with the
    // unknown command rather than falling through to the raw fallback.
    let data: Vec<u8> = vec![0x00, 0x00, 0x00];
    let c = classify(&data);
    assert_eq!(c.protocol, "FTP");
    assert_eq!(field_str(&c, "command"), "UNKNOWN");
}

#[test]
fn totality_on_empty_input() {
    let c = classify(&[]);
    assert_eq!(c.protocol, "Unknown");
    assert_eq!(field_u64(&c, "data_length"), 0);
    assert_eq!(c.raw_hex, "");
    assert_eq!(c.raw_ascii, "");
}

#[test]
fn http_shadows_websocket() {
    let data = b"GET /chat HTTP/1.1\r\nHost: server\r\nUpgrade: websocket\r\nConnection: Upgrade\r\nSec-WebSocket-Key: dGhlIHNhbXBsZQ==\r\n\r\n";
    assert!(dissect::parse_websocket(data).is_some());
    let c = classify(data);
    assert_eq!(c.protocol, "GET");
    assert_ne!(c.protocol, "WebSocket");
}

#[test]
fn modbus_discriminator_rejects_nonzero_protocol_id() {
    // Eight bytes, protocol identifier bytes not both zero, and not
    // decodable as text: no matcher claims it.
    let data: Vec<u8> = vec![0x00, 0x01, 0x00, 0x01, 0x00, 0x06, 0x01, 0x80];
    assert!(dissect::parse_modbus_tcp(&data).is_none());
    let c = classify(&data);
    assert_ne!(c.protocol, "Modbus TCP");
    assert_eq!(c.protocol, "Unknown");
}

#[test]
fn hex_and_ascii_lengths() {
    for n in [1usize, 2, 5, 16, 100] {
        let data: Vec<u8> = (0..n).map(|i| (i % 256) as u8).collect();
        let c = classify(&data);
        assert_eq!(c.raw_hex.chars().count(), 3 * n - 1);
        assert_eq!(c.raw_ascii.chars().count(), n);
    }
}

#[test]
fn raw_renderings_exact() {
    let c = classify(&[0xAB, 0xCD, 0x41, 0x20]);
    assert_eq!(c.raw_hex, "AB CD 41 20");
    assert_eq!(c.raw_ascii, "..A ");
}

#[test]
fn smtp_is_shadowed_by_ftp_for_text() {
    // Any decodable text reaches the FTP matcher before SMTP in the
    // priority order, so SMTP commands classify as FTP.
    let data = b"EHLO relay.example.com\r\n";
    assert!(dissect::parse_smtp(data).is_some());
    let c = classify(data);
    assert_eq!(c.protocol, "FTP");
}

#[test]
fn telnet_reached_for_undecodable_negotiation() {
    let data: Vec<u8> = vec![0x00, 0xFF, 0xFD, 0x01, 0xFF, 0xFB, 0x03];
    let c = classify(&data);
    assert_eq!(c.protocol, "Telnet");
    assert_eq!(c.message, "Telnet命令: IAC DO Echo; IAC WILL Suppress-Go-Ahead");
}

#[test]
fn custom_header_reached_for_undecodable_magic() {
    let data: Vec<u8> = vec![
        0xAA, 0x01, 0x02, 0x03, 0x34, 0x12, 0x02, 0x78, 0x56, 0x34, 0x12, 0x0A, 0x00, 0x00, 0x00,
    ];
    let c = classify(&data);
    assert_eq!(c.protocol, "Custom Header");
    assert_eq!(c.operation, "消息类型: 0x02");
    assert_eq!(field_str(&c, "magic_number"), "AA 01 02 03");
    assert_eq!(field_u64(&c, "version"), 0x1234);
    assert_eq!(field_str(&c, "message_type_name"), "Response");
    assert_eq!(field_u64(&c, "sequence"), 0x12345678);
    assert_eq!(field_u64(&c, "payload_length"), 10);
}
