use dissect::FieldValue;

fn map_str(m: &dissect::FieldMap, key: &str) -> String {
    match m.get(key) {
        Some(FieldValue::Str(s)) => s.clone(),
        _ => panic!("field {} is not a string", key),
    }
}

#[test]
fn modbus_short_header_defaults() {
    let data: Vec<u8> = vec![0x12, 0x34, 0x00, 0x00, 0x00, 0x02, 0x11, 0x05];
    let m = dissect::parse_modbus_tcp(&data).unwrap();
    assert_eq!(m.transaction_id, 0x1234);
    assert_eq!(m.unit_id, 0x11);
    assert_eq!(m.function_code, 0x05);
    assert_eq!(m.start_address, 0);
    assert_eq!(m.register_count, 0);
}

#[test]
fn modbus_declines_short_and_nonzero() {
    assert!(dissect::parse_modbus_tcp(&[0x00; 7]).is_none());
    let bad: Vec<u8> = vec![0x00, 0x01, 0xFF, 0x00, 0x00, 0x06, 0x01, 0x03];
    assert!(dissect::parse_modbus_tcp(&bad).is_none());
}

#[test]
fn modbus_function_names() {
    assert_eq!(dissect::get_modbus_fn_name(0x01), "Read Coils");
    assert_eq!(dissect::get_modbus_fn_name(0x10), "Write Multiple Registers");
    assert_eq!(dissect::get_modbus_fn_name(0x99), "Unknown");
    assert_eq!(dissect::get_modbus_function_name(0x03), "读保持寄存器");
    assert_eq!(dissect::get_modbus_function_name(0x99), "未知功能");
}

#[test]
fn http_full_request() {
    let data = b"POST /submit HTTP/1.0\r\nHost: example.com\r\nContent-Length: 11\r\nX-Tag: v\r\n\r\nhello\nworld";
    let m = dissect::parse_http(data).unwrap();
    assert_eq!(m.method, "POST");
    assert_eq!(m.path, "/submit");
    assert_eq!(m.version, "HTTP/1.0");
    assert_eq!(m.host, "example.com");
    assert_eq!(m.content_length, Some(11));
    assert_eq!(m.body.as_deref(), Some("hello\nworld"));
    assert_eq!(map_str(&m.fields, "x-tag"), "v");
    assert_eq!(map_str(&m.fields, "body"), "hello\nworld");
}

#[test]
fn http_bad_content_length_is_absorbed() {
    let data = b"GET / HTTP/1.1\r\nContent-Length: abc\r\n\r\n";
    let m = dissect::parse_http(data).unwrap();
    assert_eq!(m.content_length, None);
    assert_eq!(map_str(&m.fields, "content-length"), "abc");
    assert_eq!(m.host, "unknown");
}

#[test]
fn http_declines_bad_method_and_short_line() {
    assert!(dissect::parse_http(b"FETCH / HTTP/1.1\r\n").is_none());
    assert!(dissect::parse_http(b"GET\r\n").is_none());
    assert!(dissect::parse_http(b"").is_none());
}

#[test]
fn http_declines_undecodable() {
    let mut data = b"GET /x HTTP/1.1\r\n".to_vec();
    data.push(0xFF);
    assert!(dissect::parse_http(&data).is_none());
}

#[test]
fn http_multibyte_path_preserved() {
    let data = "GET /caf\u{e9} HTTP/1.1\r\nHost: h\r\n\r\n".as_bytes();
    let m = dissect::parse_http(data).unwrap();
    assert_eq!(m.path, "/caf\u{e9}");
}

#[test]
fn http_tab_separated_request_line() {
    let data = b"GET\t/x\tHTTP/1.1\r\nHost: h\r\n\r\n";
    let m = dissect::parse_http(data).unwrap();
    assert_eq!(m.method, "GET");
    assert_eq!(m.path, "/x");
}

#[test]
fn http_duplicate_host_last_wins() {
    let data = b"GET /x HTTP/1.1\r\nHost: a\r\nHost: b\r\n\r\n";
    let m = dissect::parse_http(data).unwrap();
    assert_eq!(m.host, "b");
    assert_eq!(map_str(&m.fields, "host"), "b");
}

#[test]
fn redis_declines_few_parts_and_bad_counts() {
    assert!(dissect::parse_redis_resp(b"*1\r\n$4\r\nPING\r\n").is_none());
    assert!(dissect::parse_redis_resp(b"*0\r\n$3\r\nSET\r\n$1\r\nk\r\n$1\r\nv\r\n").is_none());
    assert!(dissect::parse_redis_resp(b"*x\r\n$3\r\nSET\r\n$4\r\nkey\r\n$5\r\nvalue\r\n").is_none());
    assert!(dissect::parse_redis_resp(b"SET key value\r\n\r\n\r\n\r\n\r\n\r\n\r\n").is_none());
}

#[test]
fn redis_unparsable_declared_length_absorbed() {
    // A bulk-string header whose declared length does not parse is still
    // only a header: the lengths are never validated, so the match and
    // the positional extraction proceed.
    let m = dissect::parse_redis_resp(b"*3\r\n$x\r\nSET\r\n$4\r\nkey\r\n$5\r\nvalue\r\n").unwrap();
    assert_eq!(m.command, "SET");
    assert_eq!(m.key, "key");
    assert_eq!(m.value, "value");
}

#[test]
fn redis_permissive_missing_bulk_headers() {
    let m = dissect::parse_redis_resp(b"*3\r\nfoo\r\n$4\r\nkey\r\n$5\r\nvalue\r\n").unwrap();
    assert_eq!(m.command, "");
    assert_eq!(m.key, "");
    assert_eq!(m.value, "");
}

#[test]
fn redis_lengths_not_validated() {
    let m = dissect::parse_redis_resp(b"*2\r\n$99\r\nGET\r\n$1\r\nlongkey\r\n\r\n").unwrap();
    assert_eq!(m.command, "GET");
    assert_eq!(m.key, "longkey");
    assert_eq!(m.value, "");
}

#[test]
fn ftp_user_extracts_uppercased_username() {
    let m = dissect::parse_ftp(b"user alice\r\n").unwrap();
    assert_eq!(m.command, "USER");
    assert_eq!(m.username, "ALICE");
    assert_eq!(map_str(&m.fields, "raw_command"), "user alice");
}

#[test]
fn ftp_commands_and_fallback() {
    assert_eq!(dissect::parse_ftp(b"QUIT\r\n").unwrap().command, "QUIT");
    assert_eq!(dissect::parse_ftp(b"  list -l\r\n").unwrap().command, "LIST");
    let unknown = dissect::parse_ftp(b"hello there\r\n").unwrap();
    assert_eq!(unknown.command, "UNKNOWN");
    assert_eq!(unknown.username, "anonymous");
    assert!(dissect::parse_ftp(&[0xC0, 0x20]).is_none());
    assert!(dissect::parse_ftp(b"").is_none());
}

#[test]
fn smtp_extracts_envelope() {
    let data = b"EHLO relay\r\nMAIL FROM: <a@b.example>\r\nRCPT TO: <c@d.example>\r\nSubject: Greetings\r\n";
    let m = dissect::parse_smtp(data).unwrap();
    assert_eq!(m.from, "<a@b.example>");
    assert_eq!(m.to, "<c@d.example>");
    assert_eq!(m.subject, "Greetings");
    assert_eq!(map_str(&m.fields, "mail_from"), "<a@b.example>");
}

#[test]
fn smtp_qualifies_with_defaults() {
    let m = dissect::parse_smtp(b"DATA\r\n").unwrap();
    assert_eq!(m.from, "unknown");
    assert_eq!(m.to, "unknown");
    assert_eq!(m.subject, "");
}

#[test]
fn smtp_declines_plain_text() {
    assert!(dissect::parse_smtp(b"hello world\r\n").is_none());
}

#[test]
fn websocket_handshake_extraction() {
    let data = b"GET /chat HTTP/1.1\r\nHost: server.example.com\r\nUpgrade: websocket\r\nConnection: Upgrade\r\nSec-WebSocket-Key: dGhlIHNhbXBsZSBub25jZQ==\r\nSec-WebSocket-Version: 13\r\n\r\n";
    let m = dissect::parse_websocket(data).unwrap();
    assert_eq!(m.method, "GET");
    assert_eq!(m.path, "/chat");
    assert_eq!(m.host, "server.example.com");
    assert_eq!(m.key, "dGhlIHNhbXBsZSBub25jZQ==");
    assert_eq!(m.version, "13");
    assert_eq!(map_str(&m.fields, "http_version"), "HTTP/1.1");
}

#[test]
fn websocket_requires_upgrade_and_connection() {
    assert!(dissect::parse_websocket(b"GET /chat HTTP/1.1\r\nUpgrade: websocket\r\n\r\n").is_none());
    assert!(dissect::parse_websocket(b"GET /chat HTTP/1.1\r\nConnection: close\r\n\r\n").is_none());
    assert!(dissect::parse_websocket(b"POST /chat HTTP/1.1\r\nUpgrade: u\r\nConnection: c\r\n\r\n").is_none());
    let m = dissect::parse_websocket(b"GET /chat HTTP/1.1\r\nUpgrade: u\r\nConnection: c\r\n\r\n").unwrap();
    assert_eq!(m.host, "unknown");
    assert_eq!(m.key, "");
    assert_eq!(m.version, "13");
}

#[test]
fn telnet_scan_advances_past_partial_windows() {
    // The marker at the end has fewer than two bytes after it inside the
    // scan window, so no command decodes, yet the buffer still matches.
    let m = dissect::parse_telnet(&[0x41, 0x42, 0xFF]).unwrap();
    assert_eq!(m.command, "");
    let m2 = dissect::parse_telnet(&[0x00, 0xFF, 0xFB, 0x18, 0x00]).unwrap();
    assert_eq!(m2.command, "IAC WILL Terminal-Type");
}

#[test]
fn telnet_declines_without_iac_or_length() {
    assert!(dissect::parse_telnet(&[0x01, 0x02, 0x03]).is_none());
    assert!(dissect::parse_telnet(&[0xFF, 0xFB]).is_none());
}

#[test]
fn telnet_names() {
    assert_eq!(dissect::get_telnet_command_name(0xFD), "DO");
    assert_eq!(dissect::get_telnet_command_name(0x00), "UNKNOWN");
    assert_eq!(dissect::get_telnet_option_name(0x1F), "Negotiate-About-Window-Size");
    assert_eq!(dissect::get_telnet_option_name(0x42), "Unknown");
}

#[test]
fn custom_header_magic_set() {
    let mut data: Vec<u8> = vec![0x7E; 15];
    assert!(dissect::parse_custom_header(&data).is_some());
    data[0] = 0xAB;
    assert!(dissect::parse_custom_header(&data).is_some());
    data[0] = 0x10;
    assert!(dissect::parse_custom_header(&data).is_none());
    assert!(dissect::parse_custom_header(&[0xAA; 14]).is_none());
}

#[test]
fn custom_header_little_endian_decoding() {
    let data: Vec<u8> = vec![
        0x7E, 0x00, 0x00, 0x00, 0x01, 0x00, 0x09, 0x01, 0x00, 0x00, 0x00, 0xFF, 0xFF, 0x00, 0x00,
    ];
    let m = dissect::parse_custom_header(&data).unwrap();
    assert_eq!(m.version, 1);
    assert_eq!(m.message_type, 0x09);
    assert_eq!(m.sequence, 1);
    assert_eq!(m.payload_length, 0xFFFF);
    assert_eq!(dissect::get_message_type_name(0x09), "Unknown");
}

#[test]
fn ftp_unicode_folded_command() {
    // The long s upper-cases to S, so the vocabulary check sees PASS.
    let m = dissect::parse_ftp("pa\u{17f}\u{17f}\r\n".as_bytes()).unwrap();
    assert_eq!(m.command, "PASS");
}

#[test]
fn smtp_unicode_folded_keyword() {
    // The long s upper-cases to S, so the line both qualifies the buffer
    // and supplies the subject.
    let m = dissect::parse_smtp("\u{17f}ubject: hello\r\n".as_bytes()).unwrap();
    assert_eq!(m.subject, "hello");
    assert_eq!(m.from, "unknown");
}

#[test]
fn http_unicode_folded_header_key() {
    let data = "GET /x HTTP/1.1\r\nH\u{d6}ST: a\r\n\r\n".as_bytes();
    let m = dissect::parse_http(data).unwrap();
    assert_eq!(map_str(&m.fields, "h\u{f6}st"), "a");
    assert_eq!(m.host, "unknown");
}

#[test]
fn websocket_unicode_folded_prefix() {
    // The Kelvin sign lower-cases to k, so the key prefix matches.
    let data = "GET /c HTTP/1.1\r\nUpgrade: websocket\r\nConnection: Upgrade\r\nSec-WebSoc\u{212a}et-Key: zz\r\n\r\n"
        .as_bytes();
    let m = dissect::parse_websocket(data).unwrap();
    assert_eq!(m.key, "zz");
}
