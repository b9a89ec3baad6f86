//! WebSocket handshake matcher: a GET request line plus, anywhere in the
//! buffer and case-insensitively, both the substring `upgrade` and the
//! substring `connection`. A buffer the HTTP matcher already claims never
//! reaches this matcher in the priority order.

use vstd::prelude::*;
use vstd::string::StringExecFns;
use vstd::string::StrSliceExecFns;

verus! {

use vstd::utf8::{valid_utf8, decode_utf8};
use crate::fields::{FieldMap, FieldV, FieldValue};
use crate::text::{
    contains_str, decode_bytes, has_prefix, has_substring, lower_of, spec_lines,
    spec_tokens, spec_trim, split_lines, split_tokens, starts_with_str, str_eq,
    to_lower_str, trim_str, views_of,
};

/// Whether some line, lower-cased, contains the given needle.
pub open spec fn some_line_contains(ls: Seq<Seq<char>>, needle: Seq<char>) -> bool {
    exists|i: int| 0 <= i < ls.len() && has_substring(lower_of(ls[i]), needle)
}

/// Whether the buffer qualifies for WebSocket matching: decodable text
/// whose first line has at least two whitespace-separated tokens, the
/// first exactly `GET`, with both `upgrade` and `connection` appearing
/// case-insensitively somewhere in the lines.
pub open spec fn websocket_matches(b: Seq<u8>) -> bool {
    &&& valid_utf8(b)
    &&& spec_lines(decode_utf8(b)).len() > 0
    &&& spec_tokens(spec_lines(decode_utf8(b))[0]).len() >= 2
    &&& spec_tokens(spec_lines(decode_utf8(b))[0])[0] == "GET"@
    &&& some_line_contains(spec_lines(decode_utf8(b)), "upgrade"@)
    &&& some_line_contains(spec_lines(decode_utf8(b)), "connection"@)
}

/// The host, key and version after scanning the header lines from index
/// `i` on: each line updates at most one of the three, by a
/// case-insensitive prefix match, with the text after the prefix trimmed.
/// A prefix counts only when the raw line also has at least the prefix's
/// length in characters, which the prefix of the lower-cased form alone
/// cannot bound, since lower-casing may change a character count.
pub open spec fn websocket_scan(
    ls: Seq<Seq<char>>,
    i: int,
    host: Seq<char>,
    key: Seq<char>,
    version: Seq<char>,
) -> (Seq<char>, Seq<char>, Seq<char>)
    decreases ls.len() - i,
{
    if i < 0 || i >= ls.len() {
        (host, key, version)
    } else {
        let l = ls[i];
        let lo = lower_of(l);
        if has_prefix(lo, "host:"@) && l.len() >= 5 {
            websocket_scan(ls, i + 1, spec_trim(l.skip(5)), key, version)
        } else if has_prefix(lo, "sec-websocket-key:"@) && l.len() >= 18 {
            websocket_scan(ls, i + 1, host, spec_trim(l.skip(18)), version)
        } else if has_prefix(lo, "sec-websocket-version:"@) && l.len() >= 22 {
            websocket_scan(ls, i + 1, host, key, spec_trim(l.skip(22)))
        } else {
            websocket_scan(ls, i + 1, host, key, version)
        }
    }
}

/// The host, key and version of the whole buffer, scanned over the lines
/// after the request line, with their defaults.
pub open spec fn spec_websocket_result(s: Seq<char>) -> (Seq<char>, Seq<char>, Seq<char>) {
    websocket_scan(spec_lines(s), 1, "unknown"@, ""@, "13"@)
}

/// The version token of the request line, defaulting when absent.
pub open spec fn spec_ws_http_version(s: Seq<char>) -> Seq<char> {
    let toks = spec_tokens(spec_lines(s)[0]);
    if toks.len() > 2 {
        toks[2]
    } else {
        "HTTP/1.1"@
    }
}

/// The field mapping emitted for a matched WebSocket handshake.
pub open spec fn spec_websocket_fields(s: Seq<char>) -> Map<Seq<char>, FieldV> {
    let toks = spec_tokens(spec_lines(s)[0]);
    let r = spec_websocket_result(s);
    Map::<Seq<char>, FieldV>::empty()
        .insert("method"@, FieldV::Str("GET"@))
        .insert("path"@, FieldV::Str(toks[1]))
        .insert("http_version"@, FieldV::Str(spec_ws_http_version(s)))
        .insert("host"@, FieldV::Str(r.0))
        .insert("sec_websocket_key"@, FieldV::Str(r.1))
        .insert("sec_websocket_version"@, FieldV::Str(r.2))
}

/// A decoded WebSocket upgrade handshake.
pub struct WebSocketResult {
    pub method: String,
    pub path: String,
    pub host: String,
    pub key: String,
    pub version: String,
    pub fields: FieldMap,
}

/// Attempts to read the buffer as a WebSocket upgrade handshake.
pub fn parse_websocket(data: &[u8]) -> (r: Option<WebSocketResult>)
    ensures
        r is Some <==> websocket_matches(data@),
        r matches Some(m) ==> ({
            let s = decode_utf8(data@);
            &&& m.method@ == "GET"@
            &&& m.path@ == spec_tokens(spec_lines(s)[0])[1]
            &&& m.host@ == spec_websocket_result(s).0
            &&& m.key@ == spec_websocket_result(s).1
            &&& m.version@ == spec_websocket_result(s).2
            &&& m.fields@ == spec_websocket_fields(s)
        }),
{
    let text = match decode_bytes(data) {
        Some(t) => t,
        None => {
            return None;
        },
    };
    let ghost s = text@;
    let lines = split_lines(text.as_str());
    let ghost ls = spec_lines(s);
    if lines.len() == 0 {
        return None;
    }
    proof {
        assert(views_of(lines@)[0] == lines@[0]@);
    }
    let request_line = split_tokens(lines[0].as_str());
    if request_line.len() < 2 {
        return None;
    }
    proof {
        assert(views_of(request_line@)[0] == request_line@[0]@);
        assert(views_of(request_line@)[1] == request_line@[1]@);
    }
    if !str_eq(request_line[0].as_str(), "GET") {
        return None;
    }

    let mut host = String::from_str("unknown");
    let mut key = String::from_str("");
    let mut version = String::from_str("13");
    let mut i: usize = 1;
    while i < lines.len()
        invariant
            1 <= i <= lines.len(),
            views_of(lines@) == ls,
            spec_websocket_result(s) == websocket_scan(ls, i as int, host@, key@, version@),
        decreases lines.len() - i,
    {
        proof {
            assert(views_of(lines@)[i as int] == lines@[i as int]@);
        }
        let lo = to_lower_str(lines[i].as_str());
        let ln: usize = lines[i].as_str().unicode_len();
        if starts_with_str(lo.as_str(), "host:") && ln >= 5 {
            proof {
                assert(lines@[i as int]@.skip(5)
                    =~= lines@[i as int]@.subrange(5, lines@[i as int]@.len() as int));
            }
            host = trim_str(lines[i].as_str().substring_char(5, ln));
        } else if starts_with_str(lo.as_str(), "sec-websocket-key:") && ln >= 18 {
            proof {
                assert(lines@[i as int]@.skip(18)
                    =~= lines@[i as int]@.subrange(18, lines@[i as int]@.len() as int));
            }
            key = trim_str(lines[i].as_str().substring_char(18, ln));
        } else if starts_with_str(lo.as_str(), "sec-websocket-version:") && ln >= 22 {
            proof {
                assert(lines@[i as int]@.skip(22)
                    =~= lines@[i as int]@.subrange(22, lines@[i as int]@.len() as int));
            }
            version = trim_str(lines[i].as_str().substring_char(22, ln));
        }
        i = i + 1;
    }

    let has_upgrade = any_line_contains(&lines, "upgrade");
    let has_connection = any_line_contains(&lines, "connection");
    if !has_upgrade || !has_connection {
        return None;
    }

    let http_version = if request_line.len() > 2 {
        proof {
            assert(views_of(request_line@)[2] == request_line@[2]@);
        }
        request_line[2].clone()
    } else {
        String::from_str("HTTP/1.1")
    };

    let mut fields = FieldMap::new();
    fields.set("method", FieldValue::Str(String::from_str("GET")));
    fields.set("path", FieldValue::Str(request_line[1].clone()));
    fields.set("http_version", FieldValue::Str(http_version));
    fields.set("host", FieldValue::Str(host.clone()));
    fields.set("sec_websocket_key", FieldValue::Str(key.clone()));
    fields.set("sec_websocket_version", FieldValue::Str(version.clone()));

    Some(WebSocketResult {
        method: String::from_str("GET"),
        path: request_line[1].clone(),
        host,
        key,
        version,
        fields,
    })
}

/// Whether any line, lower-cased, contains `needle`.
fn any_line_contains(lines: &Vec<String>, needle: &str) -> (r: bool)
    ensures
        r == some_line_contains(views_of(lines@), needle@),
{
    let ghost ls = views_of(lines@);
    let mut k: usize = 0;
    let mut found = false;
    while k < lines.len() && !found
        invariant
            k <= lines.len(),
            ls == views_of(lines@),
            found ==> exists|i: int| 0 <= i < ls.len() && has_substring(lower_of(ls[i]), needle@),
            !found ==> forall|i: int| 0 <= i < k ==> !has_substring(lower_of(ls[i]), needle@),
        decreases lines.len() - k + (if found { 0int } else { 1int }),
    {
        proof {
            assert(views_of(lines@)[k as int] == lines@[k as int]@);
        }
        let lo = to_lower_str(lines[k].as_str());
        if contains_str(lo.as_str(), needle) {
            found = true;
        } else {
            k = k + 1;
        }
    }
    found
}

} // verus!
