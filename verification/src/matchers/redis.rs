//! Redis RESP matcher: an array-of-bulk-strings command. The parts are
//! read positionally and permissively: declared bulk-string lengths are
//! not validated against the actual segment lengths, and a missing
//! extraction leaves the field empty rather than declining.

use vstd::prelude::*;
use vstd::string::StringExecFns;
use vstd::string::StrSliceExecFns;

verus! {

use vstd::utf8::{valid_utf8, decode_utf8};
use crate::fields::{FieldMap, FieldV, FieldValue};
use crate::text::{
    decode_bytes, has_prefix, parse_usize, spec_parse_usize, spec_split_crlf,
    split_crlf, starts_with_str, views_of,
};

/// The carriage-return/line-feed separated parts of the decoded buffer.
pub open spec fn redis_parts(s: Seq<char>) -> Seq<Seq<char>> {
    spec_split_crlf(s)
}

/// The declared array element count: the first part, stripped of its
/// leading star, parsed as an unsigned decimal.
pub open spec fn spec_redis_count(s: Seq<char>) -> Option<usize> {
    spec_parse_usize(redis_parts(s)[0].skip(1))
}

/// Whether the buffer qualifies for RESP matching: decodable text
/// starting with a star, at least seven parts, and an array count of at
/// least one.
pub open spec fn redis_matches(b: Seq<u8>) -> bool {
    let s = decode_utf8(b);
    let parts = redis_parts(s);
    &&& valid_utf8(b)
    &&& s.len() > 0
    &&& s[0] == '*'
    &&& parts.len() >= 7
    &&& has_prefix(parts[0], "*"@)
    &&& spec_redis_count(s) is Some
    &&& spec_redis_count(s).unwrap() >= 1
}

/// The command, key and value read positionally from the parts: each is
/// the segment after a present bulk-string header, or empty when the
/// expected header is absent.
pub open spec fn spec_redis_result(s: Seq<char>) -> (Seq<char>, Seq<char>, Seq<char>) {
    let parts = redis_parts(s);
    let d1 = has_prefix(parts[1], "$"@);
    let command = if d1 { parts[2] } else { ""@ };
    let i2 = if d1 { 3int } else { 1int };
    let d2 = has_prefix(parts[i2], "$"@);
    let key = if d2 { parts[i2 + 1] } else { ""@ };
    let i3 = if d2 { i2 + 2 } else { i2 };
    let d3 = has_prefix(parts[i3], "$"@);
    let value = if d3 { parts[i3 + 1] } else { ""@ };
    (command, key, value)
}

/// The field mapping emitted for a matched RESP buffer.
pub open spec fn spec_redis_fields(s: Seq<char>) -> Map<Seq<char>, FieldV> {
    let r = spec_redis_result(s);
    Map::<Seq<char>, FieldV>::empty()
        .insert("command"@, FieldV::Str(r.0))
        .insert("key"@, FieldV::Str(r.1))
        .insert("value"@, FieldV::Str(r.2))
        .insert("array_count"@, FieldV::UInt(spec_redis_count(s).unwrap() as u64))
}

/// A decoded RESP array command.
pub struct RedisResult {
    pub command: String,
    pub key: String,
    pub value: String,
    pub fields: FieldMap,
}

/// Attempts to read the buffer as a RESP array command.
pub fn parse_redis_resp(data: &[u8]) -> (r: Option<RedisResult>)
    ensures
        r is Some <==> redis_matches(data@),
        r matches Some(m) ==> ({
            let s = decode_utf8(data@);
            &&& m.command@ == spec_redis_result(s).0
            &&& m.key@ == spec_redis_result(s).1
            &&& m.value@ == spec_redis_result(s).2
            &&& m.fields@ == spec_redis_fields(s)
        }),
{
    let text = match decode_bytes(data) {
        Some(t) => t,
        None => {
            return None;
        },
    };
    let ghost s = text@;
    if !starts_with_str(text.as_str(), "*") {
        proof {
            reveal_strlit("*");
            if s.len() > 0 && s[0] == '*' {
                assert(s.subrange(0, 1) =~= "*"@);
            }
        }
        return None;
    }
    proof {
        reveal_strlit("*");
        assert(s.subrange(0, 1)[0] == s[0]);
        assert(s[0] == '*');
    }
    let parts = split_crlf(text.as_str());
    let ghost ps = redis_parts(s);
    if parts.len() < 7 {
        return None;
    }
    proof {
        assert(views_of(parts@)[0] == parts@[0]@);
        assert(views_of(parts@)[1] == parts@[1]@);
        assert(views_of(parts@)[2] == parts@[2]@);
    }
    if !starts_with_str(parts[0].as_str(), "*") {
        return None;
    }
    let p0n: usize = parts[0].as_str().unicode_len();
    proof {
        reveal_strlit("*");
        assert(ps[0].len() >= 1);
        assert(parts@[0]@.skip(1) =~= parts@[0]@.subrange(1, parts@[0]@.len() as int));
    }
    let array_count = match parse_usize(parts[0].as_str().substring_char(1, p0n)) {
        Some(c) => c,
        None => {
            return None;
        },
    };
    if array_count < 1 {
        return None;
    }

    let d1 = starts_with_str(parts[1].as_str(), "$");
    let command = if d1 {
        parts[2].clone()
    } else {
        String::from_str("")
    };
    let idx2: usize = if d1 { 3 } else { 1 };
    proof {
        assert(views_of(parts@)[idx2 as int] == parts@[idx2 as int]@);
        assert(views_of(parts@)[idx2 + 1] == parts@[idx2 + 1]@);
    }
    let d2 = starts_with_str(parts[idx2].as_str(), "$");
    let key = if d2 {
        parts[idx2 + 1].clone()
    } else {
        String::from_str("")
    };
    let idx3: usize = if d2 { idx2 + 2 } else { idx2 };
    proof {
        assert(views_of(parts@)[idx3 as int] == parts@[idx3 as int]@);
        assert(views_of(parts@)[idx3 + 1] == parts@[idx3 + 1]@);
    }
    let d3 = starts_with_str(parts[idx3].as_str(), "$");
    let value = if d3 {
        parts[idx3 + 1].clone()
    } else {
        String::from_str("")
    };

    let mut fields = FieldMap::new();
    fields.set("command", FieldValue::Str(command.clone()));
    fields.set("key", FieldValue::Str(key.clone()));
    fields.set("value", FieldValue::Str(value.clone()));
    fields.set("array_count", FieldValue::UInt(array_count as u64));

    Some(RedisResult { command, key, value, fields })
}

} // verus!
