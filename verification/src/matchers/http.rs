//! HTTP request matcher: a request line with one of the seven standard
//! verbs, `key: value` header lines up to the first blank line, and an
//! optional body joined from the remaining lines.

use vstd::prelude::*;
use vstd::string::StringExecFns;
use vstd::string::StrSliceExecFns;

verus! {

use vstd::utf8::{valid_utf8, decode_utf8};
use crate::fields::{FieldMap, FieldV, FieldValue};
use crate::text::{
    decode_bytes, find_char, find_char_str, spec_join, spec_lines, spec_parse_usize,
    lower_of, spec_tokens, spec_trim, join_with, parse_usize, split_lines,
    split_tokens, str_eq, to_lower_str, trim_str, views_of,
};

/// Whether a token is one of the seven standard HTTP request verbs.
pub open spec fn is_http_method(m: Seq<char>) -> bool {
    ||| m == "GET"@
    ||| m == "POST"@
    ||| m == "PUT"@
    ||| m == "DELETE"@
    ||| m == "HEAD"@
    ||| m == "OPTIONS"@
    ||| m == "PATCH"@
}

/// Whether the buffer qualifies for HTTP matching: decodable text whose
/// first line has at least two whitespace-separated tokens, the first a
/// standard verb.
pub open spec fn http_matches(b: Seq<u8>) -> bool {
    &&& valid_utf8(b)
    &&& spec_lines(decode_utf8(b)).len() > 0
    &&& spec_tokens(spec_lines(decode_utf8(b))[0]).len() >= 2
    &&& is_http_method(spec_tokens(spec_lines(decode_utf8(b))[0])[0])
}

/// Index of the first empty line at or after `i`, or `ls.len()`.
pub open spec fn find_empty_line(ls: Seq<Seq<char>>, i: int) -> int
    decreases ls.len() - i,
{
    if i < 0 || i >= ls.len() {
        ls.len() as int
    } else if ls[i].len() == 0 {
        i
    } else {
        find_empty_line(ls, i + 1)
    }
}

pub proof fn lemma_find_empty_line(ls: Seq<Seq<char>>, i: int)
    requires
        0 <= i <= ls.len(),
    ensures
        i <= find_empty_line(ls, i) <= ls.len(),
        find_empty_line(ls, i) < ls.len() ==> ls[find_empty_line(ls, i)].len() == 0,
        forall|j: int| i <= j < find_empty_line(ls, i) ==> ls[j].len() != 0,
    decreases ls.len() - i,
{
    if i < ls.len() && ls[i].len() != 0 {
        lemma_find_empty_line(ls, i + 1);
    }
}

/// The host, body-length header value, and field mapping accumulated
/// from the header lines in `[i, e)`: each line with a colon contributes
/// the `key: value` pair, with the key trimmed and lower-cased and the
/// value trimmed; a host key updates the host and a content-length key
/// re-parses the length.
pub open spec fn http_scan(
    ls: Seq<Seq<char>>,
    i: int,
    e: int,
    host: Seq<char>,
    clen: Option<usize>,
    m: Map<Seq<char>, FieldV>,
) -> (Seq<char>, Option<usize>, Map<Seq<char>, FieldV>)
    decreases e - i,
{
    if i < 0 || i >= e || e > ls.len() {
        (host, clen, m)
    } else {
        let l = ls[i];
        let j = find_char(l, ':', 0);
        if j >= l.len() {
            http_scan(ls, i + 1, e, host, clen, m)
        } else {
            let key = lower_of(spec_trim(l.take(j)));
            let val = spec_trim(l.skip(j + 1));
            let host2 = if key == "host"@ { val } else { host };
            let clen2 = if key == "content-length"@ { spec_parse_usize(val) } else { clen };
            http_scan(ls, i + 1, e, host2, clen2, m.insert(key, FieldV::Str(val)))
        }
    }
}

/// The version token of the request line, defaulting when absent.
pub open spec fn spec_http_version(s: Seq<char>) -> Seq<char> {
    let toks = spec_tokens(spec_lines(s)[0]);
    if toks.len() > 2 {
        toks[2]
    } else {
        "HTTP/1.1"@
    }
}

/// The field mapping before the header lines are scanned.
pub open spec fn spec_http_base(s: Seq<char>) -> Map<Seq<char>, FieldV> {
    let toks = spec_tokens(spec_lines(s)[0]);
    Map::<Seq<char>, FieldV>::empty()
        .insert("method"@, FieldV::Str(toks[0]))
        .insert("path"@, FieldV::Str(toks[1]))
        .insert("version"@, FieldV::Str(spec_http_version(s)))
        .insert("host"@, FieldV::Str("unknown"@))
}

/// The host, body-length and field mapping of the whole buffer.
pub open spec fn spec_http_result(s: Seq<char>) -> (Seq<char>, Option<usize>, Map<Seq<char>, FieldV>) {
    let ls = spec_lines(s);
    http_scan(ls, 1, find_empty_line(ls, 1), "unknown"@, None, spec_http_base(s))
}

/// Whether the buffer has a body: some line after the first blank line.
pub open spec fn spec_http_has_body(s: Seq<char>) -> bool {
    let ls = spec_lines(s);
    find_empty_line(ls, 1) + 1 < ls.len()
}

/// The body: the lines after the first blank line, joined with line feeds.
pub open spec fn spec_http_body(s: Seq<char>) -> Seq<char> {
    let ls = spec_lines(s);
    spec_join(ls.skip(find_empty_line(ls, 1) + 1), "\n"@)
}

/// The field mapping emitted for a matched HTTP buffer.
pub open spec fn spec_http_fields(s: Seq<char>) -> Map<Seq<char>, FieldV> {
    if spec_http_has_body(s) {
        spec_http_result(s).2.insert("body"@, FieldV::Str(spec_http_body(s)))
    } else {
        spec_http_result(s).2
    }
}

/// A decoded HTTP request.
pub struct HttpResult {
    pub method: String,
    pub path: String,
    pub version: String,
    pub host: String,
    pub content_length: Option<usize>,
    pub body: Option<String>,
    pub fields: FieldMap,
}

/// Attempts to read the buffer as an HTTP request. The match succeeds
/// exactly on valid UTF-8 input whose first line yields at least two
/// tokens, the first a standard verb; headers are retained in the field
/// mapping, an unparsable content-length is absorbed by leaving the
/// derived length out, and any text after the first blank line becomes
/// the body.
pub fn parse_http(data: &[u8]) -> (r: Option<HttpResult>)
    ensures
        r is Some <==> http_matches(data@),
        r matches Some(m) ==> ({
            let s = decode_utf8(data@);
            let toks = spec_tokens(spec_lines(s)[0]);
            &&& m.method@ == toks[0]
            &&& m.path@ == toks[1]
            &&& m.version@ == spec_http_version(s)
            &&& m.host@ == spec_http_result(s).0
            &&& m.content_length == spec_http_result(s).1
            &&& m.body is Some <==> spec_http_has_body(s)
            &&& (m.body matches Some(bd) ==> bd@ == spec_http_body(s))
            &&& m.fields@ == spec_http_fields(s)
        }),
{
    let text = match decode_bytes(data) {
        Some(t) => t,
        None => {
            return None;
        },
    };
    let ghost s = text@;
    let lines = split_lines(text.as_str());
    let ghost ls = spec_lines(s);
    if lines.len() == 0 {
        return None;
    }
    proof {
        assert(views_of(lines@)[0] == lines@[0]@);
    }
    let request_line = split_tokens(lines[0].as_str());
    if request_line.len() < 2 {
        return None;
    }
    proof {
        assert(views_of(request_line@)[0] == request_line@[0]@);
        assert(views_of(request_line@)[1] == request_line@[1]@);
    }
    let method_ok = str_eq(request_line[0].as_str(), "GET")
        || str_eq(request_line[0].as_str(), "POST")
        || str_eq(request_line[0].as_str(), "PUT")
        || str_eq(request_line[0].as_str(), "DELETE")
        || str_eq(request_line[0].as_str(), "HEAD")
        || str_eq(request_line[0].as_str(), "OPTIONS")
        || str_eq(request_line[0].as_str(), "PATCH");
    if !method_ok {
        return None;
    }
    let method = request_line[0].clone();
    let path = request_line[1].clone();
    let version = if request_line.len() > 2 {
        proof {
            assert(views_of(request_line@)[2] == request_line@[2]@);
        }
        request_line[2].clone()
    } else {
        String::from_str("HTTP/1.1")
    };

    let mut e: usize = 1;
    while e < lines.len() && !lines[e].as_str().is_empty()
        invariant
            1 <= e <= lines.len(),
            views_of(lines@) == ls,
            forall|k: int| 1 <= k < e ==> ls[k].len() != 0,
        decreases lines.len() - e,
    {
        proof {
            assert(views_of(lines@)[e as int] == lines@[e as int]@);
        }
        e = e + 1;
    }
    proof {
        if e < lines.len() {
            assert(views_of(lines@)[e as int] == lines@[e as int]@);
        }
        lemma_find_empty_line(ls, 1);
        assert(e == find_empty_line(ls, 1));
    }

    let mut fields = FieldMap::new();
    fields.set("method", FieldValue::Str(method.clone()));
    fields.set("path", FieldValue::Str(path.clone()));
    fields.set("version", FieldValue::Str(version.clone()));
    fields.set("host", FieldValue::Str(String::from_str("unknown")));

    let mut host = String::from_str("unknown");
    let mut content_length: Option<usize> = None;
    let mut i: usize = 1;
    while i < e
        invariant
            1 <= i <= e,
            e == find_empty_line(ls, 1),
            views_of(lines@) == ls,
            e <= lines.len(),
            spec_http_result(s) == http_scan(ls, i as int, e as int, host@, content_length, fields@),
        decreases e - i,
    {
        proof {
            assert(views_of(lines@)[i as int] == lines@[i as int]@);
        }
        let line = lines[i].as_str();
        let n: usize = line.unicode_len();
        let j = find_char_str(line, ':');
        if j < n {
            proof {
                assert(line@.take(j as int) =~= line@.subrange(0, j as int));
                assert(line@.skip(j + 1) =~= line@.subrange(j + 1, line@.len() as int));
            }
            let key = to_lower_str(trim_str(line.substring_char(0, j)).as_str());
            let val = trim_str(line.substring_char(j + 1, n));
            fields.set(key.as_str(), FieldValue::Str(val.clone()));
            if str_eq(key.as_str(), "host") {
                host = val.clone();
            }
            if str_eq(key.as_str(), "content-length") {
                content_length = parse_usize(val.as_str());
            }
        }
        i = i + 1;
    }

    let body: Option<String> = if e < lines.len() && e + 1 < lines.len() {
        let mut rest: Vec<String> = Vec::new();
        let mut k: usize = e + 1;
        proof {
            assert(views_of(rest@) =~= ls.subrange(e + 1, e + 1));
        }
        while k < lines.len()
            invariant
                e + 1 <= k <= lines.len(),
                views_of(lines@) == ls,
                views_of(rest@) == ls.subrange(e + 1, k as int),
            decreases lines.len() - k,
        {
            let ghost r0 = rest@;
            proof {
                assert(views_of(lines@)[k as int] == lines@[k as int]@);
            }
            let item = lines[k].clone();
            let ghost iv = item@;
            rest.push(item);
            proof {
                crate::text::lemma_views_of_push(r0, rest@, iv);
                assert(views_of(rest@) =~= ls.subrange(e + 1, k + 1));
            }
            k = k + 1;
        }
        proof {
            assert(ls.subrange(e + 1, ls.len() as int) =~= ls.skip(e + 1));
        }
        let joined = join_with(&rest, "\n");
        fields.set("body", FieldValue::Str(joined.clone()));
        Some(joined)
    } else {
        None
    };

    Some(HttpResult {
        method,
        path,
        version,
        host,
        content_length,
        body,
        fields,
    })
}

} // verus!
