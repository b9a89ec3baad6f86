//! FTP matcher: checks the first line, upper-cased and trimmed, against a
//! fixed command vocabulary. Unrecognized but decodable text still
//! matches, with the command reported as unknown; only input that is not
//! valid UTF-8 declines.

use vstd::prelude::*;
use vstd::string::StringExecFns;

verus! {

use vstd::utf8::{valid_utf8, decode_utf8};
use crate::fields::{FieldMap, FieldV, FieldValue};
use crate::text::{
    decode_bytes, has_prefix, spec_lines, spec_tokens, spec_trim, upper_of,
    split_lines, split_tokens, starts_with_str, to_upper_str, trim_str, views_of,
};

/// Whether the buffer qualifies for FTP matching: decodable text with at
/// least one line.
pub open spec fn ftp_matches(b: Seq<u8>) -> bool {
    valid_utf8(b) && spec_lines(decode_utf8(b)).len() > 0
}

/// The FTP command recognized from the upper-cased, trimmed first line.
pub open spec fn spec_ftp_command(first: Seq<char>) -> Seq<char> {
    if has_prefix(first, "USER"@) {
        "USER"@
    } else if has_prefix(first, "PASS"@) {
        "PASS"@
    } else if has_prefix(first, "LIST"@) {
        "LIST"@
    } else if has_prefix(first, "RETR"@) {
        "RETR"@
    } else if has_prefix(first, "STOR"@) {
        "STOR"@
    } else if has_prefix(first, "QUIT"@) {
        "QUIT"@
    } else {
        "UNKNOWN"@
    }
}

/// The username extracted from a USER command line: its second
/// whitespace-separated token, or the anonymous default.
pub open spec fn spec_ftp_username(first: Seq<char>) -> Seq<char> {
    if has_prefix(first, "USER"@) && spec_tokens(first).len() > 1 {
        spec_tokens(first)[1]
    } else {
        "anonymous"@
    }
}

/// The field mapping emitted for a matched FTP buffer.
pub open spec fn spec_ftp_fields(s: Seq<char>) -> Map<Seq<char>, FieldV> {
    let first = upper_of(spec_trim(spec_lines(s)[0]));
    Map::<Seq<char>, FieldV>::empty()
        .insert("command"@, FieldV::Str(spec_ftp_command(first)))
        .insert("username"@, FieldV::Str(spec_ftp_username(first)))
        .insert("raw_command"@, FieldV::Str(spec_lines(s)[0]))
}

/// A decoded FTP command line.
pub struct FtpResult {
    pub command: String,
    pub username: String,
    pub fields: FieldMap,
}

/// Attempts to read the buffer as an FTP command line. The match
/// succeeds exactly on valid UTF-8 input with at least one line; an
/// unrecognized first line yields the unknown command rather than a
/// decline.
pub fn parse_ftp(data: &[u8]) -> (r: Option<FtpResult>)
    ensures
        r is Some <==> ftp_matches(data@),
        r matches Some(m) ==> ({
            let s = decode_utf8(data@);
            let first = upper_of(spec_trim(spec_lines(s)[0]));
            &&& m.command@ == spec_ftp_command(first)
            &&& m.username@ == spec_ftp_username(first)
            &&& m.fields@ == spec_ftp_fields(s)
        }),
{
    let text = match decode_bytes(data) {
        Some(t) => t,
        None => {
            return None;
        },
    };
    let lines = split_lines(text.as_str());
    if lines.len() == 0 {
        return None;
    }
    let trimmed = trim_str(lines[0].as_str());
    let first = to_upper_str(trimmed.as_str());
    let mut command: &str = "UNKNOWN";
    let mut username = String::from_str("anonymous");
    if starts_with_str(first.as_str(), "USER") {
        command = "USER";
        let parts = split_tokens(first.as_str());
        if parts.len() > 1 {
            proof {
                assert(views_of(parts@)[1] == parts@[1]@);
            }
            username = parts[1].clone();
        }
    } else if starts_with_str(first.as_str(), "PASS") {
        command = "PASS";
    } else if starts_with_str(first.as_str(), "LIST") {
        command = "LIST";
    } else if starts_with_str(first.as_str(), "RETR") {
        command = "RETR";
    } else if starts_with_str(first.as_str(), "STOR") {
        command = "STOR";
    } else if starts_with_str(first.as_str(), "QUIT") {
        command = "QUIT";
    }

    proof {
        assert(views_of(lines@)[0] == lines@[0]@);
    }
    let mut fields = FieldMap::new();
    fields.set("command", FieldValue::Str(String::from_str(command)));
    fields.set("username", FieldValue::Str(username.clone()));
    fields.set("raw_command", FieldValue::Str(lines[0].clone()));

    Some(FtpResult {
        command: String::from_str(command),
        username,
        fields,
    })
}

} // verus!
