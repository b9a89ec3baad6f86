//! SMTP matcher: the buffer qualifies when any line, case-insensitively,
//! starts with one of the SMTP keywords; the sender, recipient and
//! subject are then extracted from the lines that carry them.

use vstd::prelude::*;
use vstd::string::StringExecFns;

verus! {

use vstd::utf8::{valid_utf8, decode_utf8};
use crate::fields::{FieldMap, FieldV, FieldValue};
use crate::text::{
    decode_bytes, has_prefix, spec_lines, spec_trim, split_lines,
    starts_with_str, to_upper_str, trim_str, upper_of, views_of,
};

/// Whether one line, trimmed and upper-cased, starts with an SMTP keyword.
pub open spec fn smtp_line_qualifies(l: Seq<char>) -> bool {
    let u = upper_of(spec_trim(l));
    ||| has_prefix(u, "EHLO"@)
    ||| has_prefix(u, "MAIL FROM:"@)
    ||| has_prefix(u, "RCPT TO:"@)
    ||| has_prefix(u, "DATA"@)
    ||| has_prefix(u, "HELO"@)
    ||| has_prefix(u, "SUBJECT:"@)
}

/// Whether the buffer qualifies for SMTP matching: decodable text with
/// at least one line, one of which carries an SMTP keyword.
pub open spec fn smtp_matches(b: Seq<u8>) -> bool {
    &&& valid_utf8(b)
    &&& spec_lines(decode_utf8(b)).len() > 0
    &&& exists|i: int|
        0 <= i < spec_lines(decode_utf8(b)).len()
            && smtp_line_qualifies(spec_lines(decode_utf8(b))[i])
}

/// The sender, recipient and subject after scanning the lines from index
/// `i` on: each line updates at most one of the three, with the text
/// following the matched keyword trimmed. A keyword counts only when the
/// trimmed line also has at least the keyword's length in characters,
/// which the prefix of the upper-cased form alone cannot bound, since
/// upper-casing may lengthen a character.
pub open spec fn smtp_scan(
    ls: Seq<Seq<char>>,
    i: int,
    from: Seq<char>,
    to: Seq<char>,
    subject: Seq<char>,
) -> (Seq<char>, Seq<char>, Seq<char>)
    decreases ls.len() - i,
{
    if i < 0 || i >= ls.len() {
        (from, to, subject)
    } else {
        let t = spec_trim(ls[i]);
        let u = upper_of(t);
        if has_prefix(u, "MAIL FROM:"@) && t.len() >= 10 {
            smtp_scan(ls, i + 1, spec_trim(t.skip(10)), to, subject)
        } else if has_prefix(u, "RCPT TO:"@) && t.len() >= 8 {
            smtp_scan(ls, i + 1, from, spec_trim(t.skip(8)), subject)
        } else if has_prefix(u, "SUBJECT:"@) && t.len() >= 8 {
            smtp_scan(ls, i + 1, from, to, spec_trim(t.skip(8)))
        } else {
            smtp_scan(ls, i + 1, from, to, subject)
        }
    }
}

/// The sender, recipient and subject of the whole buffer, with their
/// defaults when no line carries the keyword.
pub open spec fn spec_smtp_result(s: Seq<char>) -> (Seq<char>, Seq<char>, Seq<char>) {
    smtp_scan(spec_lines(s), 0, "unknown"@, "unknown"@, ""@)
}

/// The field mapping emitted for a matched SMTP buffer.
pub open spec fn spec_smtp_fields(s: Seq<char>) -> Map<Seq<char>, FieldV> {
    let r = spec_smtp_result(s);
    Map::<Seq<char>, FieldV>::empty()
        .insert("mail_from"@, FieldV::Str(r.0))
        .insert("rcpt_to"@, FieldV::Str(r.1))
        .insert("subject"@, FieldV::Str(r.2))
}

/// A decoded SMTP command sequence.
pub struct SmtpResult {
    pub from: String,
    pub to: String,
    pub subject: String,
    pub fields: FieldMap,
}

/// Attempts to read the buffer as an SMTP command sequence. The match
/// succeeds exactly on valid UTF-8 input in which some line starts,
/// case-insensitively, with an SMTP keyword.
pub fn parse_smtp(data: &[u8]) -> (r: Option<SmtpResult>)
    ensures
        r is Some <==> smtp_matches(data@),
        r matches Some(m) ==> ({
            let s = decode_utf8(data@);
            &&& m.from@ == spec_smtp_result(s).0
            &&& m.to@ == spec_smtp_result(s).1
            &&& m.subject@ == spec_smtp_result(s).2
            &&& m.fields@ == spec_smtp_fields(s)
        }),
{
    let ghost bs = data@;
    let text = match decode_bytes(data) {
        Some(t) => t,
        None => {
            return None;
        },
    };
    let ghost s = text@;
    let lines = split_lines(text.as_str());
    let ghost ls = spec_lines(s);
    if lines.len() == 0 {
        return None;
    }

    let mut is_smtp = false;
    let mut k: usize = 0;
    while k < lines.len() && !is_smtp
        invariant
            k <= lines.len(),
            views_of(lines@) == ls,
            is_smtp ==> exists|i: int| 0 <= i < ls.len() && smtp_line_qualifies(ls[i]),
            !is_smtp ==> forall|i: int| 0 <= i < k ==> !smtp_line_qualifies(ls[i]),
        decreases lines.len() - k + (if is_smtp { 0int } else { 1int }),
    {
        let t = trim_str(lines[k].as_str());
        let u = to_upper_str(t.as_str());
        proof {
            assert(views_of(lines@)[k as int] == lines@[k as int]@);
        }
        if starts_with_str(u.as_str(), "EHLO")
            || starts_with_str(u.as_str(), "MAIL FROM:")
            || starts_with_str(u.as_str(), "RCPT TO:")
            || starts_with_str(u.as_str(), "DATA")
            || starts_with_str(u.as_str(), "HELO")
            || starts_with_str(u.as_str(), "SUBJECT:") {
            is_smtp = true;
        } else {
            k = k + 1;
        }
    }
    if !is_smtp {
        return None;
    }

    let mut from = String::from_str("unknown");
    let mut to = String::from_str("unknown");
    let mut subject = String::from_str("");
    let mut i: usize = 0;
    while i < lines.len()
        invariant
            i <= lines.len(),
            views_of(lines@) == ls,
            spec_smtp_result(s) == smtp_scan(ls, i as int, from@, to@, subject@),
        decreases lines.len() - i,
    {
        proof {
            assert(views_of(lines@)[i as int] == lines@[i as int]@);
        }
        let t = trim_str(lines[i].as_str());
        let u = to_upper_str(t.as_str());
        let tn: usize = t.as_str().unicode_len();
        if starts_with_str(u.as_str(), "MAIL FROM:") && tn >= 10 {
            proof {
                assert(t@.skip(10) =~= t@.subrange(10, t@.len() as int));
            }
            from = trim_str(t.as_str().substring_char(10, tn));
        } else if starts_with_str(u.as_str(), "RCPT TO:") && tn >= 8 {
            proof {
                assert(t@.skip(8) =~= t@.subrange(8, t@.len() as int));
            }
            to = trim_str(t.as_str().substring_char(8, tn));
        } else if starts_with_str(u.as_str(), "SUBJECT:") && tn >= 8 {
            proof {
                assert(t@.skip(8) =~= t@.subrange(8, t@.len() as int));
            }
            subject = trim_str(t.as_str().substring_char(8, tn));
        }
        i = i + 1;
    }

    let mut fields = FieldMap::new();
    fields.set("mail_from", FieldValue::Str(from.clone()));
    fields.set("rcpt_to", FieldValue::Str(to.clone()));
    fields.set("subject", FieldValue::Str(subject.clone()));

    Some(SmtpResult { from, to, subject, fields })
}

} // verus!
