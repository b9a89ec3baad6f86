//! Telnet matcher: scans for three-byte IAC negotiation sequences and
//! renders each as a human-readable command string.

use vstd::prelude::*;
use vstd::string::StringExecFns;

verus! {

use crate::fields::{FieldMap, FieldV, FieldValue};
use crate::text::{join_with, spec_join, views_of, lemma_views_of_push};

/// Whether the buffer qualifies for Telnet matching: at least three
/// bytes, at least one of them the IAC marker.
pub open spec fn telnet_matches(b: Seq<u8>) -> bool {
    b.len() >= 3 && exists|i: int| 0 <= i < b.len() && b[i] == 0xff
}

/// The name of a Telnet negotiation command byte.
pub open spec fn spec_telnet_command_name(cmd: u8) -> Seq<char> {
    match cmd {
        0xfbu8 => "WILL"@,
        0xfcu8 => "WONT"@,
        0xfdu8 => "DO"@,
        0xfeu8 => "DONT"@,
        0xfau8 => "SB"@,
        0xf0u8 => "SE"@,
        _ => "UNKNOWN"@,
    }
}

pub fn get_telnet_command_name(cmd: u8) -> (r: &'static str)
    ensures
        r@ == spec_telnet_command_name(cmd),
{
    match cmd {
        0xfbu8 => "WILL",
        0xfcu8 => "WONT",
        0xfdu8 => "DO",
        0xfeu8 => "DONT",
        0xfau8 => "SB",
        0xf0u8 => "SE",
        _ => "UNKNOWN",
    }
}

/// The name of a Telnet option byte.
pub open spec fn spec_telnet_option_name(opt: u8) -> Seq<char> {
    match opt {
        0x01u8 => "Echo"@,
        0x03u8 => "Suppress-Go-Ahead"@,
        0x18u8 => "Terminal-Type"@,
        0x1fu8 => "Negotiate-About-Window-Size"@,
        _ => "Unknown"@,
    }
}

pub fn get_telnet_option_name(opt: u8) -> (r: &'static str)
    ensures
        r@ == spec_telnet_option_name(opt),
{
    match opt {
        0x01u8 => "Echo",
        0x03u8 => "Suppress-Go-Ahead",
        0x18u8 => "Terminal-Type",
        0x1fu8 => "Negotiate-About-Window-Size",
        _ => "Unknown",
    }
}

/// The rendering of one IAC negotiation triple.
pub open spec fn spec_iac(cmd: u8, opt: u8) -> Seq<char> {
    "IAC "@ + spec_telnet_command_name(cmd) + " "@ + spec_telnet_option_name(opt)
}

/// The decoded commands found from position `i` on: at each IAC byte with
/// two bytes after it the three-byte window is decoded and the scan
/// advances by three; at any other byte it advances by one.
pub open spec fn commands_from(b: Seq<u8>, i: int) -> Seq<Seq<char>>
    decreases b.len() - i,
{
    if i < 0 || i + 2 >= b.len() {
        Seq::empty()
    } else if b[i] == 0xff {
        seq![spec_iac(b[i + 1], b[i + 2])] + commands_from(b, i + 3)
    } else {
        commands_from(b, i + 1)
    }
}

/// The decoded commands of the whole buffer.
pub open spec fn spec_telnet_commands(b: Seq<u8>) -> Seq<Seq<char>> {
    commands_from(b, 0)
}

/// The field mapping emitted for a matched Telnet buffer.
pub open spec fn spec_telnet_fields(b: Seq<u8>) -> Map<Seq<char>, FieldV> {
    Map::<Seq<char>, FieldV>::empty()
        .insert("iac_detected"@, FieldV::Bool(true))
        .insert("commands"@, FieldV::List(spec_telnet_commands(b)))
        .insert("data_length"@, FieldV::UInt(b.len() as u64))
}

/// A decoded Telnet negotiation sequence.
pub struct TelnetResult {
    pub command: String,
    pub fields: FieldMap,
}

/// Attempts to read the buffer as Telnet IAC negotiation. The match
/// succeeds exactly on buffers of at least three bytes containing at
/// least one IAC marker; the summary joins the decoded commands with
/// semicolon separators.
pub fn parse_telnet(data: &[u8]) -> (r: Option<TelnetResult>)
    ensures
        r is Some <==> telnet_matches(data@),
        r matches Some(m) ==> ({
            &&& m.command@ == spec_join(spec_telnet_commands(data@), "; "@)
            &&& m.fields@ == spec_telnet_fields(data@)
        }),
{
    let ghost s = data@;
    let n: usize = data.len();
    if n < 3 {
        return None;
    }
    let mut has_iac = false;
    let mut k: usize = 0;
    while k < n && !has_iac
        invariant
            k <= n,
            n == s.len(),
            data@ == s,
            has_iac ==> exists|i: int| 0 <= i < s.len() && s[i] == 0xff,
            !has_iac ==> forall|i: int| 0 <= i < k ==> s[i] != 0xff,
        decreases n - k + (if has_iac { 0int } else { 1int }),
    {
        if data[k] == 0xff {
            has_iac = true;
        } else {
            k = k + 1;
        }
    }
    if !has_iac {
        return None;
    }

    let mut commands: Vec<String> = Vec::new();
    let mut i: usize = 0;
    proof {
        assert(views_of(commands@) =~= Seq::<Seq<char>>::empty());
        assert(Seq::<Seq<char>>::empty() + commands_from(s, 0) =~= commands_from(s, 0));
    }
    while i < n - 2
        invariant
            3 <= n,
            i <= n,
            n == s.len(),
            data@ == s,
            spec_telnet_commands(s) == views_of(commands@) + commands_from(s, i as int),
        decreases n - i,
    {
        let ghost c0 = commands@;
        if data[i] == 0xff {
            let cmd = data[i + 1];
            let opt = data[i + 2];
            let mut entry = String::from_str("IAC ");
            entry.append(get_telnet_command_name(cmd));
            entry.append(" ");
            entry.append(get_telnet_option_name(opt));
            let ghost ev = entry@;
            commands.push(entry);
            proof {
                lemma_views_of_push(c0, commands@, ev);
                assert(commands_from(s, i as int)
                    == seq![spec_iac(cmd, opt)] + commands_from(s, i + 3));
                assert(views_of(commands@) + commands_from(s, i + 3)
                    =~= views_of(c0) + commands_from(s, i as int));
            }
            i = i + 3;
        } else {
            i = i + 1;
        }
    }
    proof {
        assert(commands_from(s, i as int) =~= Seq::<Seq<char>>::empty());
        assert(views_of(commands@) + commands_from(s, i as int) =~= views_of(commands@));
    }

    let command = join_with(&commands, "; ");
    let mut fields = FieldMap::new();
    fields.set("iac_detected", FieldValue::Bool(true));
    fields.set("commands", FieldValue::List(commands));
    fields.set("data_length", FieldValue::UInt(n as u64));

    Some(TelnetResult { command, fields })
}

} // verus!
