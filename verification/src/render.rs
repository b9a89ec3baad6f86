//! Raw renderings of byte buffers and numbers: the uppercase hex dump with
//! single-space separators, the printable-ASCII dump with `.` substitution,
//! and hexadecimal and decimal renderings of unsigned values.

use vstd::prelude::*;

verus! {

use crate::text::push_char;

/// The uppercase hex digit for a value below sixteen.
pub open spec fn hex_digit(n: u8) -> char {
    match n {
        0 => '0',
        1 => '1',
        2 => '2',
        3 => '3',
        4 => '4',
        5 => '5',
        6 => '6',
        7 => '7',
        8 => '8',
        9 => '9',
        10 => 'A',
        11 => 'B',
        12 => 'C',
        13 => 'D',
        14 => 'E',
        15 => 'F',
        _ => '?',
    }
}

fn hex_digit_char(n: u8) -> (c: char)
    requires
        n < 16,
    ensures
        c == hex_digit(n),
{
    match n {
        0 => '0',
        1 => '1',
        2 => '2',
        3 => '3',
        4 => '4',
        5 => '5',
        6 => '6',
        7 => '7',
        8 => '8',
        9 => '9',
        10 => 'A',
        11 => 'B',
        12 => 'C',
        13 => 'D',
        14 => 'E',
        _ => 'F',
    }
}

/// The two uppercase hex digits of one byte.
pub open spec fn spec_hex_byte(b: u8) -> Seq<char> {
    seq![hex_digit(b / 16), hex_digit(b % 16)]
}

/// The four uppercase hex digits of one sixteen-bit value.
pub open spec fn spec_hex_u16(v: u16) -> Seq<char> {
    spec_hex_byte((v / 256) as u8) + spec_hex_byte((v % 256) as u8)
}

/// Appends the two hex digits of `b` to `out`.
pub fn push_hex_byte(out: &mut String, b: u8)
    ensures
        final(out)@ == old(out)@ + spec_hex_byte(b),
{
    push_char(out, hex_digit_char(b / 16));
    push_char(out, hex_digit_char(b % 16));
    proof {
        assert(out@ =~= old(out)@ + spec_hex_byte(b));
    }
}

/// Appends the four hex digits of `v` to `out`.
pub fn push_hex_u16(out: &mut String, v: u16)
    ensures
        final(out)@ == old(out)@ + spec_hex_u16(v),
{
    push_hex_byte(out, (v / 256) as u8);
    push_hex_byte(out, (v % 256) as u8);
    proof {
        assert(out@ =~= old(out)@ + spec_hex_u16(v));
    }
}

/// The hex dump of a buffer: two uppercase digits per byte, consecutive
/// bytes separated by one space, with no trailing separator.
pub open spec fn spec_hex_dump(b: Seq<u8>) -> Seq<char>
    decreases b.len(),
{
    if b.len() == 0 {
        Seq::empty()
    } else if b.len() == 1 {
        spec_hex_byte(b[0])
    } else {
        spec_hex_dump(b.drop_last()) + seq![' '] + spec_hex_byte(b.last())
    }
}

/// Rendering totality: for any buffer the hex dump is three characters
/// per byte save the missing final separator, an empty buffer renders
/// empty, and the printable-ASCII dump has one character per byte.
pub proof fn lemma_dump_lengths(b: Seq<u8>)
    ensures
        b.len() == 0 ==> spec_hex_dump(b).len() == 0,
        b.len() > 0 ==> spec_hex_dump(b).len() == 3 * b.len() - 1,
        spec_ascii_dump(b).len() == b.len(),
    decreases b.len(),
{
    if b.len() > 1 {
        lemma_dump_lengths(b.drop_last());
    }
}

/// Renders the full buffer as space-separated uppercase hex byte pairs.
pub fn hex_dump(data: &[u8]) -> (r: String)
    ensures
        r@ == spec_hex_dump(data@),
{
    let ghost s = data@;
    let n: usize = data.len();
    let mut out = String::new();
    let mut i: usize = 0;
    while i < n
        invariant
            i <= n,
            n == s.len(),
            data@ == s,
            out@ == spec_hex_dump(s.take(i as int)),
        decreases n - i,
    {
        let b = data[i];
        if i > 0 {
            push_char(&mut out, ' ');
        }
        push_hex_byte(&mut out, b);
        proof {
            assert(s.take(i + 1).drop_last() =~= s.take(i as int));
            assert(s.take(i + 1).last() == s[i as int]);
            if i == 0 {
                assert(out@ =~= spec_hex_dump(s.take(1)));
            } else {
                assert(out@ =~= spec_hex_dump(s.take(i + 1)));
            }
        }
        i = i + 1;
    }
    proof {
        assert(s.take(n as int) =~= s);
    }
    out
}

/// Whether a byte is a printable ASCII graphic character or a space.
pub open spec fn is_printable(b: u8) -> bool {
    0x20 <= b <= 0x7e
}

/// The character shown for one byte of the ASCII dump: the byte itself
/// when printable, a dot otherwise.
pub open spec fn ascii_sub(b: u8) -> char {
    if is_printable(b) {
        b as char
    } else {
        '.'
    }
}

/// The printable-ASCII dump of a buffer, one character per byte.
pub open spec fn spec_ascii_dump(b: Seq<u8>) -> Seq<char> {
    Seq::new(b.len(), |i: int| ascii_sub(b[i]))
}

/// Renders the full buffer as printable ASCII, substituting `.` for any
/// byte that is not a printable graphic character or space.
pub fn bytes_to_ascii(data: &[u8]) -> (r: String)
    ensures
        r@ == spec_ascii_dump(data@),
        r@.len() == data@.len(),
{
    let ghost s = data@;
    let n: usize = data.len();
    let mut out = String::new();
    let mut i: usize = 0;
    while i < n
        invariant
            i <= n,
            n == s.len(),
            data@ == s,
            out@ == spec_ascii_dump(s).take(i as int),
        decreases n - i,
    {
        let b = data[i];
        let c: char = if 0x20 <= b && b <= 0x7e {
            b as char
        } else {
            '.'
        };
        push_char(&mut out, c);
        proof {
            assert(out@ =~= spec_ascii_dump(s).take(i + 1));
        }
        i = i + 1;
    }
    proof {
        assert(spec_ascii_dump(s).take(n as int) =~= spec_ascii_dump(s));
    }
    out
}

/// The decimal digits of `n`, most significant first.
pub open spec fn spec_dec(n: nat) -> Seq<char>
    decreases n,
{
    if n < 10 {
        seq![hex_digit(n as u8)]
    } else {
        spec_dec(n / 10).push(hex_digit((n % 10) as u8))
    }
}

/// Renders `n` in decimal.
pub fn dec_u64(n: u64) -> (r: String)
    ensures
        r@ == spec_dec(n as nat),
    decreases n,
{
    if n < 10 {
        let mut out = String::new();
        push_char(&mut out, hex_digit_char(n as u8));
        proof {
            assert(out@ =~= spec_dec(n as nat));
        }
        out
    } else {
        let mut out = dec_u64(n / 10);
        push_char(&mut out, hex_digit_char((n % 10) as u8));
        out
    }
}

} // verus!
