use vstd::prelude::*;
use vstd::string::StringExecFns;
use vstd::utf8::{decode_utf8, valid_utf8};

verus! {

/// Relies on String::from_utf8: it succeeds exactly when the bytes are valid
/// UTF-8, and the string then holds the characters those bytes encode.
#[verifier::external_body]
pub(crate) fn utf8_string(b: &[u8]) -> (r: Option<String>)
    ensures
        r is Some <==> valid_utf8(b@),
        r is Some ==> r->0@ == decode_utf8(b@),
{
    String::from_utf8(b.to_vec()).ok()
}

/// Relies on String::push: the character is appended at the end.
#[verifier::external_body]
pub(crate) fn push_char(s: &mut String, c: char)
    ensures
        final(s)@ == old(s)@.push(c),
{
    s.push(c)
}

/// Relies on String::pop: the last character is removed and returned, and an
/// empty string is left as it is.
#[verifier::external_body]
pub(crate) fn pop_char(s: &mut String) -> (r: Option<char>)
    ensures
        old(s)@.len() == 0 ==> r is None && final(s)@ == old(s)@,
        old(s)@.len() > 0 ==> r == Some(old(s)@.last()) && final(s)@ == old(s)@.drop_last(),
{
    s.pop()
}

/// The name shown for a control byte: `NUL` to `US`, then `SPACE`.
pub open spec fn control_name(b: u8) -> Seq<char> {
    if b == 0 { "NUL"@ }
    else if b == 1 { "SOH"@ }
    else if b == 2 { "STX"@ }
    else if b == 3 { "ETX"@ }
    else if b == 4 { "EOT"@ }
    else if b == 5 { "ENQ"@ }
    else if b == 6 { "ACK"@ }
    else if b == 7 { "BEL"@ }
    else if b == 8 { "BS"@ }
    else if b == 9 { "TAB"@ }
    else if b == 10 { "LF"@ }
    else if b == 11 { "VT"@ }
    else if b == 12 { "FF"@ }
    else if b == 13 { "CR"@ }
    else if b == 14 { "SO"@ }
    else if b == 15 { "SI"@ }
    else if b == 16 { "DLE"@ }
    else if b == 17 { "DC1"@ }
    else if b == 18 { "DC2"@ }
    else if b == 19 { "DC3"@ }
    else if b == 20 { "DC4"@ }
    else if b == 21 { "NAK"@ }
    else if b == 22 { "SYN"@ }
    else if b == 23 { "ETB"@ }
    else if b == 24 { "CAN"@ }
    else if b == 25 { "EM"@ }
    else if b == 26 { "SUB"@ }
    else if b == 27 { "ESC"@ }
    else if b == 28 { "FS"@ }
    else if b == 29 { "GS"@ }
    else if b == 30 { "RS"@ }
    else if b == 31 { "US"@ }
    else { "SPACE"@ }
}

/// How one byte is shown when the bytes around it are not UTF-8: a name for
/// the control bytes and space, the character itself for the other ASCII
/// bytes, `DEL`, and a NUL character for the bytes above ASCII.
pub open spec fn byte_text(b: u8) -> Seq<char> {
    if b <= 32 {
        control_name(b)
    } else if b <= 126 {
        seq![b as char]
    } else if b == 127 {
        "DEL"@
    } else {
        seq!['\0']
    }
}

/// The bytes shown one by one, each as `byte_text` gives it.
pub open spec fn bytes_text(b: Seq<u8>) -> Seq<char>
    decreases b.len(),
{
    if b.len() == 0 {
        Seq::empty()
    } else {
        bytes_text(b.drop_last()) + byte_text(b.last())
    }
}

/// How a found value is shown: valid UTF-8 as its characters, anything else
/// byte by byte.
pub open spec fn display_text(b: Seq<u8>) -> Seq<char> {
    if valid_utf8(b) {
        decode_utf8(b)
    } else {
        bytes_text(b)
    }
}

fn control_str(i: u8) -> (r: &'static str)
    requires
        i <= 32,
    ensures
        r@ == control_name(i),
{
    match i {
        0 => "NUL",
        1 => "SOH",
        2 => "STX",
        3 => "ETX",
        4 => "EOT",
        5 => "ENQ",
        6 => "ACK",
        7 => "BEL",
        8 => "BS",
        9 => "TAB",
        10 => "LF",
        11 => "VT",
        12 => "FF",
        13 => "CR",
        14 => "SO",
        15 => "SI",
        16 => "DLE",
        17 => "DC1",
        18 => "DC2",
        19 => "DC3",
        20 => "DC4",
        21 => "NAK",
        22 => "SYN",
        23 => "ETB",
        24 => "CAN",
        25 => "EM",
        26 => "SUB",
        27 => "ESC",
        28 => "FS",
        29 => "GS",
        30 => "RS",
        31 => "US",
        _ => "SPACE",
    }
}

/// The text shown for one byte outside UTF-8.
pub fn to_ascii(i: u8) -> (r: String)
    ensures
        r@ == byte_text(i),
{
    if i <= 32 {
        control_str(i).to_string()
    } else if i <= 126 {
        let mut s = String::new();
        push_char(&mut s, i as char);
        s
    } else if i == 127 {
        "DEL".to_string()
    } else {
        let mut s = String::new();
        push_char(&mut s, '\0');
        s
    }
}

/// The display form of bytes read from memory: the text they encode where
/// they are UTF-8, else each byte as `to_ascii` shows it. It serves display
/// only; no bytes are ever rebuilt from it.
pub fn bytes_to_string(value: Vec<u8>) -> (r: String)
    ensures
        r@ == display_text(value@),
{
    match utf8_string(value.as_slice()) {
        Some(s) => s,
        None => {
            let mut s = String::new();
            let mut i: usize = 0;
            while i < value.len()
                invariant
                    i <= value@.len(),
                    s@ == bytes_text(value@.subrange(0, i as int)),
                decreases value.len() - i,
            {
                let t = to_ascii(value[i]);
                s.append(t.as_str());
                let ghost pre = value@.subrange(0, i + 1);
                assert(pre.drop_last() =~= value@.subrange(0, i as int));
                i += 1;
            }
            assert(value@.subrange(0, i as int) =~= value@);
            s
        },
    }
}

/// The lower-case hex digit for `d < 16`.
pub open spec fn hex_char(d: nat) -> char {
    if d < 10 {
        ((0x30 + d) as u8) as char
    } else {
        ((0x61 + d - 10) as u8) as char
    }
}

/// `n` in lower-case hexadecimal, without leading zeros (`0` for zero).
pub open spec fn hex_text(n: nat) -> Seq<char>
    decreases n,
{
    if n < 16 {
        seq![hex_char(n)]
    } else {
        hex_text(n / 16).push(hex_char(n % 16))
    }
}

fn push_hex(s: &mut String, n: usize)
    ensures
        final(s)@ == old(s)@ + hex_text(n as nat),
    decreases n,
{
    if n >= 16 {
        push_hex(s, n / 16);
    }
    let d = (n % 16) as u8;
    let c = if d < 10 {
        (0x30u8 + d) as char
    } else {
        (0x61u8 + d - 10) as char
    };
    push_char(s, c);
    if n >= 16 {
        assert(old(s)@ + hex_text(n as nat) =~= old(s)@ + hex_text((n / 16) as nat) + seq![c]);
    } else {
        assert(old(s)@ + hex_text(n as nat) =~= old(s)@.push(c));
    }
}

/// An address written in lower-case hexadecimal, as the tables show it.
pub fn num_to_hex(n: usize) -> (r: String)
    ensures
        r@ == hex_text(n as nat),
{
    let mut s = String::new();
    push_hex(&mut s, n);
    assert(Seq::<char>::empty() + hex_text(n as nat) =~= hex_text(n as nat));
    s
}

/// `needle` occurs somewhere in `hay`.
pub open spec fn has_substring(hay: Seq<char>, needle: Seq<char>) -> bool {
    exists|i: int|
        0 <= i && i + needle.len() <= hay.len() && #[trigger] hay.subrange(i, i + needle.len())
            == needle
}

/// Relies on str::contains with a string pattern: true exactly when `needle`
/// occurs in `hay`.
#[verifier::external_body]
pub(crate) fn contains_text(hay: &str, needle: &str) -> (r: bool)
    ensures
        r == has_substring(hay@, needle@),
{
    hay.contains(needle)
}

/// `n` in decimal, without leading zeros (`0` for zero).
pub open spec fn dec_text(n: nat) -> Seq<char>
    decreases n,
{
    if n < 10 {
        seq![((0x30 + n) as u8) as char]
    } else {
        dec_text(n / 10).push(((0x30 + n % 10) as u8) as char)
    }
}

fn push_dec(s: &mut String, n: usize)
    ensures
        final(s)@ == old(s)@ + dec_text(n as nat),
    decreases n,
{
    if n >= 10 {
        push_dec(s, n / 10);
    }
    let c = (0x30u8 + (n % 10) as u8) as char;
    push_char(s, c);
    if n >= 10 {
        assert(old(s)@ + dec_text(n as nat) =~= old(s)@ + dec_text((n / 10) as nat) + seq![c]);
    } else {
        assert(old(s)@ + dec_text(n as nat) =~= old(s)@.push(c));
    }
}

/// `text`, then `n` in decimal, then `tail`.
pub fn with_count(text: &str, n: usize, tail: &str) -> (r: String)
    ensures
        r@ == text@ + dec_text(n as nat) + tail@,
{
    let mut s = text.to_string();
    push_dec(&mut s, n);
    s.append(tail);
    s
}

/// The characters that `char::is_whitespace` accepts: those with the
/// Unicode White_Space property.
pub open spec fn is_white_space(c: char) -> bool {
    let u = c as u32;
    (0x09 <= u <= 0x0d) || u == 0x20 || u == 0x85 || u == 0xa0 || u == 0x1680 || (0x2000 <= u
        <= 0x200a) || u == 0x2028 || u == 0x2029 || u == 0x202f || u == 0x205f || u == 0x3000
}

/// The first index at or after `pos` whose character is not white space,
/// or the length.
pub open spec fn first_non_white(s: Seq<char>, pos: int) -> int
    decreases s.len() - pos,
{
    if pos < 0 || pos >= s.len() || !is_white_space(s[pos]) {
        pos
    } else {
        first_non_white(s, pos + 1)
    }
}

/// The end of the last character before `end` that is not white space, or 0.
pub open spec fn last_non_white_end(s: Seq<char>, end: int) -> int
    decreases end,
{
    if end <= 0 || end > s.len() || !is_white_space(s[end - 1]) {
        end
    } else {
        last_non_white_end(s, end - 1)
    }
}

/// `s` without its leading and trailing white space.
pub open spec fn trimmed(s: Seq<char>) -> Seq<char> {
    let a = first_non_white(s, 0);
    let z = last_non_white_end(s, s.len() as int);
    if a < z {
        s.subrange(a, z)
    } else {
        Seq::empty()
    }
}

/// Relies on str::trim: it drops the leading and trailing characters with
/// the Unicode White_Space property, the ones `char::is_whitespace` accepts.
#[verifier::external_body]
pub(crate) fn trim_text(s: &str) -> (r: String)
    ensures
        r@ == trimmed(s@),
{
    s.trim().to_string()
}

} // verus!
