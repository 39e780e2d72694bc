//! Form encoding of URLs for use as query values, and escaping of text placed in HTML.

use vstd::prelude::*;
use vstd::string::StringSliceAdditionalSpecFns;
use crate::text::{chars_of, push_char};

verus! {

/// Bytes that form encoding leaves as they are: ASCII letters and digits, `*`, `-`, `.`, `_`.
pub open spec fn unchanged_byte(b: u8) -> bool {
    b == 42 || b == 45 || b == 46 || (48 <= b <= 57) || (65 <= b <= 90) || b == 95 || (97 <= b
        <= 122)
}

/// The upper-case hexadecimal digit of `n`, below 16.
pub open spec fn hex_digit(n: u8) -> char {
    if n < 10 {
        (48 + n) as char
    } else {
        (55 + n) as char
    }
}

/// The form encoding of one byte: itself when unchanged, `+` for a space, otherwise `%`
/// and two upper-case hexadecimal digits.
pub open spec fn encode_byte(b: u8) -> Seq<char> {
    if unchanged_byte(b) {
        seq![b as char]
    } else if b == 32 {
        seq!['+']
    } else {
        seq!['%', hex_digit(b / 16), hex_digit(b % 16)]
    }
}

/// The `application/x-www-form-urlencoded` encoding of some bytes, byte by byte, as
/// `form_urlencoded::byte_serialize` produces it.
pub open spec fn form_urlencode_spec(bytes: Seq<u8>) -> Seq<char>
    decreases bytes.len(),
{
    if bytes.len() == 0 {
        Seq::empty()
    } else {
        form_urlencode_spec(bytes.drop_last()) + encode_byte(bytes.last())
    }
}

fn hex(n: u8) -> (c: char)
    requires
        n < 16,
    ensures
        c == hex_digit(n),
{
    if n < 10 {
        (48 + n) as char
    } else {
        (55 + n) as char
    }
}

/// The form encoding of the UTF-8 bytes of `s`, for use as a query value.
pub fn urlencode(s: &str) -> (r: String)
    ensures
        r@ == form_urlencode_spec(s.spec_bytes()),
{
    let bytes = s.as_bytes();
    let n = bytes.len();
    let mut out = String::new();
    assert(bytes@.take(0) =~= Seq::<u8>::empty());
    for i in 0..n
        invariant
            n == bytes@.len(),
            bytes@ == s.spec_bytes(),
            out@ == form_urlencode_spec(bytes@.take(i as int)),
    {
        let b = bytes[i];
        let ghost t = bytes@.take(i + 1);
        assert(t.drop_last() =~= bytes@.take(i as int));
        assert(t.last() == b);
        let ghost before = out@;
        if b == 42 || b == 45 || b == 46 || (48 <= b && b <= 57) || (65 <= b && b <= 90) || b == 95
            || (97 <= b && b <= 122) {
            push_char(&mut out, b as char);
            assert(out@ =~= before + encode_byte(b));
        } else if b == 32 {
            push_char(&mut out, '+');
            assert(out@ =~= before + encode_byte(b));
        } else {
            push_char(&mut out, '%');
            push_char(&mut out, hex(b / 16));
            push_char(&mut out, hex(b % 16));
            assert(out@ =~= before + encode_byte(b));
        }
    }
    assert(bytes@.take(n as int) =~= bytes@);
    out
}

/// The HTML form of one character: `&`, `<`, `>`, `"` and `'` as character references,
/// any other character as itself.
pub open spec fn escape_char(c: char) -> Seq<char> {
    if c == '&' {
        seq!['&', 'a', 'm', 'p', ';']
    } else if c == '<' {
        seq!['&', 'l', 't', ';']
    } else if c == '>' {
        seq!['&', 'g', 't', ';']
    } else if c == '"' {
        seq!['&', 'q', 'u', 'o', 't', ';']
    } else if c == '\'' {
        seq!['&', '#', 'x', '2', '7', ';']
    } else {
        seq![c]
    }
}

/// Text made safe to place in HTML content or in a quoted attribute, character by character.
pub open spec fn html_escape_spec(s: Seq<char>) -> Seq<char>
    decreases s.len(),
{
    if s.len() == 0 {
        Seq::empty()
    } else {
        html_escape_spec(s.drop_last()) + escape_char(s.last())
    }
}

fn push_all(out: &mut String, chars: &[char])
    ensures
        final(out)@ == old(out)@ + chars@,
{
    let n = chars.len();
    let ghost start = out@;
    assert(start + chars@.take(0) =~= start);
    for i in 0..n
        invariant
            n == chars@.len(),
            out@ == start + chars@.take(i as int),
    {
        push_char(out, chars[i]);
        assert(start + chars@.take(i + 1) =~= (start + chars@.take(i as int)).push(chars@[i as int]));
    }
    assert(chars@.take(n as int) =~= chars@);
}

/// `s` escaped for HTML.
pub fn html_escape(s: &str) -> (r: String)
    ensures
        r@ == html_escape_spec(s@),
{
    let v = chars_of(s);
    let n = v.len();
    let mut out = String::new();
    assert(s@.take(0) =~= Seq::<char>::empty());
    for i in 0..n
        invariant
            n == v@.len(),
            v@ == s@,
            out@ == html_escape_spec(s@.take(i as int)),
    {
        let c = v[i];
        let ghost t = s@.take(i + 1);
        assert(t.drop_last() =~= s@.take(i as int));
        assert(t.last() == c);
        let ghost before = out@;
        if c == '&' {
            let piece: [char; 5] = ['&', 'a', 'm', 'p', ';'];
            push_all(&mut out, &piece);
            assert(piece@ =~= escape_char(c));
        } else if c == '<' {
            let piece: [char; 4] = ['&', 'l', 't', ';'];
            push_all(&mut out, &piece);
            assert(piece@ =~= escape_char(c));
        } else if c == '>' {
            let piece: [char; 4] = ['&', 'g', 't', ';'];
            push_all(&mut out, &piece);
            assert(piece@ =~= escape_char(c));
        } else if c == '"' {
            let piece: [char; 6] = ['&', 'q', 'u', 'o', 't', ';'];
            push_all(&mut out, &piece);
            assert(piece@ =~= escape_char(c));
        } else if c == '\'' {
            let piece: [char; 6] = ['&', '#', 'x', '2', '7', ';'];
            push_all(&mut out, &piece);
            assert(piece@ =~= escape_char(c));
        } else {
            push_char(&mut out, c);
            assert(seq![c] =~= escape_char(c));
        }
        assert(out@ =~= before + escape_char(c));
    }
    assert(s@.take(n as int) =~= s@);
    out
}

} // verus!
