//! Query-string encoding of search text, as the htmx search pushes it into
//! the address bar, with the decoding that a reload applies to it.
use vstd::prelude::*;

use crate::text::push_char;
use vstd::string::StringSliceAdditionalSpecFns;

verus! {

broadcast use vstd::utf8::group_utf8_lib;

/// Bytes that stand for themselves in the encoding: ASCII letters and
/// digits, `-`, `_`, `.` and `~`.
pub open spec fn unreserved(b: u8) -> bool {
    ||| (65 <= b && b <= 90)
    ||| (97 <= b && b <= 122)
    ||| (48 <= b && b <= 57)
    ||| b == 45
    ||| b == 95
    ||| b == 46
    ||| b == 126
}

/// The upper-case hexadecimal digit for `n` (taken modulo sixteen).
pub open spec fn hex_upper(n: nat) -> char {
    let n = n % 16;
    if n < 10 {
        crate::text::digit_char(n)
    } else if n == 10 {
        'A'
    } else if n == 11 {
        'B'
    } else if n == 12 {
        'C'
    } else if n == 13 {
        'D'
    } else if n == 14 {
        'E'
    } else {
        'F'
    }
}

/// The value of a hexadecimal digit of either case.
pub open spec fn hex_value(c: char) -> Option<nat> {
    if '0' <= c && c <= '9' {
        Some((c as u32 - '0' as u32) as nat)
    } else if 'A' <= c && c <= 'F' {
        Some((c as u32 - 'A' as u32 + 10) as nat)
    } else if 'a' <= c && c <= 'f' {
        Some((c as u32 - 'a' as u32 + 10) as nat)
    } else {
        None
    }
}

/// How one byte is written: itself when unreserved, `+` for a space, and
/// `%` with two upper-case hexadecimal digits otherwise.
pub open spec fn encode_byte(b: u8) -> Seq<char> {
    if unreserved(b) {
        seq![b as char]
    } else if b == 32 {
        seq!['+']
    } else {
        seq!['%', hex_upper((b / 16) as nat), hex_upper((b % 16) as nat)]
    }
}

/// The encoding of a byte string: each byte written in turn.
pub open spec fn form_encoded(bytes: Seq<u8>) -> Seq<char>
    decreases bytes.len(),
{
    if bytes.len() == 0 {
        Seq::empty()
    } else {
        form_encoded(bytes.drop_last()) + encode_byte(bytes.last())
    }
}

/// How `application/x-www-form-urlencoded` text is read back into bytes:
/// `+` is a space, `%` with two hexadecimal digits is the byte they spell,
/// and any other character is its UTF-8 encoding.
pub open spec fn form_decoded(s: Seq<char>) -> Seq<u8>
    decreases s.len(),
{
    if s.len() == 0 {
        Seq::empty()
    } else if s[0] == '+' {
        seq![32u8] + form_decoded(s.drop_first())
    } else if s[0] == '%' && s.len() >= 3 && hex_value(s[1]) is Some && hex_value(s[2]) is Some {
        seq![(16 * hex_value(s[1])->0 + hex_value(s[2])->0) as u8] + form_decoded(
            s.subrange(3, s.len() as int),
        )
    } else {
        vstd::utf8::encode_utf8(seq![s[0]]) + form_decoded(s.drop_first())
    }
}

/// The hexadecimal digit for `n`.
fn hex_digit(n: u8) -> (c: char)
    requires
        n < 16,
    ensures
        c == hex_upper(n as nat),
{
    match n {
        0 => '0',
        1 => '1',
        2 => '2',
        3 => '3',
        4 => '4',
        5 => '5',
        6 => '6',
        7 => '7',
        8 => '8',
        9 => '9',
        10 => 'A',
        11 => 'B',
        12 => 'C',
        13 => 'D',
        14 => 'E',
        _ => 'F',
    }
}

/// Query-string encoding of `value`'s UTF-8 bytes: ASCII letters, digits
/// and `-_.~` are kept, a space becomes `+`, and every other byte becomes
/// `%` followed by two upper-case hexadecimal digits.
pub fn urlencode(value: &str) -> (encoded: String)
    ensures
        encoded@ == form_encoded(value.spec_bytes()),
{
    let bytes = value.as_bytes();
    let mut out = String::new();
    let mut i: usize = 0;
    while i < bytes.len()
        invariant
            i <= bytes.len(),
            bytes@ == value.spec_bytes(),
            out@ == form_encoded(bytes@.take(i as int)),
        decreases bytes.len() - i,
    {
        let b = bytes[i];
        if (65 <= b && b <= 90) || (97 <= b && b <= 122) || (48 <= b && b <= 57) || b == 45 || b
            == 95 || b == 46 || b == 126 {
            push_char(&mut out, b as char);
        } else if b == 32 {
            push_char(&mut out, '+');
        } else {
            push_char(&mut out, '%');
            push_char(&mut out, hex_digit(b / 16));
            push_char(&mut out, hex_digit(b % 16));
        }
        assert(bytes@.take(i + 1).drop_last() =~= bytes@.take(i as int));
        assert(out@ =~= form_encoded(bytes@.take(i as int)) + encode_byte(b));
        i = i + 1;
    }
    assert(bytes@.take(bytes.len() as int) =~= bytes@);
    out
}

/// Encoding a byte in front of a string puts its characters in front.
proof fn lemma_encoded_cons(b: u8, rest: Seq<u8>)
    ensures
        form_encoded(seq![b] + rest) == encode_byte(b) + form_encoded(rest),
    decreases rest.len(),
{
    if rest.len() == 0 {
        let single = seq![b] + rest;
        assert(single.drop_last() =~= Seq::<u8>::empty());
        assert(single.last() == b);
        assert(form_encoded(single.drop_last()) == Seq::<char>::empty());
        assert(form_encoded(single) =~= encode_byte(b));
    } else {
        let front = rest.drop_last();
        lemma_encoded_cons(b, front);
        assert((seq![b] + rest).drop_last() =~= seq![b] + front);
        assert((seq![b] + rest).last() == rest.last());
        assert(form_encoded(seq![b] + rest) =~= encode_byte(b) + form_encoded(front) + encode_byte(
            rest.last(),
        ));
    }
}

/// The hexadecimal digit of `n` reads back as `n`.
proof fn lemma_hex_round_trip(n: nat)
    requires
        n < 16,
    ensures
        hex_value(hex_upper(n)) == Some(n),
{
}

/// Reading back one encoded byte in front of more text gives the byte in
/// front of what the rest reads back as.
proof fn lemma_decode_byte(b: u8, rest: Seq<char>)
    ensures
        form_decoded(encode_byte(b) + rest) == seq![b] + form_decoded(rest),
{
    let s = encode_byte(b) + rest;
    if unreserved(b) {
        let c = b as char;
        assert(s[0] == c);
        assert(s.drop_first() =~= rest);
        assert(vstd::utf8::is_ascii_chars(seq![c]));
        vstd::utf8::is_ascii_chars_encode_utf8(seq![c]);
        assert(vstd::utf8::encode_utf8(seq![c]) =~= seq![b]);
    } else if b == 32 {
        assert(s.drop_first() =~= rest);
    } else {
        lemma_hex_round_trip((b / 16) as nat);
        lemma_hex_round_trip((b % 16) as nat);
        assert(s.subrange(3, s.len() as int) =~= rest);
        assert(s[1] == hex_upper((b / 16) as nat));
        assert(s[2] == hex_upper((b % 16) as nat));
        assert((16 * ((b / 16) as nat) + (b % 16) as nat) as u8 == b);
    }
}

/// Reading the encoding back gives the same bytes: a search pushed into
/// the address bar comes back unchanged when the page is reloaded.
pub proof fn lemma_form_round_trip(bytes: Seq<u8>)
    ensures
        form_decoded(form_encoded(bytes)) == bytes,
    decreases bytes.len(),
{
    if bytes.len() > 0 {
        let rest = bytes.drop_first();
        assert(bytes =~= seq![bytes[0]] + rest);
        lemma_encoded_cons(bytes[0], rest);
        lemma_decode_byte(bytes[0], form_encoded(rest));
        lemma_form_round_trip(rest);
    }
}

/// The text of a search survives its encoding: decoding the encoded UTF-8
/// bytes of `value` as UTF-8 gives `value` back.
pub proof fn lemma_urlencode_round_trip(value: &str)
    ensures
        vstd::utf8::decode_utf8(form_decoded(form_encoded(value.spec_bytes()))) == value@,
{
    lemma_form_round_trip(value.spec_bytes());
}

} // verus!
