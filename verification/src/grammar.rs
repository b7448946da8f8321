//! The octet-level grammar of HTTP methods, header names and header values.

use vstd::prelude::*;

verus! {

/// The octets of a text: its UTF-8 encoding, which is what goes over the wire.
pub open spec fn octets(text: Seq<char>) -> Seq<u8> {
    vstd::utf8::encode_utf8(text)
}

/// The longest header name, in octets.
pub const MAX_NAME_LEN: usize = 65535;

/// `tchar` of the HTTP grammar: a letter, a digit, or one of
/// ``! # $ % & ' * + - . ^ _ ` | ~``.
pub open spec fn is_token_byte(b: u8) -> bool {
    ||| 0x61 <= b <= 0x7a
    ||| 0x41 <= b <= 0x5a
    ||| 0x30 <= b <= 0x39
    ||| b == 0x21
    ||| 0x23 <= b <= 0x27
    ||| b == 0x2a
    ||| b == 0x2b
    ||| b == 0x2d
    ||| b == 0x2e
    ||| 0x5e <= b <= 0x60
    ||| b == 0x7c
    ||| b == 0x7e
}

/// A token: one or more `tchar` octets. A method is a token, case kept.
pub open spec fn is_token(bytes: Seq<u8>) -> bool {
    &&& bytes.len() > 0
    &&& forall|i: int| 0 <= i < bytes.len() ==> is_token_byte(#[trigger] bytes[i])
}

/// A header name: a token of at most `MAX_NAME_LEN` octets.
pub open spec fn is_field_name(bytes: Seq<u8>) -> bool {
    &&& is_token(bytes)
    &&& bytes.len() <= MAX_NAME_LEN
}

/// An upper-case ASCII letter becomes its lower-case form; any other octet stays.
pub open spec fn lower_byte(b: u8) -> u8 {
    if 0x41 <= b <= 0x5a {
        (b + 0x20) as u8
    } else {
        b
    }
}

/// The canonical spelling of a header name: every letter in lower case.
pub open spec fn lowercase(bytes: Seq<u8>) -> Seq<u8> {
    Seq::new(bytes.len(), |i: int| lower_byte(bytes[i]))
}

/// An octet that may stand in a header value: a tab, or anything from the
/// space upwards but DEL.
pub open spec fn is_field_byte(b: u8) -> bool {
    b == 0x09 || (b >= 0x20 && b != 0x7f)
}

/// A header value: any number of permitted octets.
pub open spec fn is_field_value(bytes: Seq<u8>) -> bool {
    forall|i: int| 0 <= i < bytes.len() ==> is_field_byte(#[trigger] bytes[i])
}

/// An octet of a header value that can be shown as text: a tab or printable
/// ASCII.
pub open spec fn is_visible_byte(b: u8) -> bool {
    b == 0x09 || (0x20 <= b < 0x7f)
}

/// A header value that can be shown as text in full.
pub open spec fn is_visible_text(bytes: Seq<u8>) -> bool {
    forall|i: int| 0 <= i < bytes.len() ==> is_visible_byte(#[trigger] bytes[i])
}

} // verus!
