//! HTTP header values, as far as the rules of the service read and write them.

use axum::http::{HeaderMap, HeaderValue};
use vstd::prelude::*;
use vstd::utf8::{encode_utf8, encode_utf8_decode_utf8, is_ascii_chars, is_ascii_chars_encode_utf8};

verus! {

/// `axum::http::HeaderMap`, whose contents are spoken of through [`header_values`].
#[verifier::external_type_specification]
#[verifier::external_body]
#[verifier::reject_recursive_types(T)]
pub struct ExHeaderMap<T>(axum::http::HeaderMap<T>);

/// `axum::http::HeaderValue`, the values of a `HeaderMap`.
#[verifier::external_type_specification]
#[verifier::external_body]
pub struct ExHeaderValue(axum::http::HeaderValue);

/// The values of each header that is there, as bytes and in their order, by the header's name in
/// lower case.
pub uninterp spec fn header_values(headers: HeaderMap<HeaderValue>) -> Map<
    Seq<char>,
    Seq<Seq<u8>>,
>;

/// Whether so many headers are there that a map may have no room for another.
pub open spec fn crowded(headers: Map<Seq<char>, Seq<Seq<u8>>>) -> bool {
    headers.dom().len() * 5 >= 32768
}

/// A letter in lower case; any other ASCII character as it is.
pub open spec fn lower(c: char) -> char {
    if 'A' <= c <= 'Z' {
        (c as u32 + 32) as char
    } else {
        c
    }
}

/// A text with its ASCII letters in lower case.
pub open spec fn lower_case(text: Seq<char>) -> Seq<char> {
    text.map_values(|c: char| lower(c))
}

/// Whether a text is a header name of ASCII letters, digits and hyphens, at most 64 long.
pub open spec fn plain_header_name(name: Seq<char>) -> bool {
    &&& 0 < name.len() <= 64
    &&& forall|i: int|
        0 <= i < name.len() ==> {
            ||| 'a' <= #[trigger] name[i] <= 'z'
            ||| 'A' <= name[i] <= 'Z'
            ||| '0' <= name[i] <= '9'
            ||| name[i] == '-'
        }
}

/// Calls `axum::http::HeaderMap::get` and copies the bytes of the value found. Header names are
/// compared in lower case, and of several values the first is found.
#[verifier::external_body]
pub(crate) fn first_header(headers: &HeaderMap<HeaderValue>, name: &str) -> (value: Option<
    Vec<u8>,
>)
    requires
        plain_header_name(name@),
    ensures
        match value {
            Some(bytes) => {
                &&& header_values(*headers).contains_key(lower_case(name@))
                &&& header_values(*headers)[lower_case(name@)].len() > 0
                &&& bytes@ == header_values(*headers)[lower_case(name@)][0]
            },
            None => !header_values(*headers).contains_key(lower_case(name@)),
        },
{
    headers.get(name).map(|value| value.as_bytes().to_vec())
}

/// Calls `axum::http::HeaderMap::try_insert` with a value made by `HeaderValue::from_str`. The value
/// takes the place of all values that the header had, and no other header changes. If the map has
/// no room nothing changes, which only happens where it is [`crowded`]: it holds at most 32768
/// slots, and asks for more at the earliest when a fifth of them is taken.
#[verifier::external_body]
pub(crate) fn put_header(
    headers: &mut HeaderMap<HeaderValue>,
    name: &'static str,
    value: &str,
) -> (done: bool)
    requires
        plain_header_name(name@),
        valid_header_value(value@),
    ensures
        done ==> header_values(*final(headers)) == header_values(*old(headers)).insert(
            lower_case(name@),
            seq![encode_utf8(value@)],
        ),
        !done ==> header_values(*final(headers)) == header_values(*old(headers)) && crowded(
            header_values(*old(headers)),
        ),
{
    headers.try_insert(name, HeaderValue::from_str(value).unwrap()).is_ok()
}

/// Whether a byte is visible ASCII, a space or a tab.
pub open spec fn visible_ascii(byte: u8) -> bool {
    32 <= byte < 127 || byte == 9
}

/// The text of a header value, if all its bytes are visible ASCII.
pub open spec fn header_text(bytes: Seq<u8>) -> Option<Seq<char>> {
    if forall|i: int| 0 <= i < bytes.len() ==> visible_ascii(#[trigger] bytes[i]) {
        Some(Seq::new(bytes.len(), |i: int| bytes[i] as char))
    } else {
        None
    }
}

/// Whether the text of a header value is `text`.
pub fn header_text_is(bytes: &[u8], text: &str) -> (same: bool)
    ensures
        same == (header_text(bytes@) == Some(text@)),
{
    let mut index: usize = 0;
    while index < bytes.len()
        invariant
            index <= bytes@.len(),
            forall|i: int| 0 <= i < index ==> visible_ascii(#[trigger] bytes@[i]),
        decreases bytes.len() - index,
    {
        let byte = bytes[index];
        if !((32 <= byte && byte < 127) || byte == 9) {
            return false;
        }
        index += 1;
    }
    let ghost chars = Seq::new(bytes@.len(), |i: int| bytes@[i] as char);
    proof {
        assert(is_ascii_chars(chars));
        is_ascii_chars_encode_utf8(chars);
        assert(encode_utf8(chars) =~= bytes@);
        encode_utf8_decode_utf8(chars);
        encode_utf8_decode_utf8(text@);
        assert(header_text(bytes@) == Some(chars));
    }
    let other = text.as_bytes();
    if bytes.len() != other.len() {
        return false;
    }
    let mut index: usize = 0;
    while index < bytes.len()
        invariant
            index <= bytes@.len(),
            bytes@.len() == other@.len(),
            other@ == encode_utf8(text@),
            encode_utf8(chars) == bytes@,
            header_text(bytes@) == Some(chars),
            forall|i: int| 0 <= i < index ==> bytes@[i] == #[trigger] other@[i],
        ensures
            index == bytes@.len(),
        decreases bytes.len() - index,
    {
        if bytes[index] != other[index] {
            assert(bytes@ != other@);
            return false;
        }
        index += 1;
    }
    assert(bytes@ =~= other@);
    true
}

/// Whether a text may stand as a header value: it holds no control character but tabs.
pub open spec fn valid_header_value(text: Seq<char>) -> bool {
    forall|i: int|
        0 <= i < encode_utf8(text).len() ==> {
            let byte = #[trigger] encode_utf8(text)[i];
            (byte >= 32 && byte != 127) || byte == 9
        }
}

/// Decides [`valid_header_value`].
pub fn is_header_value(text: &str) -> (valid: bool)
    ensures
        valid == valid_header_value(text@),
{
    let bytes = text.as_bytes();
    let mut index: usize = 0;
    while index < bytes.len()
        invariant
            index <= bytes@.len(),
            bytes@ == encode_utf8(text@),
            forall|i: int|
                0 <= i < index ==> {
                    let byte = #[trigger] encode_utf8(text@)[i];
                    (byte >= 32 && byte != 127) || byte == 9
                },
        decreases bytes.len() - index,
    {
        let byte = bytes[index];
        if !((byte >= 32 && byte != 127) || byte == 9) {
            assert(encode_utf8(text@)[index as int] == byte);
            return false;
        }
        index += 1;
    }
    true
}

pub proof fn lemma_header_text(bytes: Seq<u8>, text: Seq<char>)
    ensures
        header_text(bytes) == Some(text) <==> bytes == encode_utf8(text) && forall|i: int|
            0 <= i < bytes.len() ==> 32 <= #[trigger] bytes[i] <= 126 || bytes[i] == 9,
{
    if forall|i: int| 0 <= i < bytes.len() ==> 32 <= #[trigger] bytes[i] <= 126 || bytes[i] == 9 {
        let chars = Seq::new(bytes.len(), |i: int| bytes[i] as char);
        assert(is_ascii_chars(chars));
        is_ascii_chars_encode_utf8(chars);
        assert(encode_utf8(chars) =~= bytes);
        encode_utf8_decode_utf8(chars);
        encode_utf8_decode_utf8(text);
        assert(forall|i: int| 0 <= i < bytes.len() ==> visible_ascii(#[trigger] bytes[i]));
        assert(header_text(bytes) == Some(chars));
    } else {
        let i = choose|i: int|
            0 <= i < bytes.len() && !(32 <= #[trigger] bytes[i] <= 126 || bytes[i] == 9);
        assert(!visible_ascii(bytes[i]));
    }
}

/// The value of a header is a given text exactly if it is visible ASCII, spaces and tabs, and is
/// the text byte for byte.
pub proof fn law_header_text_is_byte_for_byte(bytes: &[u8], text: &str, same: bool)
    requires
        call_ensures(header_text_is, (bytes, text), same),
    ensures
        same <==> bytes@ == encode_utf8(text@) && forall|i: int|
            0 <= i < bytes@.len() ==> 32 <= #[trigger] bytes@[i] <= 126 || bytes@[i] == 9,
{
    lemma_header_text(bytes@, text@);
}

/// A text may stand in a header exactly if none of its bytes is a control character other than a
/// tab.
pub proof fn law_header_value_has_no_control_bytes(text: &str, valid: bool)
    requires
        call_ensures(is_header_value, (text,), valid),
    ensures
        !valid <==> exists|i: int|
            {
                &&& 0 <= i < encode_utf8(text@).len()
                &&& (#[trigger] encode_utf8(text@)[i] <= 31 || encode_utf8(text@)[i] == 127)
                &&& encode_utf8(text@)[i] != 9
            },
{
    let bytes = encode_utf8(text@);
    if !valid {
        let i = choose|i: int|
            0 <= i < bytes.len() && !({
                let byte = #[trigger] bytes[i];
                (byte >= 32 && byte != 127) || byte == 9
            });
        assert(bytes[i] <= 31 || bytes[i] == 127);
    }
}

} // verus!
