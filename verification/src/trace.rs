//! How a request is identified and labelled while it is served.

use crate::headers::{
    crowded, header_text, header_values, is_header_value, lower_case, put_header,
    valid_header_value, visible_ascii,
};
use axum::http::{HeaderMap, HeaderValue};
use vstd::prelude::*;
use vstd::utf8::{encode_utf8, is_ascii_chars, is_ascii_chars_encode_utf8};

verus! {

/// Whether `c` is a hexadecimal digit in lower case.
pub open spec fn lower_hex(c: char) -> bool {
    '0' <= c <= '9' || 'a' <= c <= 'f'
}

/// Whether a text is a random UUID in hyphenated lower-case form.
pub open spec fn random_uuid(text: Seq<char>) -> bool {
    &&& text.len() == 36
    &&& forall|i: int|
        0 <= i < 36 ==> if i == 8 || i == 13 || i == 18 || i == 23 {
            #[trigger] text[i] == '-'
        } else {
            lower_hex(text[i])
        }
    &&& text[14] == '4'
    &&& (text[19] == '8' || text[19] == '9' || text[19] == 'a' || text[19] == 'b')
}

/// Calls `uuid::Uuid::new_v4` and writes the UUID as text. Which UUID comes is random; its form is
/// not. Where the operating system gives no random bytes the call panics, which nothing that the
/// caller holds can rule out.
#[verifier::external_body]
fn new_request_id() -> (id: String)
    ensures
        random_uuid(id@),
{
    uuid::Uuid::new_v4().to_string()
}

proof fn lemma_uuid_is_header_value(text: Seq<char>)
    requires
        random_uuid(text),
    ensures
        valid_header_value(text),
{
    assert(forall|i: int| 0 <= i < text.len() ==> ' ' <= #[trigger] text[i] <= '~');
    assert(is_ascii_chars(text));
    is_ascii_chars_encode_utf8(text);
    assert forall|i: int| 0 <= i < encode_utf8(text).len() implies ({
        let byte = #[trigger] encode_utf8(text)[i];
        (byte >= 32 && byte != 127) || byte == 9
    }) by {
        assert(encode_utf8(text)[i] == text[i] as u8);
    }
}

/// What is recorded of a request.
pub struct RequestTrace {
    pub request_id: String,
    pub method: String,
    pub route: String,
}

/// The headers of a response once it carries the id of its request. An id that may not stand in a
/// header is left out.
pub open spec fn marked_headers(
    headers: Map<Seq<char>, Seq<Seq<u8>>>,
    request_id: Seq<char>,
) -> Map<Seq<char>, Seq<Seq<u8>>> {
    if valid_header_value(request_id) {
        headers.insert("x-request-id"@, seq![encode_utf8(request_id)])
    } else {
        headers
    }
}

impl RequestTrace {
    /// Starts the record of a request with a fresh id.
    pub fn new(method: String, matched_path: Option<String>, uri_path: String) -> (trace: Self)
        ensures
            random_uuid(trace.request_id@),
            valid_header_value(trace.request_id@),
            trace.method == method,
            trace.route == (match matched_path {
                Some(path) => path,
                None => uri_path,
            }),
    {
        let request_id = new_request_id();
        proof {
            lemma_uuid_is_header_value(request_id@);
        }
        RequestTrace::with_id(request_id, method, matched_path, uri_path)
    }

    /// Starts the record of a request with the given id, and with the route that the request
    /// matched, or the path that it asked for if it matched none.
    pub fn with_id(
        request_id: String,
        method: String,
        matched_path: Option<String>,
        uri_path: String,
    ) -> (trace: Self)
        ensures
            trace.request_id == request_id,
            trace.method == method,
            trace.route == (match matched_path {
                Some(path) => path,
                None => uri_path,
            }),
    {
        let route = match matched_path {
            Some(path) => path,
            None => uri_path,
        };
        RequestTrace { request_id, method, route }
    }

    /// Writes the id of the request into the headers of its response, as `x-request-id`. Gives
    /// whether the headers are too many to take it, in which case they stay as they are.
    pub fn mark_response(&self, headers: &mut HeaderMap<HeaderValue>) -> (full: bool)
        ensures
            header_values(*final(headers)) == (if full {
                header_values(*old(headers))
            } else {
                marked_headers(header_values(*old(headers)), self.request_id@)
            }),
            full ==> valid_header_value(self.request_id@) && crowded(header_values(*old(headers))),
    {
        if !is_header_value(self.request_id.as_str()) {
            return false;
        }
        proof {
            reveal_strlit("x-request-id");
            assert(lower_case("x-request-id"@) =~= "x-request-id"@);
        }
        !put_header(headers, "x-request-id", self.request_id.as_str())
    }
}

/// Every response carries the id of its request, readable and as its only `x-request-id`, and
/// keeps its other headers.
pub proof fn law_request_id_is_present(
    headers: Map<Seq<char>, Seq<Seq<u8>>>,
    request_id: Seq<char>,
    name: Seq<char>,
)
    requires
        random_uuid(request_id),
    ensures
        ({
            let marked = marked_headers(headers, request_id);
            &&& marked.contains_key("x-request-id"@)
            &&& marked["x-request-id"@].len() == 1
            &&& header_text(marked["x-request-id"@][0]) == Some(request_id)
            &&& name != "x-request-id"@ ==> {
                &&& marked.contains_key(name) == headers.contains_key(name)
                &&& headers.contains_key(name) ==> marked[name] == headers[name]
            }
        }),
{
    lemma_uuid_is_header_value(request_id);
    let bytes = encode_utf8(request_id);
    assert(forall|i: int|
        0 <= i < request_id.len() ==> ' ' <= #[trigger] request_id[i] <= '~');
    assert(is_ascii_chars(request_id));
    is_ascii_chars_encode_utf8(request_id);
    assert forall|i: int| 0 <= i < bytes.len() implies visible_ascii(#[trigger] bytes[i]) by {
        assert(bytes[i] == request_id[i] as u8);
    }
    assert(Seq::new(bytes.len(), |i: int| bytes[i] as char) =~= request_id);
}

/// The record of a request keeps what it is given: its id, its method, and the route that it
/// matched, or else the path that it asked for.
pub proof fn law_trace_keeps_what_it_is_given(
    request_id: String,
    method: String,
    matched_path: Option<String>,
    uri_path: String,
    trace: RequestTrace,
)
    requires
        call_ensures(
            RequestTrace::with_id,
            (request_id, method, matched_path, uri_path),
            trace,
        ),
    ensures
        trace.request_id@ == request_id@,
        trace.method@ == method@,
        matched_path matches Some(path) ==> trace.route@ == path@,
        matched_path is None ==> trace.route@ == uri_path@,
{
}

/// A fresh record keeps the method and the route, and its id is a random UUID in lower-case
/// hexadecimal digits, with hyphens behind the eighth, twelfth, sixteenth and twentieth.
pub proof fn law_fresh_trace_has_a_uuid(
    method: String,
    matched_path: Option<String>,
    uri_path: String,
    trace: RequestTrace,
)
    requires
        call_ensures(RequestTrace::new, (method, matched_path, uri_path), trace),
    ensures
        trace.method@ == method@,
        matched_path matches Some(path) ==> trace.route@ == path@,
        matched_path is None ==> trace.route@ == uri_path@,
        trace.request_id@.len() == 36,
        forall|i: int|
            0 <= i < 36 ==> (#[trigger] trace.request_id@[i] == '-' <==> i == 8 || i == 13 || i
                == 18 || i == 23),
        forall|i: int|
            0 <= i < 36 ==> (#[trigger] trace.request_id@[i] == '-' || '0' <= trace.request_id@[i]
                <= '9' || 'a' <= trace.request_id@[i] <= 'f'),
        trace.request_id@[14] == '4',
        seq!['8', '9', 'a', 'b'].contains(trace.request_id@[19]),
{
    let variants = seq!['8', '9', 'a', 'b'];
    assert(variants[0] == '8' && variants[1] == '9' && variants[2] == 'a' && variants[3] == 'b');
}

/// Marking a response writes the id of the request, byte for byte, as its only `x-request-id` and
/// touches no other header. An id with a control character leaves the response as it is, and so do
/// headers that take no more, of which there are thousands.
pub proof fn law_response_is_marked_with_the_id(
    trace: &RequestTrace,
    headers: &mut HeaderMap<HeaderValue>,
    full: bool,
    name: Seq<char>,
)
    requires
        call_ensures(RequestTrace::mark_response, (trace, headers), full),
    ensures
        ({
            let before = header_values(*old(headers));
            let after = header_values(*final(headers));
            let bytes = encode_utf8(trace.request_id@);
            let clean = forall|i: int|
                0 <= i < bytes.len() ==> (#[trigger] bytes[i] >= 32 && bytes[i] != 127) || bytes[i]
                    == 9;
            &&& !clean || full ==> after == before
            &&& clean && !full ==> {
                &&& after.contains_key("x-request-id"@)
                &&& after["x-request-id"@] == seq![bytes]
                &&& name != "x-request-id"@ ==> after.contains_key(name) == before.contains_key(
                    name,
                )
                &&& name != "x-request-id"@ && before.contains_key(name) ==> after[name]
                    == before[name]
            }
            &&& full ==> clean && before.dom().len() > 6000
        }),
{
    let bytes = encode_utf8(trace.request_id@);
    if valid_header_value(trace.request_id@) {
        assert forall|i: int| 0 <= i < bytes.len() implies (#[trigger] bytes[i] >= 32 && bytes[i]
            != 127) || bytes[i] == 9 by {}
    }
}

} // verus!
