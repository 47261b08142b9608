//! The range responder: status code, header values and body bytes for a
//! resolved range against a file of known content.

use crate::num::{dec_of, u64_to_string};
use crate::range::{opt_view, outcome_of, resolve_range, valid_outcome, RangeOutcome};
use vstd::prelude::*;
use vstd::slice::{slice_subrange, slice_to_vec};
use vstd::string::StringExecFns;

verus! {

/// The body a resolved range selects from the file's content.
pub open spec fn body_of(data: Seq<u8>, o: RangeOutcome) -> Seq<u8> {
    match o {
        RangeOutcome::Full => data,
        RangeOutcome::Partial { start, end } => data.subrange(start as int, end as int + 1),
        RangeOutcome::Unsatisfiable => Seq::<u8>::empty(),
    }
}

/// The `Content-Range` value of a partial response:
/// `bytes <start>-<end>/<total>`.
pub open spec fn content_range_value(start: nat, end: nat, total: nat) -> Seq<char> {
    "bytes "@ + dec_of(start) + "-"@ + dec_of(end) + "/"@ + dec_of(total)
}

/// The `Content-Range` value of an unsatisfiable response:
/// `bytes */<total>`.
pub open spec fn unsatisfiable_range_value(total: nat) -> Seq<char> {
    "bytes */"@ + dec_of(total)
}

/// The `Content-Range` header a resolved range carries: present for
/// partial and unsatisfiable responses only.
pub open spec fn content_range_of(o: RangeOutcome, len: u64) -> Option<Seq<char>> {
    match o {
        RangeOutcome::Full => None,
        RangeOutcome::Partial { start, end } => Some(
            content_range_value(start as nat, end as nat, len as nat),
        ),
        RangeOutcome::Unsatisfiable => Some(unsatisfiable_range_value(len as nat)),
    }
}

/// The status code of a resolved range: 200 full, 206 partial, 416
/// unsatisfiable.
pub open spec fn status_of(o: RangeOutcome) -> u16 {
    match o {
        RangeOutcome::Full => 200,
        RangeOutcome::Partial { .. } => 206,
        RangeOutcome::Unsatisfiable => 416,
    }
}

/// The byte count a resolved range declares in `Content-Length`.
pub open spec fn content_length_of(o: RangeOutcome, len: u64) -> u64 {
    match o {
        RangeOutcome::Full => len,
        RangeOutcome::Partial { start, end } => ((end - start) + 1) as u64,
        RangeOutcome::Unsatisfiable => 0,
    }
}

/// Status, `Content-Length` and optional `Content-Range` of a response,
/// without its body.
pub struct ResponseMeta {
    pub status: u16,
    pub content_length: u64,
    pub content_range: Option<String>,
}

/// A complete response to a range request: status, the headers that
/// vary, and the body bytes.
pub struct RangeReply {
    pub status: u16,
    pub content_length: u64,
    pub content_range: Option<String>,
    pub body: Vec<u8>,
}

/// The constant `Accept-Ranges` header value.
pub fn accept_ranges_value() -> (s: &'static str)
    ensures
        s@ == "bytes"@,
{
    "bytes"
}

/// The constant `Content-Type` header value: the stream is served as a
/// PDF, not negotiated.
pub fn content_type_value() -> (s: &'static str)
    ensures
        s@ == "application/pdf"@,
{
    "application/pdf"
}

/// The constant `Access-Control-Allow-Origin` header value: any origin
/// may fetch the stream.
pub fn allow_origin_value() -> (s: &'static str)
    ensures
        s@ == "*"@,
{
    "*"
}

/// Renders `bytes <start>-<end>/<total>`.
pub fn content_range_header(start: u64, end: u64, total: u64) -> (s: String)
    ensures
        s@ == content_range_value(start as nat, end as nat, total as nat),
{
    let mut s = String::from_str("bytes ");
    let start_str = u64_to_string(start);
    s.append(start_str.as_str());
    s.append("-");
    let end_str = u64_to_string(end);
    s.append(end_str.as_str());
    s.append("/");
    let total_str = u64_to_string(total);
    s.append(total_str.as_str());
    s
}

/// Renders `bytes */<total>`.
pub fn unsatisfiable_range_header(total: u64) -> (s: String)
    ensures
        s@ == unsatisfiable_range_value(total as nat),
{
    let mut s = String::from_str("bytes */");
    let total_str = u64_to_string(total);
    s.append(total_str.as_str());
    s
}

/// Builds the status and header values for a resolved range against a
/// file of length `len`.
pub fn response_meta(o: RangeOutcome, len: u64) -> (m: ResponseMeta)
    requires
        valid_outcome(o, len),
    ensures
        m.status == status_of(o),
        m.content_length == content_length_of(o, len),
        match (m.content_range, content_range_of(o, len)) {
            (Some(s), Some(v)) => s@ == v,
            (None, None) => true,
            _ => false,
        },
{
    match o {
        RangeOutcome::Full => ResponseMeta { status: 200, content_length: len, content_range: None },
        RangeOutcome::Partial { start, end } => ResponseMeta {
            status: 206,
            content_length: (end - start) + 1,
            content_range: Some(content_range_header(start, end, len)),
        },
        RangeOutcome::Unsatisfiable => ResponseMeta {
            status: 416,
            content_length: 0,
            content_range: Some(unsatisfiable_range_header(len)),
        },
    }
}

/// Serves a range request against in-memory file content: resolves the
/// optional `Range` header against the content's length and returns the
/// response the file server sends for it.
pub fn respond_from_bytes(data: &[u8], header: Option<&str>) -> (r: RangeReply)
    ensures
        ({
            let o = outcome_of(opt_view(header), data@.len() as u64);
            &&& r.status == status_of(o)
            &&& r.body@ == body_of(data@, o)
            &&& r.content_length == r.body@.len()
            &&& match (r.content_range, content_range_of(o, data@.len() as u64)) {
                (Some(s), Some(v)) => s@ == v,
                (None, None) => true,
                _ => false,
            }
        }),
{
    let len_usize = data.len();
    let len: u64 = len_usize as u64;
    let o = resolve_range(header, len);
    match o {
        RangeOutcome::Full => {
            let body = slice_to_vec(data);
            RangeReply { status: 200, content_length: len, content_range: None, body }
        },
        RangeOutcome::Partial { start, end } => {
            proof {
                assert(valid_outcome(o, len));
            }
            let start_usize = start as usize;
            let end_usize = end as usize;
            let body = slice_to_vec(slice_subrange(data, start_usize, end_usize + 1));
            RangeReply {
                status: 206,
                content_length: (end - start) + 1,
                content_range: Some(content_range_header(start, end, len)),
                body,
            }
        },
        RangeOutcome::Unsatisfiable => {
            RangeReply {
                status: 416,
                content_length: 0,
                content_range: Some(unsatisfiable_range_header(len)),
                body: Vec::new(),
            }
        },
    }
}

} // verus!
