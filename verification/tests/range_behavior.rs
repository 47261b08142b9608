use rangeserve::num::{parse_u64, u64_to_string};
use rangeserve::range::{resolve_range, RangeOutcome};
use rangeserve::response::{
    accept_ranges_value, allow_origin_value, content_range_header, content_type_value,
    respond_from_bytes, response_meta, unsatisfiable_range_header,
};

const DATA: &[u8] = b"0123456789";

#[test]
fn full_request_serves_whole_file() {
    let r = respond_from_bytes(DATA, None);
    assert_eq!(r.status, 200);
    assert_eq!(r.content_length, 10);
    assert_eq!(r.body, DATA.to_vec());
    assert!(r.content_range.is_none());
}

#[test]
fn scenario_two_to_five() {
    let r = respond_from_bytes(DATA, Some("bytes=2-5"));
    assert_eq!(r.status, 206);
    assert_eq!(r.body, b"2345".to_vec());
    assert_eq!(r.content_length, 4);
    assert_eq!(r.content_range.as_deref(), Some("bytes 2-5/10"));
}

#[test]
fn scenario_end_clamped() {
    let r = respond_from_bytes(DATA, Some("bytes=8-20"));
    assert_eq!(r.status, 206);
    assert_eq!(r.body, b"89".to_vec());
    assert_eq!(r.content_length, 2);
    assert_eq!(r.content_range.as_deref(), Some("bytes 8-9/10"));
}

#[test]
fn scenario_unsatisfiable() {
    let r = respond_from_bytes(DATA, Some("bytes=15-20"));
    assert_eq!(r.status, 416);
    assert!(r.body.is_empty());
    assert_eq!(r.content_length, 0);
    assert_eq!(r.content_range.as_deref(), Some("bytes */10"));
}

#[test]
fn start_at_length_is_unsatisfiable() {
    let r = respond_from_bytes(DATA, Some("bytes=10-10"));
    assert_eq!(r.status, 416);
    assert_eq!(r.content_range.as_deref(), Some("bytes */10"));
}

#[test]
fn exact_full_range_is_partial_status() {
    let r = respond_from_bytes(DATA, Some("bytes=0-9"));
    assert_eq!(r.status, 206);
    assert_eq!(r.body, DATA.to_vec());
    assert_eq!(r.content_range.as_deref(), Some("bytes 0-9/10"));
}

#[test]
fn single_byte_range() {
    let r = respond_from_bytes(DATA, Some("bytes=3-3"));
    assert_eq!(r.status, 206);
    assert_eq!(r.body, b"3".to_vec());
    assert_eq!(r.content_range.as_deref(), Some("bytes 3-3/10"));
}

#[test]
fn malformed_order_clamps_to_last_byte() {
    let r = respond_from_bytes(DATA, Some("bytes=5-2"));
    assert_eq!(r.status, 206);
    assert_eq!(r.body, b"56789".to_vec());
    assert_eq!(r.content_range.as_deref(), Some("bytes 5-9/10"));
}

#[test]
fn malformed_headers_serve_whole_file() {
    for h in [
        "",
        "bytes=",
        "bytes=5",
        "bytes=5-",
        "bytes=-5",
        "bytes=a-5",
        "bytes=5-b",
        "bytes=1-2-3",
        "bites=1-2",
        "bytes 1-2",
        "bytes=+1-2",
        "bytes=18446744073709551616-2",
    ] {
        let r = respond_from_bytes(DATA, Some(h));
        assert_eq!(r.status, 200, "header {h:?}");
        assert_eq!(r.body, DATA.to_vec(), "header {h:?}");
        assert!(r.content_range.is_none(), "header {h:?}");
    }
}

#[test]
fn largest_start_is_unsatisfiable() {
    let r = respond_from_bytes(
        DATA,
        Some("bytes=18446744073709551615-18446744073709551615"),
    );
    assert_eq!(r.status, 416);
    assert_eq!(r.content_range.as_deref(), Some("bytes */10"));
}

#[test]
fn empty_file_is_always_unsatisfiable() {
    let empty: &[u8] = b"";
    let none = respond_from_bytes(empty, None);
    assert_eq!(none.status, 416);
    assert_eq!(none.content_range.as_deref(), Some("bytes */0"));
    assert!(none.body.is_empty());
    let ranged = respond_from_bytes(empty, Some("bytes=0-0"));
    assert_eq!(ranged.status, 416);
}

#[test]
fn split_round_trip_reconstructs_file() {
    for k in 1..10u64 {
        let first = respond_from_bytes(DATA, Some(&format!("bytes=0-{}", k - 1)));
        let second = respond_from_bytes(DATA, Some(&format!("bytes={}-9", k)));
        assert_eq!(first.status, 206);
        assert_eq!(second.status, 206);
        let mut joined = first.body.clone();
        joined.extend_from_slice(&second.body);
        assert_eq!(joined, DATA.to_vec(), "split at {k}");
    }
}

#[test]
fn resolve_range_outcomes() {
    assert_eq!(resolve_range(None, 10), RangeOutcome::Full);
    assert_eq!(
        resolve_range(Some("bytes=2-5"), 10),
        RangeOutcome::Partial { start: 2, end: 5 }
    );
    assert_eq!(
        resolve_range(Some("bytes=8-20"), 10),
        RangeOutcome::Partial { start: 8, end: 9 }
    );
    assert_eq!(
        resolve_range(Some("bytes=15-20"), 10),
        RangeOutcome::Unsatisfiable
    );
    assert_eq!(resolve_range(None, 0), RangeOutcome::Unsatisfiable);
}

#[test]
fn response_meta_values() {
    let partial = response_meta(RangeOutcome::Partial { start: 2, end: 5 }, 10);
    assert_eq!(partial.status, 206);
    assert_eq!(partial.content_length, 4);
    assert_eq!(partial.content_range.as_deref(), Some("bytes 2-5/10"));

    let full = response_meta(RangeOutcome::Full, 5);
    assert_eq!(full.status, 200);
    assert_eq!(full.content_length, 5);
    assert!(full.content_range.is_none());

    let unsat = response_meta(RangeOutcome::Unsatisfiable, 7);
    assert_eq!(unsat.status, 416);
    assert_eq!(unsat.content_length, 0);
    assert_eq!(unsat.content_range.as_deref(), Some("bytes */7"));
}

#[test]
fn fixed_header_values() {
    assert_eq!(accept_ranges_value(), "bytes");
    assert_eq!(content_type_value(), "application/pdf");
    assert_eq!(allow_origin_value(), "*");
}

#[test]
fn header_rendering() {
    assert_eq!(content_range_header(0, 0, 1), "bytes 0-0/1");
    assert_eq!(
        content_range_header(12, 345, 6789),
        "bytes 12-345/6789"
    );
    assert_eq!(unsatisfiable_range_header(0), "bytes */0");
    assert_eq!(unsatisfiable_range_header(12345), "bytes */12345");
}

#[test]
fn decimal_rendering() {
    assert_eq!(u64_to_string(0), "0");
    assert_eq!(u64_to_string(7), "7");
    assert_eq!(u64_to_string(10), "10");
    assert_eq!(u64_to_string(1234567890), "1234567890");
    assert_eq!(u64_to_string(u64::MAX), "18446744073709551615");
}

#[test]
fn decimal_parsing() {
    assert_eq!(parse_u64("0"), Some(0));
    assert_eq!(parse_u64("007"), Some(7));
    assert_eq!(parse_u64("1234567890"), Some(1234567890));
    assert_eq!(parse_u64("18446744073709551615"), Some(u64::MAX));
    assert_eq!(parse_u64("18446744073709551616"), None);
    assert_eq!(parse_u64(""), None);
    assert_eq!(parse_u64("1a"), None);
    assert_eq!(parse_u64("+5"), None);
    assert_eq!(parse_u64("-5"), None);
    assert_eq!(parse_u64(" 5"), None);
}
