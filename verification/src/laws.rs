//! The laws of the subsystem, stated and proved over the same spec
//! functions the executable contracts use: how a canonical two-sided
//! header resolves, that two adjacent ranges reconstruct the file, and
//! that tokens are isolated from one another in the registry.

use crate::num::{dec_of, dec_val, is_digit, lemma_dec_of_digits};
use crate::range::{
    outcome_of, parsed_range, range_header_of, two_sided_at, RangeOutcome,
};
use crate::response::{body_of, content_length_of, content_range_of, status_of};
use vstd::prelude::*;

verus! {

/// The canonical header `bytes=<start>-<end>` parses back to exactly
/// `(start, end)`.
pub proof fn lemma_header_parses(start: u64, end: u64)
    ensures
        parsed_range(range_header_of(start as nat, end as nat)) == Some((start, end)),
{
    reveal_strlit("bytes=");
    reveal_strlit("-");
    lemma_dec_of_digits(start as nat);
    lemma_dec_of_digits(end as nat);
    let p = "bytes="@;
    let d = "-"@;
    let ls = dec_of(start as nat);
    let le = dec_of(end as nat);
    let h = range_header_of(start as nat, end as nat);
    assert(h == p + ls + d + le);
    let i = 6 + ls.len() as int;
    assert(h.len() == 7 + ls.len() + le.len());
    assert forall|j: int| 0 <= j < 6 implies h[j] == p[j] by {
        assert(((p + ls) + d)[j] == (p + ls)[j]);
        assert((p + ls)[j] == p[j]);
    }
    assert forall|j: int| 6 <= j < i implies h[j] == ls[j - 6] by {
        assert(((p + ls) + d)[j] == (p + ls)[j]);
        assert((p + ls)[j] == ls[j - 6]);
    }
    assert(h[i] == '-') by {
        assert(((p + ls) + d)[i] == d[i - (p + ls).len() as int]);
    }
    assert forall|j: int| i < j < h.len() implies h[j] == le[j - i - 1] by {
        assert(h[j] == le[j - ((p + ls) + d).len() as int]);
    }
    assert(h.subrange(0, 6) =~= p);
    assert(h.subrange(6, i) =~= ls);
    assert(h.subrange(i + 1, h.len() as int) =~= le);
    assert forall|j: int| 6 <= j < h.len() && j != i implies h[j] != '-' by {
        if j < i {
            assert(is_digit(ls[j - 6]));
        } else {
            assert(is_digit(le[j - i - 1]));
        }
    }
    assert(two_sided_at(h, i));
    let chosen = choose|m: int| two_sided_at(h, m);
    assert(h[chosen] == '-');
    assert(chosen == i);
    assert(dec_val(h.subrange(6, i)) == start as nat);
    assert(dec_val(h.subrange(i + 1, h.len() as int)) == end as nat);
}

/// How the canonical header `bytes=<start>-<end>` resolves against a
/// file of length `len`: exact when in bounds; unsatisfiable when the
/// start is at or past the end of the file; clamped to the last byte
/// when the end is out of order or past the file.
pub proof fn lemma_two_sided_resolution(start: u64, end: u64, len: u64)
    ensures
        start < len && start <= end && end < len ==> outcome_of(
            Some(range_header_of(start as nat, end as nat)),
            len,
        ) == (RangeOutcome::Partial { start, end }),
        start >= len ==> outcome_of(Some(range_header_of(start as nat, end as nat)), len)
            == RangeOutcome::Unsatisfiable,
        start < len && end < start ==> outcome_of(
            Some(range_header_of(start as nat, end as nat)),
            len,
        ) == (RangeOutcome::Partial { start, end: (len - 1) as u64 }),
        start < len && end >= len ==> outcome_of(
            Some(range_header_of(start as nat, end as nat)),
            len,
        ) == (RangeOutcome::Partial { start, end: (len - 1) as u64 }),
{
    lemma_header_parses(start, end);
}

/// A request with no `Range` header against a non-empty file serves the
/// whole file: status 200, the full content as body, its length
/// declared, and no `Content-Range` header.
pub proof fn lemma_full_request(data: Seq<u8>)
    requires
        0 < data.len() <= u64::MAX,
    ensures
        outcome_of(None, data.len() as u64) == RangeOutcome::Full,
        status_of(RangeOutcome::Full) == 200,
        body_of(data, RangeOutcome::Full) == data,
        content_length_of(RangeOutcome::Full, data.len() as u64) == data.len(),
        content_range_of(RangeOutcome::Full, data.len() as u64) is None,
{
}

/// Concatenating the bodies of a `0..=k-1` request and a `k..=len-1`
/// request reconstructs the file content byte for byte, for any valid
/// split point `k`.
pub proof fn lemma_split_round_trip(data: Seq<u8>, k: u64)
    requires
        1 <= k < data.len() <= u64::MAX,
    ensures
        ({
            let len = data.len() as u64;
            let first = outcome_of(Some(range_header_of(0, (k - 1) as nat)), len);
            let second = outcome_of(Some(range_header_of(k as nat, (len - 1) as nat)), len);
            &&& first == RangeOutcome::Partial { start: 0, end: (k - 1) as u64 }
            &&& second == RangeOutcome::Partial { start: k, end: (len - 1) as u64 }
            &&& body_of(data, first) + body_of(data, second) == data
        }),
{
    let len = data.len() as u64;
    lemma_two_sided_resolution(0, (k - 1) as u64, len);
    lemma_two_sided_resolution(k, (len - 1) as u64, len);
    assert(data.subrange(0, k as int) + data.subrange(k as int, data.len() as int) =~= data);
}

/// Token isolation: registering a path under one token neither adds nor
/// changes what any other token resolves to; a token never registered
/// stays unresolved whatever else is registered.
pub proof fn lemma_token_isolation(
    registry_view: Map<Seq<char>, Seq<char>>,
    token: Seq<char>,
    path: Seq<char>,
    other: Seq<char>,
)
    requires
        token != other,
    ensures
        registry_view.insert(token, path).contains_key(other) == registry_view.contains_key(other),
        registry_view.contains_key(other) ==> registry_view.insert(token, path)[other]
            == registry_view[other],
{
}

} // verus!
