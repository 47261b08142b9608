//! Parsing of a single-range `Range` header (`bytes=<start>-<end>`) and
//! its resolution against a file length: clamping, full-file fallback,
//! and the unsatisfiable case.

use crate::num::{dec_of, dec_val, is_u64_decimal, parse_u64};
use vstd::prelude::*;
use vstd::string::StrSliceExecFns;

verus! {

/// How a request's optional `Range` header resolves against a file of a
/// known length.
#[derive(Clone, Copy, Debug, PartialEq, Eq, Structural)]
pub enum RangeOutcome {
    /// No usable range was requested: serve the whole file, status 200.
    Full,
    /// A satisfiable range, clamped to the file: serve
    /// `start..=end`, status 206.
    Partial { start: u64, end: u64 },
    /// The requested start lies at or past the end of the file:
    /// status 416, empty body.
    Unsatisfiable,
}

/// `h` is a well-formed two-sided range header whose single `-`
/// separator stands at index `i`: `bytes=` followed by one decimal
/// number, the dash, and a second decimal number.
pub open spec fn two_sided_at(h: Seq<char>, i: int) -> bool {
    &&& h.len() > 6
    &&& h.subrange(0, 6) == "bytes="@
    &&& 6 <= i < h.len()
    &&& h[i] == '-'
    &&& forall|j: int| 6 <= j < h.len() && j != i ==> h[j] != '-'
    &&& is_u64_decimal(h.subrange(6, i))
    &&& is_u64_decimal(h.subrange(i + 1, h.len() as int))
}

/// The `(start, end)` pair a well-formed two-sided header carries, or
/// nothing for any other header value.
pub open spec fn parsed_range(h: Seq<char>) -> Option<(u64, u64)> {
    if exists|i: int| two_sided_at(h, i) {
        let i = choose|i: int| two_sided_at(h, i);
        Some(
            (
                dec_val(h.subrange(6, i)) as u64,
                dec_val(h.subrange(i + 1, h.len() as int)) as u64,
            ),
        )
    } else {
        None
    }
}

/// The canonical two-sided header asking for `start..=end`:
/// `bytes=<start>-<end>`.
pub open spec fn range_header_of(start: nat, end: nat) -> Seq<char> {
    "bytes="@ + dec_of(start) + "-"@ + dec_of(end)
}

/// The view of an optional header value.
pub open spec fn opt_view(h: Option<&str>) -> Option<Seq<char>> {
    match h {
        None => None,
        Some(s) => Some(s@),
    }
}

/// The resolution of an optional `Range` header against a file of
/// length `len`: an absent or malformed header means the whole file; a
/// parsed pair is clamped (an end before the start, or past the file,
/// becomes the last byte); a start at or past the end of the file, as
/// well as any request against an empty file, is unsatisfiable.
pub open spec fn outcome_of(header: Option<Seq<char>>, len: u64) -> RangeOutcome {
    let parsed = match header {
        None => None,
        Some(h) => parsed_range(h),
    };
    match parsed {
        None => if len == 0 {
            RangeOutcome::Unsatisfiable
        } else {
            RangeOutcome::Full
        },
        Some((s, e)) => if s >= len {
            RangeOutcome::Unsatisfiable
        } else if e < s || e >= len {
            RangeOutcome::Partial { start: s, end: (len - 1) as u64 }
        } else {
            RangeOutcome::Partial { start: s, end: e }
        },
    }
}

/// In every outcome against a file of length `len`, a partial range is
/// within bounds and a full file is non-empty.
pub open spec fn valid_outcome(o: RangeOutcome, len: u64) -> bool {
    match o {
        RangeOutcome::Full => len > 0,
        RangeOutcome::Partial { start, end } => start <= end && end < len,
        RangeOutcome::Unsatisfiable => true,
    }
}

/// Whatever the header, the resolved outcome is valid for the length it
/// was resolved against.
pub proof fn lemma_outcome_valid(header: Option<Seq<char>>, len: u64)
    ensures
        valid_outcome(outcome_of(header, len), len),
{
}

/// Parses a `Range` header value of the two-sided form
/// `bytes=<start>-<end>`; every other value is rejected.
pub fn parse_range_header(h: &str) -> (r: Option<(u64, u64)>)
    ensures
        r == parsed_range(h@),
{
    proof {
        reveal_strlit("bytes=");
    }
    let n = h.unicode_len();
    if n < 9 {
        proof {
            assert forall|i: int| !two_sided_at(h@, i) by {
                if two_sided_at(h@, i) {
                    assert(h@.subrange(6, i).len() > 0);
                    assert(h@.subrange(i + 1, n as int).len() > 0);
                }
            }
        }
        return None;
    }
    let mut k: usize = 0;
    while k < 6
        invariant
            0 <= k <= 6,
            n == h@.len(),
            n >= 9,
            forall|j: int| 0 <= j < k ==> h@[j] == "bytes="@[j],
        decreases 6 - k,
    {
        let c = h.get_char(k);
        let expected = match k {
            0 => 'b',
            1 => 'y',
            2 => 't',
            3 => 'e',
            4 => 's',
            _ => '=',
        };
        if c != expected {
            proof {
                reveal_strlit("bytes=");
                assert(h@[k as int] != "bytes="@[k as int]);
                assert forall|i: int| !two_sided_at(h@, i) by {
                    if two_sided_at(h@, i) {
                        assert(h@.subrange(0, 6)[k as int] == h@[k as int]);
                    }
                }
            }
            return None;
        }
        proof {
            reveal_strlit("bytes=");
            assert(expected == "bytes="@[k as int]);
        }
        k += 1;
    }
    proof {
        assert(h@.subrange(0, 6) =~= "bytes="@);
    }
    let mut i: usize = 6;
    let mut dash: usize = 0;
    let mut seen_dash: bool = false;
    while i < n
        invariant
            6 <= i <= n,
            n == h@.len(),
            n >= 9,
            h@.subrange(0, 6) == "bytes="@,
            !seen_dash ==> forall|j: int| 6 <= j < i ==> h@[j] != '-',
            seen_dash ==> {
                &&& 6 <= dash < i
                &&& h@[dash as int] == '-'
                &&& forall|j: int| 6 <= j < i && j != dash ==> h@[j] != '-'
            },
        decreases n - i,
    {
        let c = h.get_char(i);
        if c == '-' {
            if seen_dash {
                proof {
                    assert forall|m: int| !two_sided_at(h@, m) by {
                        if two_sided_at(h@, m) {
                            assert(h@[dash as int] == '-');
                            assert(h@[i as int] == '-');
                        }
                    }
                }
                return None;
            }
            dash = i;
            seen_dash = true;
        }
        i += 1;
    }
    if !seen_dash {
        proof {
            assert forall|m: int| !two_sided_at(h@, m) by {
                if two_sided_at(h@, m) {
                    assert(h@[m] == '-');
                }
            }
        }
        return None;
    }
    let left = h.substring_char(6, dash);
    let right = h.substring_char(dash + 1, n);
    let left_val = parse_u64(left);
    let right_val = parse_u64(right);
    match (left_val, right_val) {
        (Some(a), Some(b)) => {
            proof {
                assert(two_sided_at(h@, dash as int));
                let chosen = choose|m: int| two_sided_at(h@, m);
                assert(h@[chosen] == '-');
                assert(chosen == dash as int);
            }
            Some((a, b))
        },
        _ => {
            proof {
                assert forall|m: int| !two_sided_at(h@, m) by {
                    if two_sided_at(h@, m) {
                        assert(h@[m] == '-');
                        assert(m == dash as int);
                    }
                }
            }
            None
        },
    }
}

/// Resolves an optional `Range` header against a file of length `len`.
pub fn resolve_range(header: Option<&str>, len: u64) -> (r: RangeOutcome)
    ensures
        r == outcome_of(opt_view(header), len),
{
    let parsed = match header {
        None => None,
        Some(h) => parse_range_header(h),
    };
    match parsed {
        None => if len == 0 {
            RangeOutcome::Unsatisfiable
        } else {
            RangeOutcome::Full
        },
        Some((s, e)) => if s >= len {
            RangeOutcome::Unsatisfiable
        } else if e < s || e >= len {
            RangeOutcome::Partial { start: s, end: len - 1 }
        } else {
            RangeOutcome::Partial { start: s, end: e }
        },
    }
}

} // verus!
