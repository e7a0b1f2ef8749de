//! What the answer to the range probe says: whether the server serves byte
//! ranges of the download, and how long the download is.

use vstd::prelude::*;

use crate::decimal::{
    all_digits, ascii_bytes, decimal, lemma_decimal_bytes, lemma_parse_reads_back_decimal,
    parse_u64, parse_u64_spec,
};

verus! {

/// An HTTP status code counts as success when it lies in 200..=299.
pub open spec fn status_is_success_spec(code: u16) -> bool {
    200 <= code && code < 300
}

/// Whether an HTTP status code is a success (200 to 299).
pub fn status_is_success(code: u16) -> (ok: bool)
    ensures
        ok == status_is_success_spec(code),
        ok <==> 200 <= code && code <= 299,
{
    proof {
        lemma_success_is_2xx(code);
    }
    200 <= code && code < 300
}

/// A header byte that may stand in a header read as text: visible ASCII or a tab.
pub open spec fn is_visible_ascii(b: u8) -> bool {
    (32 <= b && b < 127) || b == 9
}

/// A header value read as text: its bytes when all of them are visible
/// ASCII, nothing otherwise.
pub open spec fn header_text(value: Seq<u8>) -> Option<Seq<u8>> {
    if forall|i: int| 0 <= i < value.len() ==> is_visible_ascii(#[trigger] value[i]) {
        Some(value)
    } else {
        None
    }
}

/// The bytes of the word `bytes`, the range unit that `Accept-Ranges` names.
pub open spec fn bytes_unit() -> Seq<u8> {
    seq![98u8, 121u8, 116u8, 101u8, 115u8]
}

/// Whether the `Accept-Ranges` header (if any) announces byte ranges.
pub open spec fn accepts_byte_ranges(accept_ranges: Option<Seq<u8>>) -> bool {
    match accept_ranges {
        Some(v) => header_text(v) == Some(bytes_unit()),
        None => false,
    }
}

/// The download length that the `Content-Length` header (if any) gives.
pub open spec fn announced_length(content_length: Option<Seq<u8>>) -> Option<u64> {
    match content_length {
        Some(v) => match header_text(v) {
            Some(t) => parse_u64_spec(t),
            None => None,
        },
        None => None,
    }
}

/// Why a range probe gives no answer.
#[derive(Debug, Clone, Copy, PartialEq, Eq)]
pub enum RangeCheckError {
    /// The server answered with a status outside 200..=299.
    RequestFail,
    /// The answer has no `Content-Length` that reads as a `u64`.
    GetLengthFail,
}

impl RangeCheckError {
    /// The message that goes with the error.
    pub fn message(&self) -> (m: &'static str)
        ensures
            *self == RangeCheckError::RequestFail ==> m@ == "request fail"@,
            *self == RangeCheckError::GetLengthFail ==> m@ == "get length fail"@,
    {
        match self {
            RangeCheckError::RequestFail => "request fail",
            RangeCheckError::GetLengthFail => "get length fail",
        }
    }
}

/// Reads a header value as text: `Some` of its bytes when they are all
/// visible ASCII.
pub fn header_as_text(value: &[u8]) -> (r: Option<&[u8]>)
    ensures
        r matches Some(t) ==> Some(t@) == header_text(value@),
        r is None ==> header_text(value@) is None,
{
    let mut i: usize = 0;
    while i < value.len()
        invariant
            i <= value@.len(),
            forall|j: int| 0 <= j < i ==> is_visible_ascii(#[trigger] value@[j]),
        decreases value@.len() - i,
    {
        let b = value[i];
        if !((32u8 <= b && b < 127u8) || b == 9u8) {
            assert(!is_visible_ascii(value@[i as int]));
            return None;
        }
        i = i + 1;
    }
    Some(value)
}

/// Whether an `Accept-Ranges` header value announces byte ranges.
pub fn accepts_ranges(accept_ranges: Option<&[u8]>) -> (r: bool)
    ensures
        r == accepts_byte_ranges(
            match accept_ranges {
                Some(v) => Some(v@),
                None => None,
            },
        ),
{
    match accept_ranges {
        None => false,
        Some(v) => match header_as_text(v) {
            None => false,
            Some(t) => {
                let eq = t.len() == 5 && t[0] == 98u8 && t[1] == 121u8 && t[2] == 116u8
                    && t[3] == 101u8 && t[4] == 115u8;
                proof {
                    if eq {
                        assert(t@ == bytes_unit());
                    } else if t@ == bytes_unit() {
                        assert(t@[0] == 98u8);
                    }
                }
                eq
            },
        },
    }
}

/// The length that a `Content-Length` header value gives, if it reads as a `u64`.
pub fn content_length(value: Option<&[u8]>) -> (r: Option<u64>)
    ensures
        r == announced_length(
            match value {
                Some(v) => Some(v@),
                None => None,
            },
        ),
{
    match value {
        None => None,
        Some(v) => match header_as_text(v) {
            None => None,
            Some(t) => parse_u64(t),
        },
    }
}

/// What a range probe concludes from the answer to a `HEAD` request for the
/// download: its status code and its `Accept-Ranges` and `Content-Length`
/// headers. A failed status is an error; otherwise the answer is whether byte
/// ranges are served and the announced length, which must be there.
pub fn check_request_range(
    status: u16,
    accept_ranges: Option<&[u8]>,
    content_length_value: Option<&[u8]>,
) -> (r: Result<(bool, u64), RangeCheckError>)
    ensures
        !status_is_success_spec(status) ==> r == Err::<(bool, u64), RangeCheckError>(
            RangeCheckError::RequestFail,
        ),
        !(200 <= status && status <= 299) ==> r == Err::<(bool, u64), RangeCheckError>(
            RangeCheckError::RequestFail,
        ),
        r is Ok ==> 200 <= status && status <= 299,
        status_is_success_spec(status) ==> match announced_length(
            match content_length_value {
                Some(v) => Some(v@),
                None => None,
            },
        ) {
            Some(len) => r == Ok::<(bool, u64), RangeCheckError>(
                (
                    accepts_byte_ranges(
                        match accept_ranges {
                            Some(v) => Some(v@),
                            None => None,
                        },
                    ),
                    len,
                ),
            ),
            None => r == Err::<(bool, u64), RangeCheckError>(RangeCheckError::GetLengthFail),
        },
{
    proof {
        lemma_success_is_2xx(status);
    }
    if !status_is_success(status) {
        return Err(RangeCheckError::RequestFail);
    }
    let range = accepts_ranges(accept_ranges);
    match content_length(content_length_value) {
        Some(len) => Ok((range, len)),
        None => Err(RangeCheckError::GetLengthFail),
    }
}

/// A `Content-Length` header that holds the decimal text of a length is
/// read back as that length.
pub proof fn lemma_content_length_reads_decimal(n: u64)
    ensures
        announced_length(Some(ascii_bytes(decimal(n as nat)))) == Some(n),
{
    let b = ascii_bytes(decimal(n as nat));
    lemma_decimal_bytes(n as nat);
    lemma_parse_reads_back_decimal(n);
    assert forall|i: int| 0 <= i < b.len() implies is_visible_ascii(#[trigger] b[i]) by {
        assert(all_digits(b));
    }
}

/// A status counts as success exactly when it is a 2xx code: every code
/// from 300 on (redirections, client and server errors) and every code
/// below 200 is a failure.
pub proof fn lemma_success_is_2xx(code: u16)
    ensures
        status_is_success_spec(code) <==> 200 <= code && code <= 299,
        code >= 300 ==> !status_is_success_spec(code),
        code < 200 ==> !status_is_success_spec(code),
{
}

/// Byte ranges are announced exactly when the `Accept-Ranges` value is the
/// five bytes `bytes`, with nothing around them.
pub proof fn lemma_ranges_only_for_bytes_unit(v: Seq<u8>)
    ensures
        accepts_byte_ranges(Some(v)) <==> v == seq![98u8, 121u8, 116u8, 101u8, 115u8],
        !accepts_byte_ranges(None),
{
    if v == seq![98u8, 121u8, 116u8, 101u8, 115u8] {
        assert forall|i: int| 0 <= i < v.len() implies is_visible_ascii(#[trigger] v[i]) by {}
    }
}

} // verus!
