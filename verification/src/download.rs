//! The first request of a download and the value of the `Range` header of
//! the ranged requests that follow it.

use vstd::prelude::*;

verus! {

/// The decimal digits of `n`, most significant first, as ASCII bytes.
pub open spec fn decimal(n: nat) -> Seq<u8>
    decreases n,
{
    if n < 10 {
        seq![(48 + n) as u8]
    } else {
        decimal(n / 10).push((48 + n % 10) as u8)
    }
}

/// The value of a `Range` header that asks for bytes `start..=end`:
/// `bytes=<start>-<end>`.
pub open spec fn range_value(start: u64, end: u64) -> Seq<u8> {
    seq![98u8, 121u8, 116u8, 101u8, 115u8, 61u8] + decimal(start as nat) + seq![45u8] + decimal(
        end as nat,
    )
}

/// Appends the decimal digits of `n` to `out`.
fn push_decimal(out: &mut Vec<u8>, n: u64)
    ensures
        final(out)@ == old(out)@ + decimal(n as nat),
    decreases n,
{
    if n >= 10 {
        push_decimal(out, n / 10);
    }
    let digit: u8 = (n % 10) as u8;
    out.push(48 + digit);
    proof {
        if n < 10 {
            assert(decimal(n as nat) =~= seq![(48 + n) as u8]);
        }
    }
}

/// The value of the `Range` header of a request for bytes `start..=end`.
pub fn range_header_value(start: u64, end: u64) -> (v: Vec<u8>)
    ensures
        v@ == range_value(start, end),
{
    let mut v: Vec<u8> = Vec::new();
    v.push(98u8);
    v.push(121u8);
    v.push(116u8);
    v.push(101u8);
    v.push(115u8);
    v.push(61u8);
    push_decimal(&mut v, start);
    v.push(45u8);
    push_decimal(&mut v, end);
    proof {
        assert(v@ =~= range_value(start, end));
    }
    v
}

/// The decimal form of a number is a non-empty run of ASCII digits, a single
/// digit exactly for numbers below ten.
pub proof fn lemma_decimal_digits(n: nat)
    ensures
        decimal(n).len() >= 1,
        decimal(n).len() == 1 <==> n < 10,
        forall|i: int| 0 <= i < decimal(n).len() ==> 48 <= #[trigger] decimal(n)[i] <= 57,
    decreases n,
{
    if n >= 10 {
        lemma_decimal_digits(n / 10);
        assert forall|i: int| 0 <= i < decimal(n).len() implies 48 <= #[trigger] decimal(n)[i]
            <= 57 by {
            if i < decimal(n / 10).len() {
                assert(decimal(n)[i] == decimal(n / 10)[i]);
            }
        }
    }
}

/// Different numbers have different decimal forms.
pub proof fn lemma_decimal_injective(a: nat, b: nat)
    requires
        decimal(a) == decimal(b),
    ensures
        a == b,
    decreases a,
{
    lemma_decimal_digits(a);
    lemma_decimal_digits(b);
    if a >= 10 {
        assert(b >= 10);
        assert(decimal(a / 10) =~= decimal(a).drop_last());
        assert(decimal(b / 10) =~= decimal(b).drop_last());
        lemma_decimal_injective(a / 10, b / 10);
        // the last digits agree, and so do the numbers
        assert(decimal(a).last() == decimal(b).last());
        assert(decimal(a).last() == (48 + a % 10) as u8);
        assert(decimal(b).last() == (48 + b % 10) as u8);
        assert((48 + a % 10) as u8 == 48 + a % 10);
        assert((48 + b % 10) as u8 == 48 + b % 10);
        assert(a == 10 * (a / 10) + a % 10);
        assert(b == 10 * (b / 10) + b % 10);
    } else {
        assert(b < 10);
        // a single digit each
        assert(decimal(a)[0] == (48 + a) as u8);
        assert(decimal(b)[0] == (48 + b) as u8);
        assert((48 + a) as u8 == 48 + a);
        assert((48 + b) as u8 == 48 + b);
    }
}

/// The number that a run of ASCII decimal digits reads as, most significant
/// digit first.
pub open spec fn digits_value(digits: Seq<u8>) -> int
    decreases digits.len(),
{
    if digits.len() == 0 {
        0
    } else {
        10 * digits_value(digits.drop_last()) + (digits.last() - 48)
    }
}

/// The decimal form of a number reads back as that number.
pub proof fn lemma_decimal_value(n: nat)
    ensures
        digits_value(decimal(n)) == n,
    decreases n,
{
    lemma_decimal_digits(n);
    assert(digits_value(decimal(n)) == 10 * digits_value(decimal(n).drop_last()) + (decimal(
        n,
    ).last() - 48));
    if n >= 10 {
        lemma_decimal_value(n / 10);
        assert(decimal(n).drop_last() =~= decimal(n / 10));
        assert(decimal(n).last() == (48 + n % 10) as u8);
        assert((48 + n % 10) as u8 == 48 + n % 10);
        assert(n == 10 * (n / 10) + n % 10);
    } else {
        assert(decimal(n).drop_last() =~= Seq::<u8>::empty());
        assert(digits_value(Seq::<u8>::empty()) == 0);
        assert(decimal(n).last() == (48 + n) as u8);
        assert((48 + n) as u8 == 48 + n);
    }
}

/// A `Range` header value asks for exactly `start..=end`, in that order: it
/// is `bytes=`, then a run of digits that reads as `start`, then `-`, then a
/// run of digits that reads as `end`, and nothing else.
pub proof fn lemma_range_value_reads_back(start: u64, end: u64)
    ensures
        ({
            let v = range_value(start, end);
            let n = decimal(start as nat).len() as int;
            &&& v.take(6) == seq![98u8, 121u8, 116u8, 101u8, 115u8, 61u8]
            &&& 1 <= n && 7 + n <= v.len()
            &&& v[6 + n] == 45u8
            &&& forall|i: int| 6 <= i < 6 + n ==> 48 <= #[trigger] v[i] <= 57
            &&& forall|i: int| 7 + n <= i < v.len() ==> 48 <= #[trigger] v[i] <= 57
            &&& digits_value(v.subrange(6, 6 + n)) == start
            &&& digits_value(v.skip(7 + n)) == end
        }),
{
    let v = range_value(start, end);
    let ds = decimal(start as nat);
    let de = decimal(end as nat);
    let n = ds.len() as int;
    lemma_decimal_digits(start as nat);
    lemma_decimal_digits(end as nat);
    lemma_decimal_value(start as nat);
    lemma_decimal_value(end as nat);
    assert(v.take(6) =~= seq![98u8, 121u8, 116u8, 101u8, 115u8, 61u8]);
    assert(v.subrange(6, 6 + n) =~= ds);
    assert(v.skip(7 + n) =~= de);
    assert forall|i: int| 6 <= i < 6 + n implies 48 <= #[trigger] v[i] <= 57 by {
        assert(v[i] == ds[i - 6]);
    }
    assert forall|i: int| 7 + n <= i < v.len() implies 48 <= #[trigger] v[i] <= 57 by {
        assert(v[i] == de[i - 7 - n]);
    }
}

/// A `Range` header value names its range unambiguously: two ranges with
/// the same header value are the same range.
pub proof fn lemma_range_value_injective(start1: u64, end1: u64, start2: u64, end2: u64)
    requires
        range_value(start1, end1) == range_value(start2, end2),
    ensures
        start1 == start2,
        end1 == end2,
{
    let x1 = decimal(start1 as nat);
    let y1 = decimal(end1 as nat);
    let x2 = decimal(start2 as nat);
    let y2 = decimal(end2 as nat);
    lemma_decimal_digits(start1 as nat);
    lemma_decimal_digits(start2 as nat);
    let r1 = x1 + seq![45u8] + y1;
    let r2 = x2 + seq![45u8] + y2;
    assert(r1 =~= range_value(start1, end1).skip(6));
    assert(r2 =~= range_value(start2, end2).skip(6));
    if x1.len() < x2.len() {
        assert(r1[x1.len() as int] == 45u8);
        assert(r2[x1.len() as int] == x2[x1.len() as int]);
        assert(false);
    }
    if x2.len() < x1.len() {
        assert(r2[x2.len() as int] == 45u8);
        assert(r1[x2.len() as int] == x1[x2.len() as int]);
        assert(false);
    }
    assert(x1 =~= r1.take(x1.len() as int));
    assert(x2 =~= r2.take(x2.len() as int));
    assert(y1 =~= r1.skip(x1.len() as int + 1));
    assert(y2 =~= r2.skip(x2.len() as int + 1));
    lemma_decimal_injective(start1 as nat, start2 as nat);
    lemma_decimal_injective(end1 as nat, end2 as nat);
}

/// Whether an HTTP status code is in the success class `200..=299`, as
/// `reqwest::StatusCode::is_success` decides it (`(200..300).contains(code)`).
fn status_is_success(code: u16) -> (ok: bool)
    requires
        100 <= code <= 999,
    ensures
        ok == (200 <= code && code < 300),
{
    200 <= code && code < 300
}

/// Whether an HTTP status code is in the client-error class `400..=499`, as
/// `reqwest::StatusCode::is_client_error` decides it (`(400..500).contains(code)`).
fn status_is_client_error(code: u16) -> (e: bool)
    requires
        100 <= code <= 999,
    ensures
        e == (400 <= code && code < 500),
{
    400 <= code && code < 500
}

/// Whether an HTTP status code is in the server-error class `500..=599`, as
/// `reqwest::StatusCode::is_server_error` decides it (`(500..600).contains(code)`).
fn status_is_server_error(code: u16) -> (e: bool)
    requires
        100 <= code <= 999,
    ensures
        e == (500 <= code && code < 600),
{
    500 <= code && code < 600
}

/// The status code that answers a ranged request with only the range asked
/// for: 206 Partial Content.
pub const PARTIAL_CONTENT: u16 = 206;

/// Whether a response with this status is an error response, a client error
/// (`400..=499`) or a server error (`500..=599`), for which
/// `reqwest::Response::error_for_status` gives an error.
pub fn status_is_error(code: u16) -> (e: bool)
    requires
        100 <= code <= 999,
    ensures
        e == (400 <= code && code < 600),
{
    status_is_client_error(code) || status_is_server_error(code)
}

/// How a URL can be downloaded, with the response to the first request.
pub enum UrlKind<R> {
    /// The server serves byte ranges: the download can resume and be split.
    RangeAble(R),
    /// The server does not serve byte ranges.
    UnRangeAble(R),
}

impl<R> UrlKind<R> {
    /// The response to the first request, whatever the kind.
    pub open spec fn spec_response(&self) -> R {
        match self {
            UrlKind::RangeAble(r) => *r,
            UrlKind::UnRangeAble(r) => *r,
        }
    }
}

impl<R> std::ops::Deref for UrlKind<R> {
    type Target = R;

    /// The response to the first request.
    fn deref(&self) -> (r: &R)
        ensures
            *r == self.spec_response(),
    {
        match self {
            UrlKind::RangeAble(builder) => builder,
            UrlKind::UnRangeAble(builder) => builder,
        }
    }
}

/// Why the first response leaves the URL unclassified; the response is
/// handed back.
pub enum FirstResponseRejection<R> {
    /// A client or server error status.
    ErrorStatus(R),
    /// An informational or redirection status: no content at all.
    NoPartialResponse(R),
}

/// How the response to the first request, which asked for the range
/// `bytes=0-`, classifies the URL, by its status.
pub open spec fn spec_first_response_kind<R>(status: u16, response: R) -> Result<
    UrlKind<R>,
    FirstResponseRejection<R>,
> {
    if status == PARTIAL_CONTENT {
        Ok(UrlKind::RangeAble(response))
    } else if 200 <= status < 300 {
        Ok(UrlKind::UnRangeAble(response))
    } else if 400 <= status < 600 {
        Err(FirstResponseRejection::ErrorStatus(response))
    } else {
        Err(FirstResponseRejection::NoPartialResponse(response))
    }
}

/// Classifies the response to the first request, which asked for the range
/// `bytes=0-`: 206 Partial Content means the server serves ranges; any other
/// success means it ignored the range and sent the whole file; an error
/// status and any other status are handed back as rejections.
pub fn first_response_kind<R>(status: u16, response: R) -> (k: Result<
    UrlKind<R>,
    FirstResponseRejection<R>,
>)
    requires
        100 <= status <= 999,
    ensures
        k == spec_first_response_kind(status, response),
{
    if status == PARTIAL_CONTENT {
        Ok(UrlKind::RangeAble(response))
    } else if status_is_success(status) {
        Ok(UrlKind::UnRangeAble(response))
    } else if status_is_error(status) {
        Err(FirstResponseRejection::ErrorStatus(response))
    } else {
        Err(FirstResponseRejection::NoPartialResponse(response))
    }
}

/// Classifying the first response never loses it; a URL is range-able
/// exactly when the server answered with 206 Partial Content, classified at
/// all exactly on a success status, and rejected for an error status exactly
/// on a client or server error.
pub proof fn lemma_first_response_kept<R>(status: u16, response: R)
    requires
        100 <= status <= 999,
    ensures
        match spec_first_response_kind(status, response) {
            Ok(k) => k.spec_response() == response,
            Err(FirstResponseRejection::ErrorStatus(r)) => r == response,
            Err(FirstResponseRejection::NoPartialResponse(r)) => r == response,
        },
        (spec_first_response_kind(status, response) matches Ok(UrlKind::RangeAble(_))) <==> status
            == PARTIAL_CONTENT,
        spec_first_response_kind(status, response) is Ok <==> 200 <= status < 300,
        (spec_first_response_kind(status, response) matches Err(
            FirstResponseRejection::ErrorStatus(_),
        )) <==> 400 <= status < 600,
{
}

} // verus!
