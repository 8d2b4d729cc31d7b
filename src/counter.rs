//! The counting API handler: a shared request counter and the text it answers
//! with.

use vstd::prelude::*;
use std::sync::atomic::{AtomicUsize, Ordering};
use crate::reply::{ascii_bytes, ascii_of};

verus! {

/// The digits of `n` in base ten, as ASCII bytes.
pub open spec fn decimal(n: nat) -> Seq<u8>
    decreases n,
{
    if n < 10 {
        seq![(48 + n) as u8]
    } else {
        decimal(n / 10).push((48 + n % 10) as u8)
    }
}

/// The body of the API's answer for the `count`-th request.
pub open spec fn api_text(count: nat) -> Seq<u8> {
    ascii_of("api: "@) + decimal(count)
}

/// The digits of `n` in base ten.
pub fn decimal_digits(n: usize) -> (r: Vec<u8>)
    ensures
        r@ == decimal(n as nat),
{
    let mut out: Vec<u8> = Vec::new();
    let mut m: usize = n;
    while m >= 10
        invariant
            decimal(n as nat) == decimal(m as nat) + out@,
        decreases m,
    {
        let d: u8 = (m % 10) as u8;
        let ghost prev = out@;
        out.insert(0, 48 + d);
        proof {
            assert(decimal(m as nat) == decimal((m / 10) as nat).push((48 + m % 10) as u8));
            assert(out@ =~= seq![(48 + m % 10) as u8] + prev);
            assert(decimal((m / 10) as nat).push((48 + m % 10) as u8) + prev =~= decimal(
                (m / 10) as nat,
            ) + out@);
        }
        m = m / 10;
    }
    out.insert(0, 48 + m as u8);
    assert(decimal(m as nat) =~= seq![(48 + m) as u8]);
    assert(decimal(n as nat) =~= out@);
    out
}

/// The body of the API's answer for the `count`-th request: `api: ` and the
/// count in decimal.
pub fn api_body(count: usize) -> (r: Vec<u8>)
    ensures
        r@ == api_text(count as nat),
{
    proof {
        reveal_strlit("api: ");
    }
    let mut out = ascii_bytes("api: ");
    let mut digits = decimal_digits(count);
    out.append(&mut digits);
    out
}

/// State shared by every request to the API: how many it has served.
pub struct ApiState {
    api_requests: AtomicUsize,
}

impl ApiState {
    /// A counter that has seen no request.
    pub fn new() -> Self {
        ApiState { api_requests: AtomicUsize::new(0) }
    }

    /// Counts one request and returns its number: the counter's value just
    /// after this request was added to it. Concurrent callers each get a
    /// distinct number, since the increment and the read are one atomic step.
    pub fn record_request(&self) -> (r: usize) {
        let before = self.api_requests.fetch_add(1, Ordering::SeqCst);
        before.wrapping_add(1)
    }
}

} // verus!
