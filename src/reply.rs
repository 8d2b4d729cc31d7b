//! The replies that the router gives itself, without a handler.

use vstd::prelude::*;

verus! {

/// The bytes of an ASCII text.
pub open spec fn ascii_of(s: Seq<char>) -> Seq<u8> {
    s.map_values(|c: char| c as u8)
}

/// The bytes of `s`, which must be ASCII.
pub fn ascii_bytes(s: &str) -> (r: Vec<u8>)
    requires
        vstd::string::is_ascii(s),
    ensures
        r@ == ascii_of(s@),
{
    proof {
        vstd::string::is_ascii_spec_bytes(s);
    }
    let b = s.as_bytes();
    let mut out: Vec<u8> = Vec::new();
    let mut i: usize = 0;
    while i < b.len()
        invariant
            i <= b@.len(),
            b@ == Seq::new(s@.len(), |j: int| s@[j] as u8),
            out@ =~= ascii_of(s@.take(i as int)),
        decreases b@.len() - i,
    {
        out.push(b[i]);
        i += 1;
        assert(out@ =~= ascii_of(s@.take(i as int)));
    }
    assert(s@.take(i as int) =~= s@);
    out
}

/// A reply that the router gives without a handler.
#[derive(Clone, Copy, Debug, PartialEq, Eq, Structural)]
pub enum Rejection {
    /// The `Host` header is missing or is not text.
    BadRequest,
    /// No handler is registered for the hostname.
    NotFound,
    /// The handler failed.
    Internal,
}

impl Rejection {
    pub open spec fn status_spec(self) -> u16 {
        match self {
            Rejection::BadRequest => 400,
            Rejection::NotFound => 404,
            Rejection::Internal => 500,
        }
    }

    /// The plain-text body of the reply.
    pub open spec fn text(self) -> Seq<char> {
        match self {
            Rejection::BadRequest => "Bad Request"@,
            Rejection::NotFound => "Not Found"@,
            Rejection::Internal => "Internal Server Error"@,
        }
    }

    /// The HTTP status code of the reply.
    pub fn status(&self) -> (r: u16)
        ensures
            r == self.status_spec(),
    {
        match self {
            Rejection::BadRequest => 400,
            Rejection::NotFound => 404,
            Rejection::Internal => 500,
        }
    }

    /// The body of the reply.
    pub fn body(&self) -> (r: Vec<u8>)
        ensures
            r@ == ascii_of(self.text()),
    {
        match self {
            Rejection::BadRequest => {
                proof {
                    reveal_strlit("Bad Request");
                }
                ascii_bytes("Bad Request")
            },
            Rejection::NotFound => {
                proof {
                    reveal_strlit("Not Found");
                }
                ascii_bytes("Not Found")
            },
            Rejection::Internal => {
                proof {
                    reveal_strlit("Internal Server Error");
                }
                ascii_bytes("Internal Server Error")
            },
        }
    }
}

} // verus!
