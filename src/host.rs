//! Hostnames: reading one from a `Host` header value, and the key under which a
//! registered name is stored.

use vstd::prelude::*;
use vstd::string::StringSliceAdditionalSpecFns;

verus! {

/// The byte `:` that starts an explicit port.
pub const COLON: u8 = 58;

/// A header byte that `http` accepts as text: visible ASCII, or a tab.
pub open spec fn is_visible_ascii(b: u8) -> bool {
    (32 <= b && b < 127) || b == 9
}

/// A header value that can be read as text.
pub open spec fn is_header_text(v: Seq<u8>) -> bool {
    forall|i: int| 0 <= i < v.len() ==> is_visible_ascii(#[trigger] v[i])
}

/// Where the port suffix starts: the first `:`, or the end.
pub open spec fn colon_index(v: Seq<u8>) -> nat
    decreases v.len(),
{
    if v.len() == 0 {
        0
    } else if v[0] == COLON {
        0
    } else {
        1 + colon_index(v.drop_first())
    }
}

/// ASCII upper-case letters become lower case; every other byte stays.
pub open spec fn lower_byte(b: u8) -> u8 {
    if 65 <= b && b <= 90 {
        (b + 32) as u8
    } else {
        b
    }
}

pub open spec fn lower_bytes(v: Seq<u8>) -> Seq<u8> {
    v.map_values(|b: u8| lower_byte(b))
}

/// The hostname named by a header value: everything before the first `:`,
/// in lower case.
pub open spec fn host_of(v: Seq<u8>) -> Seq<u8> {
    lower_bytes(v.take(colon_index(v) as int))
}

/// The hostname of a request whose `Host` header is `header`: none when the
/// header is missing or is not text.
pub open spec fn hostname_spec(header: Option<Seq<u8>>) -> Option<Seq<u8>> {
    match header {
        Some(v) => if is_header_text(v) {
            Some(host_of(v))
        } else {
            None
        },
        None => None,
    }
}

/// The first `:` of `v` is at `k`, the end where there is none.
pub proof fn lemma_colon_index(v: Seq<u8>, k: int)
    requires
        0 <= k <= v.len(),
        forall|j: int| 0 <= j < k ==> v[j] != COLON,
        k == v.len() || v[k] == COLON,
    ensures
        colon_index(v) == k,
    decreases k,
{
    if k > 0 {
        let rest = v.drop_first();
        assert forall|j: int| 0 <= j < k - 1 implies rest[j] != COLON by {
            assert(rest[j] == v[j + 1]);
        }
        if k < v.len() {
            assert(rest[k - 1] == v[k]);
        }
        lemma_colon_index(rest, k - 1);
    }
}

/// ASCII lower case of one byte.
pub fn lower(b: u8) -> (r: u8)
    ensures
        r == lower_byte(b),
{
    if 65 <= b && b <= 90 {
        b + 32
    } else {
        b
    }
}

/// Lower case of the bytes of `v` before index `end`.
fn lower_prefix(v: &[u8], end: usize) -> (r: Vec<u8>)
    requires
        end <= v@.len(),
    ensures
        r@ == lower_bytes(v@.take(end as int)),
{
    let mut out: Vec<u8> = Vec::new();
    let mut i: usize = 0;
    while i < end
        invariant
            i <= end <= v@.len(),
            out@ == lower_bytes(v@.take(i as int)),
        decreases end - i,
    {
        out.push(lower(v[i]));
        i += 1;
        assert(v@.take(i as int) =~= v@.take(i - 1).push(v@[i - 1]));
        assert(out@ =~= lower_bytes(v@.take(i as int)));
    }
    out
}

/// Whether every byte of a header value is text.
pub fn is_text(v: &[u8]) -> (r: bool)
    ensures
        r == is_header_text(v@),
{
    let mut i: usize = 0;
    while i < v.len()
        invariant
            i <= v@.len(),
            forall|j: int| 0 <= j < i ==> is_visible_ascii(#[trigger] v@[j]),
        decreases v@.len() - i,
    {
        let b = v[i];
        if !((32 <= b && b < 127) || b == 9) {
            return false;
        }
        i += 1;
    }
    true
}

/// The hostname named by a `Host` header value: the text before the first
/// `:`, in lower case; `None` where the value is not text.
pub fn hostname_of(value: &[u8]) -> (r: Option<Vec<u8>>)
    ensures
        match r {
            Some(h) => is_header_text(value@) && h@ == host_of(value@),
            None => !is_header_text(value@),
        },
{
    if !is_text(value) {
        return None;
    }
    let mut k: usize = 0;
    while k < value.len() && value[k] != COLON
        invariant
            k <= value@.len(),
            forall|j: int| 0 <= j < k ==> value@[j] != COLON,
        decreases value@.len() - k,
    {
        k += 1;
    }
    proof {
        lemma_colon_index(value@, k as int);
    }
    Some(lower_prefix(value, k))
}

/// The key under which a registered hostname is stored: its bytes in lower
/// case.
pub fn name_key(name: &str) -> (r: Vec<u8>)
    ensures
        r@ == lower_bytes(name.spec_bytes()),
{
    let bytes = name.as_bytes();
    let r = lower_prefix(bytes, bytes.len());
    assert(bytes@.take(bytes@.len() as int) =~= bytes@);
    r
}

/// Whether two byte strings are equal.
pub fn same_bytes(a: &[u8], b: &[u8]) -> (r: bool)
    ensures
        r == (a@ == b@),
{
    if a.len() != b.len() {
        return false;
    }
    let mut i: usize = 0;
    while i < a.len()
        invariant
            i <= a@.len(),
            a@.len() == b@.len(),
            forall|j: int| 0 <= j < i ==> a@[j] == b@[j],
        decreases a@.len() - i,
    {
        if a[i] != b[i] {
            return false;
        }
        i += 1;
    }
    assert(a@ =~= b@);
    true
}

} // verus!
