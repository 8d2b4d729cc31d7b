//! The host registry and the routing decision made for each request.

use vstd::prelude::*;
use vstd::string::StringSliceAdditionalSpecFns;
use crate::host::{hostname_of, hostname_spec, lower_bytes, name_key, same_bytes};
use crate::reply::Rejection;

verus! {

/// The hosts after `name` is registered with `handler`: its key, in lower
/// case, now maps to `handler`, whatever it mapped to before.
pub open spec fn registered<H>(hosts: Map<Seq<u8>, H>, name: Seq<u8>, handler: H) -> Map<
    Seq<u8>,
    H,
> {
    hosts.insert(lower_bytes(name), handler)
}

/// The `Host` header of a request as bytes, if it has one.
pub open spec fn header_view(header: Option<&[u8]>) -> Option<Seq<u8>> {
    match header {
        Some(b) => Some(b@),
        None => None,
    }
}

/// Where a request goes: the handler registered for its hostname, or the
/// reply given without one.
pub open spec fn route_spec<H>(hosts: Map<Seq<u8>, H>, header: Option<Seq<u8>>) -> Result<
    H,
    Rejection,
> {
    match hostname_spec(header) {
        None => Err(Rejection::BadRequest),
        Some(h) => if hosts.contains_key(h) {
            Ok(hosts[h])
        } else {
            Err(Rejection::NotFound)
        },
    }
}

/// What the client receives once the chosen handler has run: its response
/// untouched, or a 500 reply where it failed.
pub open spec fn settled<R, E>(outcome: Result<R, E>) -> Result<R, Rejection> {
    match outcome {
        Ok(r) => Ok(r),
        Err(_) => Err(Rejection::Internal),
    }
}

proof fn lemma_index_of_unique(s: Seq<Seq<u8>>, i: int)
    requires
        s.no_duplicates(),
        0 <= i < s.len(),
    ensures
        s.index_of(s[i]) == i,
{
    let j = s.index_of(s[i]);
    assert(0 <= j < s.len() && s[j] == s[i]);
}

/// Handlers keyed by hostname; a request goes to the handler registered for
/// the hostname in its `Host` header.
pub struct MultiDomainRouter<H> {
    names: Vec<Vec<u8>>,
    routers: Vec<H>,
}

impl<H> View for MultiDomainRouter<H> {
    type V = Map<Seq<u8>, H>;

    closed spec fn view(&self) -> Map<Seq<u8>, H> {
        Map::new(
            |k: Seq<u8>| self.keys().contains(k),
            |k: Seq<u8>| self.routers@[self.keys().index_of(k)],
        )
    }
}

impl<H> MultiDomainRouter<H> {
    closed spec fn keys(&self) -> Seq<Seq<u8>> {
        self.names@.map_values(|n: Vec<u8>| n@)
    }

    /// Each hostname has one entry, with one handler.
    pub closed spec fn wf(&self) -> bool {
        &&& self.names@.len() == self.routers@.len()
        &&& self.keys().no_duplicates()
    }

    proof fn lemma_view_at(&self, i: int)
        requires
            self.wf(),
            0 <= i < self.names@.len(),
        ensures
            self@.contains_key(self.names@[i]@),
            self@[self.names@[i]@] == self.routers@[i],
    {
        assert(self.keys()[i] == self.names@[i]@);
        lemma_index_of_unique(self.keys(), i);
    }

    /// A router with no hosts.
    pub fn new() -> (r: Self)
        ensures
            r.wf(),
            r@ == Map::<Seq<u8>, H>::empty(),
    {
        let r = MultiDomainRouter { names: Vec::new(), routers: Vec::new() };
        assert(r@ =~= Map::<Seq<u8>, H>::empty());
        r
    }

    /// Where `key` is registered.
    fn position(&self, key: &[u8]) -> (r: Option<usize>)
        requires
            self.wf(),
        ensures
            match r {
                Some(i) => i < self.names@.len() && self.names@[i as int]@ == key@,
                None => !self@.contains_key(key@),
            },
    {
        let mut i: usize = 0;
        while i < self.names.len()
            invariant
                self.wf(),
                i <= self.names@.len(),
                forall|j: int| 0 <= j < i ==> self.names@[j]@ != key@,
            decreases self.names@.len() - i,
        {
            if same_bytes(self.names[i].as_slice(), key) {
                return Some(i);
            }
            i += 1;
        }
        proof {
            if self.keys().contains(key@) {
                let j = self.keys().index_of(key@);
                assert(self.keys()[j] == self.names@[j]@);
            }
        }
        None
    }

    /// Registers `router` for `hostname`, replacing the handler registered for
    /// it before, if any.
    pub fn add_router(&mut self, hostname: &str, router: H)
        requires
            old(self).wf(),
        ensures
            final(self).wf(),
            final(self)@ == registered(old(self)@, hostname.spec_bytes(), router),
    {
        let key = name_key(hostname);
        let ghost before = self@;
        let ghost old_keys = self.keys();
        match self.position(key.as_slice()) {
            Some(i) => {
                self.routers.set(i, router);
                proof {
                    assert(self.keys() =~= old_keys);
                    assert forall|k: Seq<u8>| #[trigger]
                        self@.contains_key(k) implies self@[k] == before.insert(
                        key@,
                        router,
                    )[k] by {
                        let j = self.keys().index_of(k);
                        assert(0 <= j < self.keys().len() && self.keys()[j] == k);
                        lemma_index_of_unique(self.keys(), j);
                        if j != i {
                            assert(self.keys()[j] != self.keys()[i as int]);
                        }
                    }
                    self.lemma_view_at(i as int);
                    assert(self@ =~= before.insert(key@, router));
                }
            },
            None => {
                self.names.push(key);
                self.routers.push(router);
                proof {
                    let n = old_keys.len();
                    assert(self.keys() =~= old_keys.push(key@));
                    assert(!old_keys.contains(key@));
                    assert forall|k: Seq<u8>| #[trigger]
                        self@.contains_key(k) implies self@[k] == before.insert(
                        key@,
                        router,
                    )[k] by {
                        let j = self.keys().index_of(k);
                        assert(0 <= j < self.keys().len() && self.keys()[j] == k);
                        lemma_index_of_unique(self.keys(), j);
                        if j < n {
                            assert(old_keys[j] == k);
                            lemma_index_of_unique(old_keys, j);
                        }
                    }
                    assert forall|k: Seq<u8>| #[trigger]
                        before.contains_key(k) implies self@.contains_key(k) by {
                        let j = old_keys.index_of(k);
                        assert(self.keys()[j] == k);
                    }
                    assert forall|k: Seq<u8>| #[trigger]
                        self@.contains_key(k) && k != key@ implies before.contains_key(k) by {
                        let j = self.keys().index_of(k);
                        assert(0 <= j < self.keys().len() && self.keys()[j] == k);
                        assert(old_keys[j] == k);
                    }
                    assert(self.names@[n as int]@ == key@);
                    self.lemma_view_at(n as int);
                    assert(self@ =~= before.insert(key@, router));
                }
            },
        }
    }

    /// The handler registered for `hostname`, compared in lower case.
    pub fn lookup(&self, hostname: &str) -> (r: Option<&H>)
        requires
            self.wf(),
        ensures
            match r {
                Some(h) => self@.contains_key(lower_bytes(hostname.spec_bytes()))
                    && self@[lower_bytes(hostname.spec_bytes())] == *h,
                None => !self@.contains_key(lower_bytes(hostname.spec_bytes())),
            },
    {
        let key = name_key(hostname);
        match self.position(key.as_slice()) {
            Some(i) => {
                proof {
                    self.lemma_view_at(i as int);
                }
                Some(&self.routers[i])
            },
            None => None,
        }
    }

    /// Where a request whose `Host` header is `host` goes: the handler
    /// registered for its hostname; `BadRequest` where the header is missing
    /// or is not text; `NotFound` where no handler is registered for it.
    pub fn route(&self, host: Option<&[u8]>) -> (r: Result<&H, Rejection>)
        requires
            self.wf(),
        ensures
            match r {
                Ok(h) => route_spec(self@, header_view(host)) == Ok::<H, Rejection>(*h),
                Err(e) => route_spec(self@, header_view(host)) == Err::<H, Rejection>(e),
            },
    {
        let value = match host {
            Some(v) => v,
            None => return Err(Rejection::BadRequest),
        };
        let name = match hostname_of(value) {
            Some(n) => n,
            None => return Err(Rejection::BadRequest),
        };
        match self.position(name.as_slice()) {
            Some(i) => {
                proof {
                    self.lemma_view_at(i as int);
                }
                Ok(&self.routers[i])
            },
            None => Err(Rejection::NotFound),
        }
    }
}

/// What the client receives once the chosen handler has run: its response
/// untouched where it succeeded, the 500 reply where it failed.
pub fn settle<R, E>(outcome: Result<R, E>) -> (r: Result<R, Rejection>)
    ensures
        r == settled(outcome),
{
    match outcome {
        Ok(response) => Ok(response),
        Err(_) => Err(Rejection::Internal),
    }
}

} // verus!
