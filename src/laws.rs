//! What holds of routing for every request and every registry.

use vstd::prelude::*;
use crate::host::{host_of, is_header_text, is_visible_ascii, lemma_colon_index, lower_bytes, COLON};
use crate::reply::Rejection;
use crate::router::{registered, route_spec, settled};

verus! {

/// A request whose hostname is registered goes to the handler registered for
/// it, and that handler's response reaches the client unchanged.
pub proof fn law_registered_host_forwards<H, R, E>(
    hosts: Map<Seq<u8>, H>,
    header: Seq<u8>,
    response: R,
)
    requires
        is_header_text(header),
        hosts.contains_key(host_of(header)),
    ensures
        route_spec(hosts, Some(header)) == Ok::<H, Rejection>(hosts[host_of(header)]),
        settled(Ok::<R, E>(response)) == Ok::<R, Rejection>(response),
{
}

/// A request whose hostname is not registered gets 404 with the body
/// `Not Found`; nothing else of the request is read.
pub proof fn law_unknown_host_not_found<H>(hosts: Map<Seq<u8>, H>, header: Seq<u8>)
    requires
        is_header_text(header),
        !hosts.contains_key(host_of(header)),
    ensures
        route_spec(hosts, Some(header)) == Err::<H, Rejection>(Rejection::NotFound),
        Rejection::NotFound.status_spec() == 404,
        Rejection::NotFound.text() == "Not Found"@,
{
}

/// A request without a `Host` header, or with one that is not text, gets 400.
pub proof fn law_missing_host_bad_request<H>(hosts: Map<Seq<u8>, H>, header: Seq<u8>)
    requires
        !is_header_text(header),
    ensures
        route_spec(hosts, None) == Err::<H, Rejection>(Rejection::BadRequest),
        route_spec(hosts, Some(header)) == Err::<H, Rejection>(Rejection::BadRequest),
        Rejection::BadRequest.status_spec() == 400,
{
}

/// A handler that fails, whatever its error, gives 500 with the body
/// `Internal Server Error`.
pub proof fn law_failed_handler_internal_error<R, E>(error: E)
    ensures
        settled(Err::<R, E>(error)) == Err::<R, Rejection>(Rejection::Internal),
        Rejection::Internal.status_spec() == 500,
        Rejection::Internal.text() == "Internal Server Error"@,
{
}

/// A port after the hostname does not change where a request goes.
pub proof fn law_port_ignored<H>(hosts: Map<Seq<u8>, H>, name: Seq<u8>, port: Seq<u8>)
    requires
        forall|i: int| 0 <= i < name.len() ==> name[i] != COLON,
        is_header_text(port),
    ensures
        route_spec(hosts, Some(name + seq![COLON] + port)) == route_spec(hosts, Some(name)),
{
    let full = name + seq![COLON] + port;
    lemma_colon_index(name, name.len() as int);
    lemma_colon_index(full, name.len() as int);
    assert(full.take(name.len() as int) =~= name.take(name.len() as int));
    assert(host_of(full) == host_of(name));
    assert(is_header_text(full) == is_header_text(name)) by {
        if is_header_text(name) {
            assert forall|i: int| 0 <= i < full.len() implies is_visible_ascii(
                #[trigger] full[i],
            ) by {
                if i > name.len() {
                    assert(full[i] == port[i - name.len() - 1]);
                }
            }
        }
        if is_header_text(full) {
            assert forall|i: int| 0 <= i < name.len() implies is_visible_ascii(
                #[trigger] name[i],
            ) by {
                assert(full[i] == name[i]);
            }
        }
    }
}

/// Registering a hostname twice leaves only the second handler: the first
/// registration leaves no trace.
pub proof fn law_last_registration_wins<H>(
    hosts: Map<Seq<u8>, H>,
    name: Seq<u8>,
    first: H,
    second: H,
)
    ensures
        registered(registered(hosts, name, first), name, second) == registered(
            hosts,
            name,
            second,
        ),
        registered(registered(hosts, name, first), name, second)[lower_bytes(name)] == second,
{
    assert(registered(registered(hosts, name, first), name, second) =~= registered(
        hosts,
        name,
        second,
    ));
}

} // verus!
