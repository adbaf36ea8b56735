//! The pool endpoints that a connection may be relayed to, and the order in
//! which they are tried.

use crate::error::RelayError;
use vstd::prelude::*;

verus! {

/// How a pool endpoint is reached.
#[derive(Clone, Copy, Debug, PartialEq, Eq, Structural)]
pub enum PoolTransport {
    /// Plain TCP.
    Tcp,
    /// TLS over TCP.
    Tls,
}

/// One pool endpoint.
#[derive(Debug, PartialEq)]
pub struct PoolEndpoint {
    /// Host and port.
    pub address: String,
    /// How it is reached.
    pub transport: PoolTransport,
}

/// What a `PoolEndpoint` holds.
pub struct PoolEndpointView {
    pub address: Seq<char>,
    pub transport: PoolTransport,
}

impl View for PoolEndpoint {
    type V = PoolEndpointView;

    open spec fn view(&self) -> PoolEndpointView {
        PoolEndpointView { address: self.address@, transport: self.transport }
    }
}

/// The endpoints as the contracts see them.
pub open spec fn endpoints_view(endpoints: Seq<PoolEndpoint>) -> Seq<PoolEndpointView> {
    Seq::new(endpoints.len(), |i: int| endpoints[i]@)
}

/// The endpoint to try once `failed` attempts have failed: each endpoint is
/// tried once, in the order given; when none is left, no pool is available.
pub open spec fn attempt_after(endpoints: Seq<PoolEndpointView>, failed: nat) -> Result<
    PoolEndpointView,
    RelayError,
> {
    if failed < endpoints.len() {
        Ok(endpoints[failed as int])
    } else {
        Err(RelayError::PoolUnavailable)
    }
}

/// See `attempt_after`.
pub fn next_endpoint(endpoints: &Vec<PoolEndpoint>, failed: usize) -> (r: Result<
    PoolEndpoint,
    RelayError,
>)
    ensures
        r is Ok <==> failed < endpoints.len(),
        r is Ok ==> Ok::<PoolEndpointView, RelayError>(r->Ok_0@) == attempt_after(
            endpoints_view(endpoints@),
            failed as nat,
        ),
        r is Err ==> r->Err_0 == RelayError::PoolUnavailable,
{
    if failed < endpoints.len() {
        let e = &endpoints[failed];
        Ok(PoolEndpoint { address: e.address.clone(), transport: e.transport })
    } else {
        Err(RelayError::PoolUnavailable)
    }
}

/// With endpoints to choose from, the first attempt goes to the first of
/// them; with none, no relay is ever started.
pub proof fn law_first_attempt(endpoints: Seq<PoolEndpointView>)
    ensures
        endpoints.len() > 0 ==> attempt_after(endpoints, 0) == Ok::<PoolEndpointView, RelayError>(
            endpoints[0],
        ),
        endpoints.len() == 0 ==> attempt_after(endpoints, 0) == Err::<
            PoolEndpointView,
            RelayError,
        >(RelayError::PoolUnavailable),
        forall|failed: nat|
            failed >= endpoints.len() ==> #[trigger] attempt_after(endpoints, failed) is Err,
{
}

} // verus!
