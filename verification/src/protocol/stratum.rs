//! The JSON-RPC-like objects that travel on the wire, one per frame, as plain
//! values, each with a mathematical view.

use crate::error::{ProtocolFault, RelayError};
use crate::protocol::object::{
    default_worker_name, dialect_of, normalized_login, wallet_of, Dialect, ProtocolObject,
};
use crate::worker::{identity_of, law_plain_login, Worker};
use vstd::prelude::*;
use vstd::string::*;

verus! {

/// A client request: `id`, `method` and an array of string parameters.
#[derive(Default, Debug, PartialEq)]
pub struct StraumRoot {
    pub id: i64,
    pub method: String,
    pub params: Vec<String>,
}

/// What a `StraumRoot` holds.
pub struct StraumRootView {
    pub id: i64,
    pub method: Seq<char>,
    pub params: Seq<Seq<char>>,
}

impl View for StraumRoot {
    type V = StraumRootView;

    open spec fn view(&self) -> StraumRootView {
        StraumRootView { id: self.id, method: self.method@, params: self.params.deep_view() }
    }
}

/// A result response, correlated to an earlier request by `id`.
#[derive(Default, Debug, PartialEq)]
pub struct StraumResult {
    pub id: i64,
    pub jsonrpc: String,
    pub result: Vec<bool>,
}

/// What a `StraumResult` holds.
pub struct StraumResultView {
    pub id: i64,
    pub jsonrpc: Seq<char>,
    pub result: Seq<bool>,
}

impl View for StraumResult {
    type V = StraumResultView;

    open spec fn view(&self) -> StraumResultView {
        StraumResultView { id: self.id, jsonrpc: self.jsonrpc@, result: self.result@ }
    }
}

/// A job notification whose parameters are three strings and a flag.
#[derive(Default, Debug, PartialEq)]
pub struct StraumResultWorkNotify {
    pub id: i64,
    pub method: String,
    pub params: (String, String, String, bool),
}

/// What a `StraumResultWorkNotify` holds.
pub struct StraumResultWorkNotifyView {
    pub id: i64,
    pub method: Seq<char>,
    pub params: (Seq<char>, Seq<char>, Seq<char>, bool),
}

impl View for StraumResultWorkNotify {
    type V = StraumResultWorkNotifyView;

    open spec fn view(&self) -> StraumResultWorkNotifyView {
        StraumResultWorkNotifyView {
            id: self.id,
            method: self.method@,
            params: (self.params.0@, self.params.1@, self.params.2@, self.params.3),
        }
    }
}

/// A job notification whose parameters are an array of strings.
#[derive(Debug, PartialEq)]
pub struct StraumMiningNotify {
    pub id: i64,
    pub method: String,
    pub params: Vec<String>,
}

/// What a `StraumMiningNotify` holds.
pub struct StraumMiningNotifyView {
    pub id: i64,
    pub method: Seq<char>,
    pub params: Seq<Seq<char>>,
}

impl View for StraumMiningNotify {
    type V = StraumMiningNotifyView;

    open spec fn view(&self) -> StraumMiningNotifyView {
        StraumMiningNotifyView { id: self.id, method: self.method@, params: self.params.deep_view() }
    }
}

/// A copy of a list of strings, element by element.
pub fn clone_strings(v: &Vec<String>) -> (r: Vec<String>)
    ensures
        r.deep_view() == v.deep_view(),
{
    let mut out: Vec<String> = Vec::new();
    let mut i: usize = 0;
    while i < v.len()
        invariant
            i <= v.len(),
            out.len() == i,
            forall|j: int| 0 <= j < i ==> out[j]@ == v[j]@,
        decreases v.len() - i,
    {
        out.push(v[i].clone());
        i += 1;
    }
    assert(out.deep_view() =~= v.deep_view());
    out
}

impl Clone for StraumRoot {
    fn clone(&self) -> (r: Self)
        ensures
            r@ == self@,
    {
        StraumRoot { id: self.id, method: self.method.clone(), params: clone_strings(&self.params) }
    }
}

impl Clone for StraumResult {
    fn clone(&self) -> (r: Self)
        ensures
            r@ == self@,
    {
        StraumResult { id: self.id, jsonrpc: self.jsonrpc.clone(), result: self.result.clone() }
    }
}

impl Clone for StraumResultWorkNotify {
    fn clone(&self) -> (r: Self)
        ensures
            r@ == self@,
    {
        StraumResultWorkNotify {
            id: self.id,
            method: self.method.clone(),
            params: (
                self.params.0.clone(),
                self.params.1.clone(),
                self.params.2.clone(),
                self.params.3,
            ),
        }
    }
}

impl Clone for StraumMiningNotify {
    fn clone(&self) -> (r: Self)
        ensures
            r@ == self@,
    {
        StraumMiningNotify {
            id: self.id,
            method: self.method.clone(),
            params: clone_strings(&self.params),
        }
    }
}

/// The login `m` as it goes to the pool under the pool-facing id `pool_id`:
/// with that id, and with a login string that names a worker.
pub open spec fn forwarded_login(m: StraumRootView, pool_id: i64) -> StraumRootView {
    StraumRootView { id: pool_id, ..normalized_login(m) }
}

/// Handles the login with which a client opens its connection.
///
/// Where `rpc` is a login, `worker` becomes the identity that its login string
/// stands for, `worker_name` the full login string, and the result is the
/// request to forward: the login under the id `pool_id`, its login string
/// completed by the default worker name where it named none. Where `rpc` is
/// no login, nothing changes and the wallet is reported missing.
pub fn login(
    worker: &mut Worker,
    rpc: ProtocolObject,
    worker_name: &mut String,
    pool_id: i64,
) -> (r: Result<StraumRoot, RelayError>)
    ensures
        r is Ok <==> wallet_of(rpc@) is Some,
        r is Ok ==> {
            let identity = identity_of(wallet_of(rpc@)->0, default_worker_name());
            &&& final(worker)@ == identity
            &&& final(worker_name)@ == identity.login
            &&& r->Ok_0@ == forwarded_login(rpc@, pool_id)
            &&& r->Ok_0@.params[0] == identity.login
        },
        r is Err ==> {
            &&& r->Err_0 == RelayError::ProtocolError(ProtocolFault::MissingWallet)
            &&& final(worker)@ == old(worker)@
            &&& final(worker_name)@ == old(worker_name)@
        },
{
    match rpc.extract_wallet() {
        Some(wallet) => {
            let identity = Worker::from_login(wallet.as_str(), "Default");
            *worker_name = identity.login.clone();
            *worker = identity;
            proof {
                if dialect_of(rpc@) == Dialect::StandardLogin {
                    law_plain_login(rpc@.params[0], default_worker_name());
                }
            }
            let mut out = rpc.normalize_login();
            out.assign_id(pool_id);
            Ok(out.into_message())
        },
        None => Err(RelayError::ProtocolError(ProtocolFault::MissingWallet)),
    }
}

} // verus!
