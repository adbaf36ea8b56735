//! One interface over the shapes in which mining clients say the same things.
//!
//! A client request is recognised once, when it is taken in, by its method
//! name and the shape of its parameters. Three families of method names are
//! understood: the bare names `login`, `submit`, `submitHashrate` and
//! `getWork`, the same with the prefix `eth_` as in `eth_submitLogin`, and
//! `mining.authorize` and `mining.submit`. Every other request is carried
//! along unrecognised.

use crate::protocol::stratum::{StraumRoot, StraumRootView};
use crate::text::{find_char, first_index_of, has_char};
use crate::worker::{identity_of, law_plain_login, Worker};
use vstd::prelude::*;
use vstd::string::*;

verus! {

/// The shape of a client request.
#[derive(Clone, Copy, Debug, PartialEq, Eq, Structural)]
pub enum Dialect {
    /// A login whose first parameter is a wallet alone.
    StandardLogin,
    /// A login whose first parameter is a wallet, a dot and a worker name.
    DottedWalletLogin,
    /// A poll for work.
    LegacyGetWork,
    /// A share.
    SubmitWork,
    /// A report of the client's hash rate.
    SubmitHashrate,
    /// A well-formed request of no shape that is known here.
    Unrecognized,
}

/// What a method name asks for.
#[derive(Clone, Copy, Debug, PartialEq, Eq, Structural)]
pub enum MethodKind {
    Login,
    GetWork,
    SubmitWork,
    SubmitHashrate,
    Other,
}

/// What the method name `m` asks for.
pub open spec fn method_kind(m: Seq<char>) -> MethodKind {
    if m == "login"@ || m == "eth_submitLogin"@ || m == "mining.authorize"@ {
        MethodKind::Login
    } else if m == "submit"@ || m == "eth_submitWork"@ || m == "mining.submit"@ {
        MethodKind::SubmitWork
    } else if m == "submitHashrate"@ || m == "eth_submitHashrate"@ {
        MethodKind::SubmitHashrate
    } else if m == "getWork"@ || m == "eth_getWork"@ {
        MethodKind::GetWork
    } else {
        MethodKind::Other
    }
}

/// The shape of the request `m`. A login needs a first parameter, the login
/// string; a request with a login method and no parameter is of no known
/// shape.
pub open spec fn dialect_of(m: StraumRootView) -> Dialect {
    match method_kind(m.method) {
        MethodKind::Login => if m.params.len() == 0 {
            Dialect::Unrecognized
        } else if has_char(m.params[0], '.') {
            Dialect::DottedWalletLogin
        } else {
            Dialect::StandardLogin
        },
        MethodKind::GetWork => Dialect::LegacyGetWork,
        MethodKind::SubmitWork => Dialect::SubmitWork,
        MethodKind::SubmitHashrate => Dialect::SubmitHashrate,
        MethodKind::Other => Dialect::Unrecognized,
    }
}

/// True when `d` is one of the two login shapes.
pub open spec fn is_login(d: Dialect) -> bool {
    d == Dialect::StandardLogin || d == Dialect::DottedWalletLogin
}

/// The name that a worker takes where the login gives none.
pub open spec fn default_worker_name() -> Seq<char> {
    "Default"@
}

/// The login string of the request `m`, where `m` is a login.
pub open spec fn wallet_of(m: StraumRootView) -> Option<Seq<char>> {
    if is_login(dialect_of(m)) {
        Some(m.params[0])
    } else {
        None
    }
}

/// The worker name that the request `m` supplies: in a login with a dotted
/// wallet, the text after the first dot; in every other request, the default
/// name.
pub open spec fn worker_name_of(m: StraumRootView) -> Seq<char> {
    if dialect_of(m) == Dialect::DottedWalletLogin {
        let login = m.params[0];
        login.subrange(first_index_of(login, '.') + 1, login.len() as int)
    } else {
        default_worker_name()
    }
}

/// The request `m` as it goes to the pool: a login whose wallet names no
/// worker has the default name appended behind a dot; every other request is
/// left as it is.
pub open spec fn normalized_login(m: StraumRootView) -> StraumRootView {
    if dialect_of(m) == Dialect::StandardLogin {
        StraumRootView {
            params: m.params.update(0, identity_of(m.params[0], default_worker_name()).login),
            ..m
        }
    } else {
        m
    }
}

/// True when `s` reads `text`.
fn reads(s: &String, text: &str) -> (b: bool)
    ensures
        b == (s@ == text@),
{
    let t = String::from_str(text);
    *s == t
}

/// What the method name `m` asks for.
pub fn classify_method(m: &String) -> (k: MethodKind)
    ensures
        k == method_kind(m@),
{
    if reads(m, "login") || reads(m, "eth_submitLogin") || reads(m, "mining.authorize") {
        MethodKind::Login
    } else if reads(m, "submit") || reads(m, "eth_submitWork") || reads(m, "mining.submit") {
        MethodKind::SubmitWork
    } else if reads(m, "submitHashrate") || reads(m, "eth_submitHashrate") {
        MethodKind::SubmitHashrate
    } else if reads(m, "getWork") || reads(m, "eth_getWork") {
        MethodKind::GetWork
    } else {
        MethodKind::Other
    }
}

/// A client request together with the shape it was recognised as.
pub struct ProtocolObject {
    dialect: Dialect,
    message: StraumRoot,
}

impl View for ProtocolObject {
    type V = StraumRootView;

    closed spec fn view(&self) -> StraumRootView {
        self.message@
    }
}

impl ProtocolObject {
    #[verifier::type_invariant]
    spec fn recognised(self) -> bool {
        self.dialect == dialect_of(self.message@)
    }

    /// Takes a request in and recognises its shape.
    pub fn parse(message: StraumRoot) -> (obj: Self)
        ensures
            obj@ == message@,
    {
        let kind = classify_method(&message.method);
        let dialect = match kind {
            MethodKind::Login => {
                if message.params.len() == 0 {
                    Dialect::Unrecognized
                } else {
                    assert(message.params.deep_view()[0] == message.params[0]@);
                    match find_char(message.params[0].as_str(), '.') {
                        Some(_) => Dialect::DottedWalletLogin,
                        None => Dialect::StandardLogin,
                    }
                }
            },
            MethodKind::GetWork => Dialect::LegacyGetWork,
            MethodKind::SubmitWork => Dialect::SubmitWork,
            MethodKind::SubmitHashrate => Dialect::SubmitHashrate,
            MethodKind::Other => Dialect::Unrecognized,
        };
        ProtocolObject { dialect, message }
    }

    /// The shape that the request was recognised as.
    pub fn dialect(&self) -> (d: Dialect)
        ensures
            d == dialect_of(self@),
    {
        proof {
            use_type_invariant(self);
        }
        self.dialect
    }

    /// The id that the request carries.
    pub fn id(&self) -> (id: i64)
        ensures
            id == self@.id,
    {
        self.message.id
    }

    /// The login string of a login; `None` for a request of any other shape.
    pub fn extract_wallet(&self) -> (w: Option<String>)
        ensures
            w is Some <==> is_login(dialect_of(self@)),
            w is Some ==> Some(w->0@) == wallet_of(self@),
    {
        proof {
            use_type_invariant(self);
        }
        match self.dialect {
            Dialect::StandardLogin | Dialect::DottedWalletLogin => {
                assert(self.message.params.deep_view()[0] == self.message.params[0]@);
                Some(self.message.params[0].clone())
            },
            _ => None,
        }
    }

    /// The worker name that the request supplies, or the default name where it
    /// supplies none.
    pub fn worker_name(&self) -> (name: String)
        ensures
            name@ == worker_name_of(self@),
    {
        proof {
            use_type_invariant(self);
        }
        match self.dialect {
            Dialect::DottedWalletLogin => {
                assert(self.message.params.deep_view()[0] == self.message.params[0]@);
                let login = self.message.params[0].as_str();
                let n: usize = login.unicode_len();
                match find_char(login, '.') {
                    Some(dot) => String::from_str(login.substring_char(dot + 1, n)),
                    None => String::from_str("Default"),
                }
            },
            _ => String::from_str("Default"),
        }
    }

    /// Overwrites the id that the request goes out with. Method and parameters
    /// stay as they are.
    pub fn assign_id(&mut self, id: i64)
        ensures
            final(self)@ == (StraumRootView { id, ..old(self)@ }),
    {
        proof {
            use_type_invariant(&*self);
        }
        self.message.id = id;
    }

    /// Completes the login string of a login that names no worker; see
    /// `normalized_login`. The request is then a login with a dotted wallet.
    pub fn normalize_login(self) -> (r: Self)
        ensures
            r@ == normalized_login(self@),
            is_login(dialect_of(self@)) ==> dialect_of(r@) == Dialect::DottedWalletLogin,
    {
        proof {
            use_type_invariant(&self);
        }
        match self.dialect {
            Dialect::StandardLogin => {
                let mut message = self.message;
                let ghost before = message@;
                assert(message.params.deep_view()[0] == message.params[0]@);
                let w = Worker::from_login(message.params[0].as_str(), "Default");
                proof {
                    law_plain_login(before.params[0], default_worker_name());
                }
                message.params[0] = w.login;
                assert(message.params.deep_view() =~= before.params.update(
                    0,
                    identity_of(before.params[0], default_worker_name()).login,
                ));
                ProtocolObject { dialect: Dialect::DottedWalletLogin, message }
            },
            _ => self,
        }
    }

    /// Gives the request back, as it now stands, for the wire.
    pub fn into_message(self) -> (m: StraumRoot)
        ensures
            m@ == self@,
    {
        self.message
    }
}

} // verus!
