use stratum_relay::error::{ProtocolFault, RelayError};
use stratum_relay::protocol::object::{classify_method, Dialect, MethodKind, ProtocolObject};
use stratum_relay::protocol::stratum::{login, StraumRoot};
use stratum_relay::text::find_char;
use stratum_relay::worker::Worker;

fn request(id: i64, method: &str, params: &[&str]) -> StraumRoot {
    StraumRoot {
        id,
        method: method.to_string(),
        params: params.iter().map(|p| p.to_string()).collect(),
    }
}

#[test]
fn find_char_gives_first_occurrence() {
    assert_eq!(find_char("0xABC.rig1", '.'), Some(5));
    assert_eq!(find_char("a.b.c", '.'), Some(1));
    assert_eq!(find_char(".", '.'), Some(0));
    assert_eq!(find_char("0xABC", '.'), None);
    assert_eq!(find_char("", '.'), None);
}

#[test]
fn find_char_counts_characters_not_bytes() {
    assert_eq!(find_char("\u{e9}\u{e9}.x", '.'), Some(2));
}

#[test]
fn dotted_login_is_split_at_the_first_dot() {
    let w = Worker::from_login("0xABC.rig1", "Default");
    assert_eq!(w.wallet, "0xABC");
    assert_eq!(w.worker_name, "rig1");
    assert_eq!(w.login, "0xABC.rig1");
    assert!(!w.login_completed);
}

#[test]
fn name_is_all_the_text_after_the_first_dot() {
    let w = Worker::from_login("wallet.rig.7", "Default");
    assert_eq!(w.wallet, "wallet");
    assert_eq!(w.worker_name, "rig.7");
    assert_eq!(w.login, "wallet.rig.7");
}

#[test]
fn plain_login_takes_the_default_name() {
    let w = Worker::from_login("0xABC", "Default");
    assert_eq!(w.wallet, "0xABC");
    assert_eq!(w.worker_name, "Default");
    assert_eq!(w.login, "0xABC.Default");
}

#[test]
fn login_edge_cases() {
    let w = Worker::from_login("abc.", "Default");
    assert_eq!((w.wallet.as_str(), w.worker_name.as_str(), w.login.as_str()), ("abc", "", "abc."));
    let w = Worker::from_login(".", "Default");
    assert_eq!((w.wallet.as_str(), w.worker_name.as_str(), w.login.as_str()), ("", "", "."));
    let w = Worker::from_login("", "Default");
    assert_eq!(
        (w.wallet.as_str(), w.worker_name.as_str(), w.login.as_str()),
        ("", "Default", ".Default")
    );
    let w = Worker::from_login("\u{e9}t\u{e9}.rig", "Default");
    assert_eq!(
        (w.wallet.as_str(), w.worker_name.as_str(), w.login.as_str()),
        ("\u{e9}t\u{e9}", "rig", "\u{e9}t\u{e9}.rig")
    );
}

#[test]
fn forwarded_login_stands_for_the_same_identity() {
    for login in ["0xABC", "0xABC.rig1", "a.b.c", ""] {
        let w = Worker::from_login(login, "Default");
        let again = Worker::from_login(&w.login, "Default");
        assert_eq!(again, w);
    }
}

#[test]
fn new_worker_is_empty() {
    let w = Worker::new();
    assert_eq!(w.wallet, "");
    assert_eq!(w.worker_name, "");
    assert_eq!(w.login, "");
    assert!(!w.login_completed);
}

#[test]
fn complete_login_sets_only_the_flag() {
    let mut w = Worker::from_login("0xABC.rig1", "Default");
    w.complete_login();
    assert!(w.login_completed);
    assert_eq!(w.wallet, "0xABC");
    assert_eq!(w.worker_name, "rig1");
    assert_eq!(w.login, "0xABC.rig1");
}

#[test]
fn method_names_of_three_families() {
    for m in ["login", "eth_submitLogin", "mining.authorize"] {
        assert_eq!(classify_method(&m.to_string()), MethodKind::Login);
    }
    for m in ["submit", "eth_submitWork", "mining.submit"] {
        assert_eq!(classify_method(&m.to_string()), MethodKind::SubmitWork);
    }
    for m in ["submitHashrate", "eth_submitHashrate"] {
        assert_eq!(classify_method(&m.to_string()), MethodKind::SubmitHashrate);
    }
    for m in ["getWork", "eth_getWork"] {
        assert_eq!(classify_method(&m.to_string()), MethodKind::GetWork);
    }
    for m in ["", "Login", "mining.subscribe", "submit ", "eth_submitlogin"] {
        assert_eq!(classify_method(&m.to_string()), MethodKind::Other);
    }
}

#[test]
fn dialects_are_recognised() {
    let d = |m: &str, p: &[&str]| ProtocolObject::parse(request(1, m, p)).dialect();
    assert_eq!(d("login", &["0xABC"]), Dialect::StandardLogin);
    assert_eq!(d("eth_submitLogin", &["0xABC", "x"]), Dialect::StandardLogin);
    assert_eq!(d("login", &["0xABC.rig1"]), Dialect::DottedWalletLogin);
    assert_eq!(d("mining.authorize", &["0xABC.rig1", "x"]), Dialect::DottedWalletLogin);
    assert_eq!(d("login", &[]), Dialect::Unrecognized);
    assert_eq!(d("eth_getWork", &[]), Dialect::LegacyGetWork);
    assert_eq!(d("submit", &["a", "b", "c"]), Dialect::SubmitWork);
    assert_eq!(d("eth_submitHashrate", &["0x1", "0x2"]), Dialect::SubmitHashrate);
    assert_eq!(d("mining.subscribe", &["a.b"]), Dialect::Unrecognized);
}

#[test]
fn extract_wallet_only_from_logins() {
    let obj = ProtocolObject::parse(request(1, "login", &["0xABC.rig1", "x"]));
    assert_eq!(obj.extract_wallet(), Some("0xABC.rig1".to_string()));
    let obj = ProtocolObject::parse(request(1, "login", &["0xABC"]));
    assert_eq!(obj.extract_wallet(), Some("0xABC".to_string()));
    let obj = ProtocolObject::parse(request(1, "submit", &["0xABC.rig1"]));
    assert_eq!(obj.extract_wallet(), None);
    let obj = ProtocolObject::parse(request(1, "login", &[]));
    assert_eq!(obj.extract_wallet(), None);
}

#[test]
fn worker_name_from_dotted_wallet_or_default() {
    let obj = ProtocolObject::parse(request(1, "login", &["0xABC.rig1"]));
    assert_eq!(obj.worker_name(), "rig1");
    let obj = ProtocolObject::parse(request(1, "login", &["0xABC.rig.1"]));
    assert_eq!(obj.worker_name(), "rig.1");
    let obj = ProtocolObject::parse(request(1, "login", &["0xABC"]));
    assert_eq!(obj.worker_name(), "Default");
    let obj = ProtocolObject::parse(request(1, "submit", &["a.b"]));
    assert_eq!(obj.worker_name(), "Default");
}

#[test]
fn assign_id_changes_only_the_id() {
    let mut obj = ProtocolObject::parse(request(7, "submit", &["n", "h", "m"]));
    assert_eq!(obj.id(), 7);
    obj.assign_id(1007);
    assert_eq!(obj.id(), 1007);
    assert_eq!(obj.dialect(), Dialect::SubmitWork);
    assert_eq!(obj.into_message(), request(1007, "submit", &["n", "h", "m"]));
}

#[test]
fn normalize_login_completes_a_plain_wallet() {
    let obj = ProtocolObject::parse(request(1, "login", &["0xABC", "x"])).normalize_login();
    assert_eq!(obj.dialect(), Dialect::DottedWalletLogin);
    assert_eq!(obj.into_message(), request(1, "login", &["0xABC.Default", "x"]));
    let obj = ProtocolObject::parse(request(1, "login", &["0xABC.rig1", "x"])).normalize_login();
    assert_eq!(obj.into_message(), request(1, "login", &["0xABC.rig1", "x"]));
    let obj = ProtocolObject::parse(request(1, "submit", &["0xABC", "x"])).normalize_login();
    assert_eq!(obj.into_message(), request(1, "submit", &["0xABC", "x"]));
}

#[test]
fn login_with_dotted_wallet_is_forwarded_unchanged() {
    let mut worker = Worker::new();
    let mut name = String::new();
    let rpc = ProtocolObject::parse(request(1, "login", &["0xABC.rig1", "x"]));
    let out = login(&mut worker, rpc, &mut name, 1001).unwrap();
    assert_eq!(out, request(1001, "login", &["0xABC.rig1", "x"]));
    assert_eq!(worker.wallet, "0xABC");
    assert_eq!(worker.worker_name, "rig1");
    assert_eq!(worker.login, "0xABC.rig1");
    assert_eq!(name, "0xABC.rig1");
}

#[test]
fn login_with_plain_wallet_gets_the_default_name() {
    let mut worker = Worker::new();
    let mut name = String::new();
    let rpc = ProtocolObject::parse(request(3, "eth_submitLogin", &["0xABC", "x"]));
    let out = login(&mut worker, rpc, &mut name, 1001).unwrap();
    assert_eq!(out, request(1001, "eth_submitLogin", &["0xABC.Default", "x"]));
    assert_eq!(worker.wallet, "0xABC");
    assert_eq!(worker.worker_name, "Default");
    assert_eq!(worker.login, "0xABC.Default");
    assert_eq!(name, "0xABC.Default");
}

#[test]
fn login_without_wallet_fails_and_changes_nothing() {
    let mut worker = Worker::from_login("old.name", "Default");
    let mut name = "kept".to_string();
    let rpc = ProtocolObject::parse(request(1, "submit", &["0xABC.rig1"]));
    let err = login(&mut worker, rpc, &mut name, 1001).unwrap_err();
    assert_eq!(err, RelayError::ProtocolError(ProtocolFault::MissingWallet));
    assert_eq!(err.message(), "missing wallet");
    assert_eq!(worker, Worker::from_login("old.name", "Default"));
    assert_eq!(name, "kept");
    let rpc = ProtocolObject::parse(request(1, "login", &[]));
    assert!(login(&mut worker, rpc, &mut name, 1001).is_err());
}

#[test]
fn error_messages() {
    assert_eq!(
        RelayError::ProtocolError(ProtocolFault::MissingWallet).message(),
        "missing wallet"
    );
    assert_eq!(
        RelayError::ProtocolError(ProtocolFault::Malformed).message(),
        "malformed message"
    );
    assert_eq!(RelayError::LoginRejected.message(), "login rejected by pool");
    assert_eq!(RelayError::TransportError.message(), "transport failure");
    assert_eq!(RelayError::PoolUnavailable.message(), "no pool available");
    assert_eq!(RelayError::IdsExhausted.message(), "request ids exhausted");
}
