use stratum_relay::error::{ProtocolFault, RelayError};
use stratum_relay::fee::FeeState;
use stratum_relay::protocol::stratum::{
    StraumMiningNotify, StraumResult, StraumResultWorkNotify, StraumRoot,
};
use stratum_relay::relay::context::{
    build_fee_request, Action, ConnectionContext, Event, Settings,
};
use stratum_relay::worker::Worker;

fn settings(first_id: i64) -> Settings {
    Settings {
        first_id,
        fee_first_id: 9001,
        fee_last_id: 9999,
        max_pending: 64,
        fee_wallet: "0xFEE".to_string(),
        fee_window: 60,
        fee_reply_timeout: 30,
    }
}

fn request(id: i64, method: &str, params: &[&str]) -> StraumRoot {
    StraumRoot {
        id,
        method: method.to_string(),
        params: params.iter().map(|p| p.to_string()).collect(),
    }
}

fn result(id: i64, result: &[bool]) -> StraumResult {
    StraumResult { id, jsonrpc: "2.0".to_string(), result: result.to_vec() }
}

fn notify(params: &[&str]) -> StraumMiningNotify {
    StraumMiningNotify {
        id: 0,
        method: "mining.notify".to_string(),
        params: params.iter().map(|p| p.to_string()).collect(),
    }
}

fn worker(wallet: &str, name: &str, login: &str, done: bool) -> Worker {
    Worker {
        wallet: wallet.to_string(),
        worker_name: name.to_string(),
        login: login.to_string(),
        login_completed: done,
    }
}

/// A connection whose client has logged in with id 1 and whose pool has
/// acknowledged; the next pool-facing id is `first_id + 1`.
fn established(first_id: i64) -> ConnectionContext {
    let mut c = ConnectionContext::new(settings(first_id)).unwrap();
    let out = c.handle(Event::ClientRequest(request(1, "login", &["0xABC.rig1", "x"])), 0);
    assert!(matches!(out, Ok(Action::Register(_, _))));
    let out = c.handle(Event::PoolResult(result(first_id, &[true])), 0);
    assert_eq!(out, Ok(Action::ToClient(result(1, &[true]))));
    c
}

#[test]
fn new_context_refuses_unusable_settings() {
    let mut s = settings(1);
    s.max_pending = 0;
    assert!(ConnectionContext::new(s).is_none());
    let mut s = settings(1);
    s.fee_first_id = 10;
    s.fee_last_id = 9;
    assert!(ConnectionContext::new(s).is_none());
    let mut s = settings(1);
    s.fee_last_id = i64::MAX;
    assert!(ConnectionContext::new(s).is_none());
}

#[test]
fn new_context_is_open_and_empty() {
    let c = ConnectionContext::new(settings(1)).unwrap();
    assert!(!c.is_closed());
    assert_eq!(c.worker(), None);
    assert_eq!(c.worker_name(), "");
    assert_eq!(c.pending(), 0);
    assert_eq!(c.fee_state(), FeeState::Idle);
    assert_eq!(c.fees_in_flight(), 0);
}

#[test]
fn scenario_submit_is_remapped_and_restored() {
    let mut c = established(1006);
    let out = c.handle(Event::ClientRequest(request(7, "submit", &["n", "h", "m"])), 1);
    assert_eq!(out, Ok(Action::ToPool(request(1007, "submit", &["n", "h", "m"]))));
    assert_eq!(c.pending(), 1);
    let out = c.handle(Event::PoolResult(result(1007, &[true])), 2);
    assert_eq!(out, Ok(Action::ToClient(result(7, &[true]))));
    assert_eq!(c.pending(), 0);
    let out = c.handle(Event::PoolResult(result(1007, &[true])), 3);
    assert_eq!(out, Ok(Action::Nothing));
}

#[test]
fn scenario_fee_share_is_hidden_from_the_client() {
    let mut c = established(1006);
    assert_eq!(c.handle(Event::Tick, 0), Ok(Action::Nothing));
    assert_eq!(c.fee_state(), FeeState::AwaitingWindow { since: 0 });
    let job = notify(&["job1", "seed", "header"]);
    assert_eq!(
        c.handle(Event::PoolMiningNotify(job.clone()), 1),
        Ok(Action::JobToClient(job))
    );
    assert_eq!(c.handle(Event::Tick, 59), Ok(Action::Nothing));
    let out = c.handle(Event::Tick, 60);
    assert_eq!(
        out,
        Ok(Action::InjectFee(request(9001, "submit", &["0xFEE", "job1", "seed", "header"])))
    );
    assert_eq!(c.fee_state(), FeeState::Injecting { pool_id: 9001 });
    assert_eq!(c.handle(Event::FeeSent, 61), Ok(Action::Nothing));
    assert_eq!(c.fee_state(), FeeState::AwaitingReply { pool_id: 9001 });
    assert_eq!(c.fees_in_flight(), 1);
    assert_eq!(c.pending(), 1);
    let out = c.handle(Event::PoolResult(result(9001, &[true])), 62);
    assert_eq!(out, Ok(Action::Nothing));
    assert_eq!(c.fees_in_flight(), 0);
    assert_eq!(c.pending(), 0);
    assert_eq!(c.fee_state(), FeeState::AwaitingWindow { since: 62 });
    assert_eq!(c.handle(Event::PoolResult(result(9001, &[true])), 63), Ok(Action::Nothing));
}

#[test]
fn scenario_login_with_dotted_wallet() {
    let mut c = ConnectionContext::new(settings(1001)).unwrap();
    let out = c.handle(Event::ClientRequest(request(1, "login", &["0xABC.rig1", "x"])), 0);
    assert_eq!(
        out,
        Ok(Action::Register(
            worker("0xABC", "rig1", "0xABC.rig1", false),
            request(1001, "login", &["0xABC.rig1", "x"])
        ))
    );
    assert_eq!(c.worker(), Some(worker("0xABC", "rig1", "0xABC.rig1", false)));
    assert_eq!(c.worker_name(), "0xABC.rig1");
    let out = c.handle(Event::PoolResult(result(1001, &[true])), 0);
    assert_eq!(out, Ok(Action::ToClient(result(1, &[true]))));
    assert_eq!(c.worker(), Some(worker("0xABC", "rig1", "0xABC.rig1", true)));
}

#[test]
fn login_with_plain_wallet_is_completed_before_forwarding() {
    let mut c = ConnectionContext::new(settings(1001)).unwrap();
    let out = c.handle(Event::ClientRequest(request(5, "eth_submitLogin", &["0xABC"])), 0);
    assert_eq!(
        out,
        Ok(Action::Register(
            worker("0xABC", "Default", "0xABC.Default", false),
            request(1001, "eth_submitLogin", &["0xABC.Default"])
        ))
    );
    assert_eq!(c.worker_name(), "0xABC.Default");
}

#[test]
fn first_client_message_must_be_a_login() {
    let mut c = ConnectionContext::new(settings(1)).unwrap();
    let out = c.handle(Event::ClientRequest(request(7, "submit", &["n", "h", "m"])), 0);
    assert_eq!(out, Err(RelayError::ProtocolError(ProtocolFault::MissingWallet)));
    assert!(c.is_closed());
    assert_eq!(c.pending(), 0);
    let out = c.handle(Event::ClientRequest(request(1, "login", &["0xABC"])), 0);
    assert_eq!(out, Ok(Action::Nothing));

    let mut c = ConnectionContext::new(settings(1)).unwrap();
    let out = c.handle(Event::ClientRequest(request(7, "login", &[])), 0);
    assert_eq!(out, Err(RelayError::ProtocolError(ProtocolFault::MissingWallet)));

    let mut c = ConnectionContext::new(settings(1)).unwrap();
    let out = c.handle(Event::ClientOther(b"{\"id\":1}".to_vec()), 0);
    assert_eq!(out, Err(RelayError::ProtocolError(ProtocolFault::MissingWallet)));
    assert!(c.is_closed());
}

#[test]
fn malformed_client_frame_is_fatal() {
    let mut c = established(100);
    let out = c.handle(Event::ClientMalformed, 0);
    assert_eq!(out, Err(RelayError::ProtocolError(ProtocolFault::Malformed)));
    assert!(c.is_closed());
}

#[test]
fn transport_failure_is_fatal() {
    let mut c = established(100);
    assert_eq!(c.handle(Event::TransportFailed, 0), Err(RelayError::TransportError));
    assert!(c.is_closed());
    assert_eq!(c.handle(Event::TransportFailed, 0), Ok(Action::Nothing));
}

#[test]
fn first_pool_message_must_acknowledge() {
    let mut c = ConnectionContext::new(settings(1)).unwrap();
    c.handle(Event::ClientRequest(request(1, "login", &["0xABC"])), 0).unwrap();
    let out = c.handle(Event::PoolMiningNotify(notify(&["j"])), 0);
    assert_eq!(out, Err(RelayError::LoginRejected));
    assert!(c.is_closed());

    let mut c = ConnectionContext::new(settings(1)).unwrap();
    let out = c.handle(Event::PoolOther(b"{}".to_vec()), 0);
    assert_eq!(out, Err(RelayError::LoginRejected));

    let mut c = ConnectionContext::new(settings(1)).unwrap();
    let work = StraumResultWorkNotify {
        id: 0,
        method: "mining.notify".to_string(),
        params: ("a".to_string(), "b".to_string(), "c".to_string(), true),
    };
    assert_eq!(c.handle(Event::PoolWorkNotify(work), 0), Err(RelayError::LoginRejected));
}

#[test]
fn unknown_requests_pass_unmodified() {
    let mut c = established(100);
    let unknown = request(42, "mining.extranonce.subscribe", &[]);
    assert_eq!(
        c.handle(Event::ClientRequest(unknown.clone()), 0),
        Ok(Action::ToPool(unknown))
    );
    assert_eq!(c.pending(), 0);
    let frame = b"{\"id\":3,\"method\":\"x\",\"params\":[1]}".to_vec();
    assert_eq!(
        c.handle(Event::ClientOther(frame.clone()), 0),
        Ok(Action::RawToPool(frame.clone()))
    );
    assert_eq!(c.handle(Event::PoolOther(frame.clone()), 0), Ok(Action::RawToClient(frame)));
    assert!(!c.is_closed());
}

#[test]
fn every_known_request_gets_its_own_id() {
    let mut c = established(100);
    let out = c.handle(Event::ClientRequest(request(5, "eth_getWork", &[])), 0);
    assert_eq!(out, Ok(Action::ToPool(request(101, "eth_getWork", &[]))));
    let out = c.handle(Event::ClientRequest(request(5, "eth_submitHashrate", &["0x1", "w"])), 0);
    assert_eq!(out, Ok(Action::ToPool(request(102, "eth_submitHashrate", &["0x1", "w"]))));
    let out = c.handle(Event::ClientRequest(request(5, "eth_submitWork", &["n", "h", "m"])), 0);
    assert_eq!(out, Ok(Action::ToPool(request(103, "eth_submitWork", &["n", "h", "m"]))));
    let out = c.handle(Event::ClientRequest(request(6, "login", &["0xDEF"])), 0);
    assert_eq!(out, Ok(Action::ToPool(request(104, "login", &["0xDEF.Default"]))));
    assert_eq!(c.worker_name(), "0xABC.rig1");
    assert_eq!(c.handle(Event::PoolResult(result(102, &[true])), 0), Ok(Action::ToClient(result(5, &[true]))));
    assert_eq!(c.handle(Event::PoolResult(result(101, &[false])), 0), Ok(Action::ToClient(result(5, &[false]))));
    assert_eq!(c.handle(Event::PoolResult(result(104, &[])), 0), Ok(Action::ToClient(result(6, &[]))));
    assert_eq!(c.pending(), 1);
}

#[test]
fn replies_without_a_request_are_dropped() {
    let mut c = established(100);
    assert_eq!(c.handle(Event::PoolResult(result(555, &[true])), 0), Ok(Action::Nothing));
    assert_eq!(c.handle(Event::PoolResult(result(9500, &[true])), 0), Ok(Action::Nothing));
    assert_eq!(c.handle(Event::PoolResult(result(1, &[true])), 0), Ok(Action::Nothing));
    assert!(!c.is_closed());
}

#[test]
fn pool_eof_shuts_the_client_writer_and_ends_the_relay() {
    let mut c = established(100);
    c.handle(Event::ClientRequest(request(7, "submit", &["n"])), 0).unwrap();
    assert_eq!(c.handle(Event::PoolEof, 1), Ok(Action::ShutdownClient));
    assert!(c.is_closed());
    assert_eq!(c.handle(Event::PoolResult(result(101, &[true])), 2), Ok(Action::Nothing));
    assert_eq!(c.handle(Event::ClientRequest(request(8, "submit", &["n"])), 2), Ok(Action::Nothing));
    assert_eq!(c.handle(Event::JobBroadcast(notify(&["j"])), 2), Ok(Action::Nothing));
    assert_eq!(c.handle(Event::Tick, 1000), Ok(Action::Nothing));
    assert_eq!(c.handle(Event::ClientEof, 1000), Ok(Action::Nothing));
    assert_eq!(c.handle(Event::PoolEof, 1000), Ok(Action::Nothing));
    assert_eq!(c.pending(), 1);
}

#[test]
fn client_eof_shuts_the_pool_writer_and_empties_the_table() {
    let mut c = established(100);
    c.handle(Event::ClientRequest(request(7, "submit", &["n"])), 0).unwrap();
    c.handle(Event::ClientRequest(request(8, "submit", &["n"])), 0).unwrap();
    assert_eq!(c.pending(), 2);
    assert_eq!(c.handle(Event::ClientEof, 1), Ok(Action::ShutdownPool));
    assert!(c.is_closed());
    assert_eq!(c.pending(), 0);
    assert_eq!(c.handle(Event::ClientRequest(request(9, "submit", &["n"])), 2), Ok(Action::Nothing));
    assert_eq!(c.pending(), 0);
    assert_eq!(c.handle(Event::PoolResult(result(101, &[true])), 2), Ok(Action::Nothing));
    assert_eq!(c.handle(Event::PoolEof, 3), Ok(Action::Nothing));
}

#[test]
fn jobs_are_forwarded_unless_a_fee_share_is_under_way() {
    let mut c = established(100);
    let work = StraumResultWorkNotify {
        id: 0,
        method: "mining.notify".to_string(),
        params: ("job1".to_string(), "seed".to_string(), "header".to_string(), true),
    };
    assert_eq!(
        c.handle(Event::PoolWorkNotify(work.clone()), 0),
        Ok(Action::WorkToClient(work.clone()))
    );
    let queued = notify(&["job2"]);
    assert_eq!(
        c.handle(Event::JobBroadcast(queued.clone()), 0),
        Ok(Action::JobToClient(queued))
    );
    c.handle(Event::Tick, 0).unwrap();
    let out = c.handle(Event::Tick, 60);
    assert_eq!(out, Ok(Action::InjectFee(request(9001, "submit", &["0xFEE", "job2"]))));
    assert_eq!(c.handle(Event::PoolWorkNotify(work.clone()), 61), Ok(Action::Nothing));
    assert_eq!(c.handle(Event::JobBroadcast(notify(&["job3"])), 61), Ok(Action::Nothing));
    c.handle(Event::FeeSent, 61).unwrap();
    assert_eq!(c.handle(Event::PoolMiningNotify(notify(&["job4"])), 62), Ok(Action::Nothing));
    c.handle(Event::PoolResult(result(9001, &[true])), 63).unwrap();
    assert_eq!(
        c.handle(Event::PoolWorkNotify(work.clone()), 64),
        Ok(Action::WorkToClient(work))
    );
    assert_eq!(c.handle(Event::Tick, 122), Ok(Action::Nothing));
    assert_eq!(
        c.handle(Event::Tick, 123),
        Ok(Action::InjectFee(request(9002, "submit", &["0xFEE", "job1", "seed", "header"])))
    );
}

#[test]
fn no_fee_share_without_login_ack_or_job() {
    let mut c = ConnectionContext::new(settings(100)).unwrap();
    c.handle(Event::JobBroadcast(notify(&["job"])), 0).unwrap();
    c.handle(Event::Tick, 0).unwrap();
    assert_eq!(c.handle(Event::Tick, 100), Ok(Action::Nothing));
    c.handle(Event::ClientRequest(request(1, "login", &["0xABC"])), 100).unwrap();
    assert_eq!(c.handle(Event::Tick, 101), Ok(Action::Nothing));
    c.handle(Event::PoolResult(result(100, &[true])), 102).unwrap();
    assert_eq!(
        c.handle(Event::Tick, 103),
        Ok(Action::InjectFee(request(9001, "submit", &["0xFEE", "job"])))
    );

    let mut c = established(100);
    c.handle(Event::Tick, 0).unwrap();
    assert_eq!(c.handle(Event::Tick, 100), Ok(Action::Nothing));
    assert_eq!(c.fee_state(), FeeState::AwaitingWindow { since: 0 });
}

#[test]
fn unanswered_fee_share_is_given_up_after_the_timeout() {
    let mut c = established(100);
    c.handle(Event::JobBroadcast(notify(&["job"])), 0).unwrap();
    c.handle(Event::Tick, 0).unwrap();
    c.handle(Event::Tick, 60).unwrap();
    assert_eq!(c.handle(Event::Tick, 500), Ok(Action::Nothing));
    assert_eq!(c.fee_state(), FeeState::Injecting { pool_id: 9001 });
    c.handle(Event::FeeSent, 61).unwrap();
    assert_eq!(c.handle(Event::Tick, 90), Ok(Action::Nothing));
    assert_eq!(c.fee_state(), FeeState::AwaitingReply { pool_id: 9001 });
    assert_eq!(c.fees_in_flight(), 1);
    assert_eq!(c.pending(), 1);
    assert_eq!(c.handle(Event::Tick, 91), Ok(Action::Nothing));
    assert_eq!(c.fee_state(), FeeState::AwaitingWindow { since: 91 });
    assert_eq!(c.fees_in_flight(), 0);
    assert_eq!(c.pending(), 0);
    assert_eq!(c.handle(Event::PoolResult(result(9001, &[true])), 92), Ok(Action::Nothing));
    assert_eq!(c.fee_state(), FeeState::AwaitingWindow { since: 91 });
}

#[test]
fn fee_sent_out_of_turn_changes_nothing() {
    let mut c = established(100);
    assert_eq!(c.handle(Event::FeeSent, 5), Ok(Action::Nothing));
    assert_eq!(c.fee_state(), FeeState::Idle);
    assert_eq!(c.fees_in_flight(), 0);
}

#[test]
fn interleaved_submits_never_see_the_fee_reply() {
    let mut c = established(100);
    c.handle(Event::JobBroadcast(notify(&["job"])), 0).unwrap();
    c.handle(Event::Tick, 0).unwrap();
    let a = c.handle(Event::ClientRequest(request(9001, "submit", &["a"])), 1);
    assert_eq!(a, Ok(Action::ToPool(request(101, "submit", &["a"]))));
    assert!(matches!(c.handle(Event::Tick, 60), Ok(Action::InjectFee(_))));
    let b = c.handle(Event::ClientRequest(request(9002, "submit", &["b"])), 61);
    assert_eq!(b, Ok(Action::ToPool(request(102, "submit", &["b"]))));
    c.handle(Event::FeeSent, 61).unwrap();
    assert_eq!(c.handle(Event::PoolResult(result(102, &[true])), 62), Ok(Action::ToClient(result(9002, &[true]))));
    assert_eq!(c.handle(Event::PoolResult(result(9001, &[true])), 63), Ok(Action::Nothing));
    assert_eq!(c.handle(Event::PoolResult(result(101, &[false])), 64), Ok(Action::ToClient(result(9001, &[false]))));
    assert_eq!(c.pending(), 0);
}

#[test]
fn ids_exhausted_is_fatal() {
    let mut c = ConnectionContext::new(settings(i64::MAX - 1)).unwrap();
    c.handle(Event::ClientRequest(request(1, "login", &["0xABC"])), 0).unwrap();
    let out = c.handle(Event::ClientRequest(request(2, "submit", &["n"])), 0);
    assert_eq!(out, Err(RelayError::IdsExhausted));
    assert!(c.is_closed());
    let mut c = ConnectionContext::new(settings(i64::MAX)).unwrap();
    let out = c.handle(Event::ClientRequest(request(1, "login", &["0xABC"])), 0);
    assert_eq!(out, Err(RelayError::IdsExhausted));
    assert_eq!(c.worker(), None);
}

#[test]
fn full_table_drops_the_oldest_request() {
    let mut s = settings(100);
    s.max_pending = 2;
    let mut c = ConnectionContext::new(s).unwrap();
    c.handle(Event::ClientRequest(request(1, "login", &["0xABC"])), 0).unwrap();
    c.handle(Event::ClientRequest(request(2, "submit", &["a"])), 0).unwrap();
    c.handle(Event::ClientRequest(request(3, "submit", &["b"])), 0).unwrap();
    assert_eq!(c.pending(), 2);
    assert_eq!(c.handle(Event::PoolResult(result(100, &[true])), 0), Ok(Action::Nothing));
    assert_eq!(c.handle(Event::PoolResult(result(101, &[true])), 0), Ok(Action::ToClient(result(2, &[true]))));
    assert_eq!(c.handle(Event::PoolResult(result(102, &[true])), 0), Ok(Action::ToClient(result(3, &[true]))));
}

#[test]
fn fee_request_is_wallet_then_job() {
    let job = vec!["j".to_string(), "s".to_string()];
    assert_eq!(
        build_fee_request(9001, &"0xFEE".to_string(), &job),
        request(9001, "submit", &["0xFEE", "j", "s"])
    );
    assert_eq!(
        build_fee_request(-3, &"".to_string(), &Vec::new()),
        request(-3, "submit", &[""])
    );
}

#[test]
fn results_of_other_shapes_are_remapped_too() {
    let mut c = ConnectionContext::new(settings(100)).unwrap();
    c.handle(Event::ClientRequest(request(1, "eth_submitLogin", &["0xABC.rig1"])), 0).unwrap();
    let ack = b"{\"id\":100,\"jsonrpc\":\"2.0\",\"result\":true}".to_vec();
    assert_eq!(
        c.handle(Event::PoolReply { id: 100, frame: ack.clone() }, 0),
        Ok(Action::ReplyToClient { id: 1, frame: ack })
    );
    assert_eq!(c.worker().unwrap().login_completed, true);
    c.handle(Event::ClientRequest(request(44, "eth_getWork", &[])), 1).unwrap();
    let work = b"{\"id\":101,\"result\":[\"0x1\",\"0x2\",\"0x3\"]}".to_vec();
    assert_eq!(
        c.handle(Event::PoolReply { id: 101, frame: work.clone() }, 2),
        Ok(Action::ReplyToClient { id: 44, frame: work.clone() })
    );
    assert_eq!(c.handle(Event::PoolReply { id: 101, frame: work.clone() }, 3), Ok(Action::Nothing));
    assert_eq!(c.handle(Event::PoolReply { id: 9001, frame: work }, 3), Ok(Action::Nothing));
    assert_eq!(c.pending(), 0);
}

#[test]
fn fee_reply_of_another_shape_is_hidden_too() {
    let mut c = established(100);
    c.handle(Event::JobBroadcast(notify(&["job"])), 0).unwrap();
    c.handle(Event::Tick, 0).unwrap();
    assert!(matches!(c.handle(Event::Tick, 60), Ok(Action::InjectFee(_))));
    c.handle(Event::FeeSent, 60).unwrap();
    let reply = b"{\"id\":9001,\"result\":true}".to_vec();
    assert_eq!(c.handle(Event::PoolReply { id: 9001, frame: reply }, 61), Ok(Action::Nothing));
    assert_eq!(c.fee_state(), FeeState::AwaitingWindow { since: 61 });
    assert_eq!(c.fees_in_flight(), 0);
    assert_eq!(c.pending(), 0);
}
