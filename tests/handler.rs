use chainhooks::error::{RelayerError, RpcTypeError};
use chainhooks::handler::{HandlerStep, RelayerHandler};
use chainhooks::registry::{Activation, RPChandler};
use chainhooks::template::RawTransaction;
use chainhooks::types::{EventLog, RelayerCommand, RelayerKey, RpcTypes, SubscriptionType, UserUpdates};
use chainhooks::worker::chainRpc;

const USER: &str = "0x0000000000000000000000000000000000000001";
const OTHER: &str = "0x0000000000000000000000000000000000000002";
const WORD_ABI: &str = r#"[{"type":"function","name":"forward","inputs":[{"name":"who","type":"bytes32"},{"name":"amount","type":"uint256"}],"outputs":[],"stateMutability":"nonpayable"}]"#;
const TARGET: &str = "0xbeefbeefbeefbeefbeefbeefbeefbeefbeefbeef";

fn user_bytes() -> [u8; 20] {
    let mut a = [0u8; 20];
    a[19] = 1;
    a
}

fn key(b: u8) -> RelayerKey {
    RelayerKey { secret: [b; 32], address: [b; 20] }
}

fn forward_template(params: &[&str]) -> RawTransaction {
    let params = params.iter().enumerate().map(|(i, s)| (i, s.to_string())).collect();
    RawTransaction::new(1, TARGET.to_string(), WORD_ABI.to_string(), "forward".to_string(), params)
}

fn log_for(sub: &str) -> RpcTypes {
    RpcTypes::UserLog {
        user: user_bytes(),
        sub_id: sub.to_string(),
        log: EventLog { address: [0xca; 20], topics: vec![[0xdd; 32], [0xaa; 32]], data: vec![] },
    }
}

fn update(n: u8) -> UserUpdates {
    UserUpdates { Message: format!("receipt {n}"), tx: format!("0x{n:02x}") }
}

#[test]
fn register_then_register_again() {
    let mut h = RelayerHandler::new_handler();
    let addr = h.new_relayer(USER.to_string(), key(7)).unwrap();
    assert_eq!(addr, [7; 20]);
    assert!(matches!(h.new_relayer(USER.to_string(), key(8)), Err(RelayerError::AlreadyRegistered)));
    assert_eq!(h.get_relayer_info(USER.to_string()).unwrap(), [7; 20]);
}

#[test]
fn register_command_replies_with_key_address() {
    let mut h = RelayerHandler::new_handler();
    let step = h.handle_command(RelayerCommand::Register { user: USER.to_string() });
    let message = match step {
        HandlerStep::Reply(RpcTypes::Response { success: true, message }) => message,
        _ => panic!("registration failed"),
    };
    assert_eq!(message.len(), 42);
    assert!(message.starts_with("0x"));
    let addr = h.get_relayer_info(USER.to_string()).unwrap();
    assert_eq!(message, alloy::primitives::Address::from(addr).to_string());
    let again = h.handle_command(RelayerCommand::Register { user: USER.to_string() });
    match again {
        HandlerStep::Reply(RpcTypes::Response { success, message }) => {
            assert!(!success);
            assert_eq!(message, "Already Registered");
        }
        _ => panic!("second registration was not refused"),
    }
}

#[test]
fn register_accepts_upper_case_and_refuses_bad_text() {
    let mut h = RelayerHandler::new_handler();
    assert!(matches!(h.new_relayer("0x12".to_string(), key(1)), Err(RelayerError::InvalidAddress)));
    h.new_relayer("0xABCDEFABCDEFABCDEFABCDEFABCDEFABCDEFABCD".to_string(), key(1)).unwrap();
    assert!(matches!(
        h.new_relayer("abcdefabcdefabcdefabcdefabcdefabcdefabcd".to_string(), key(2)),
        Err(RelayerError::AlreadyRegistered)
    ));
}

#[test]
fn unknown_user_is_not_authenticated() {
    let mut h = RelayerHandler::new_handler();
    assert!(matches!(h.get_relayer_info(USER.to_string()), Err(RelayerError::NotAuthenticated)));
    assert!(matches!(h.get_logs(USER.to_string()), Err(RelayerError::NotAuthenticated)));
    assert!(matches!(
        h.define_relayer_action(USER.to_string(), "s1".to_string(), forward_template(&["topic1", "1"])),
        Err(RelayerError::NotAuthenticated)
    ));
}

#[test]
fn log_on_bound_subscription_builds_signed_transaction() {
    let mut h = RelayerHandler::new_handler();
    h.new_relayer(USER.to_string(), key(7)).unwrap();
    h.define_relayer_action(USER.to_string(), "s1".to_string(), forward_template(&["topic1", "100"])).unwrap();
    match h.handle_log(&log_for("s1")).unwrap() {
        Some((chain, SubscriptionType::Transaction { user, signer, tx })) => {
            assert_eq!(chain, 1);
            assert_eq!(user, user_bytes());
            assert_eq!(signer.address, [7; 20]);
            assert_eq!(tx.from, Some([7; 20]));
            assert_eq!(tx.chain_id, Some(1));
            assert_eq!(tx.to, [0xbe, 0xef, 0xbe, 0xef, 0xbe, 0xef, 0xbe, 0xef, 0xbe, 0xef, 0xbe, 0xef, 0xbe, 0xef, 0xbe, 0xef, 0xbe, 0xef, 0xbe, 0xef]);
            assert_eq!(tx.input.len(), 4 + 64);
        }
        _ => panic!("no transaction"),
    }
    assert!(h.handle_log(&log_for("unbound")).unwrap().is_none());
}

#[test]
fn abi_mismatch_drops_the_log() {
    let mut h = RelayerHandler::new_handler();
    h.new_relayer(USER.to_string(), key(7)).unwrap();
    h.define_relayer_action(USER.to_string(), "s1".to_string(), forward_template(&["topic1", "100", "3"])).unwrap();
    assert!(matches!(h.handle_log(&log_for("s1")), Err(RelayerError::InvalidArgsCount)));
}

#[test]
fn duplicate_binding_is_refused() {
    let mut h = RelayerHandler::new_handler();
    h.new_relayer(USER.to_string(), key(7)).unwrap();
    h.new_relayer(OTHER.to_string(), key(8)).unwrap();
    h.define_relayer_action(USER.to_string(), "s1".to_string(), forward_template(&["1", "2"])).unwrap();
    assert!(matches!(
        h.define_relayer_action(OTHER.to_string(), "s1".to_string(), forward_template(&["1", "2"])),
        Err(RelayerError::SubscriptionError)
    ));
}

#[test]
fn revoke_is_final() {
    let mut h = RelayerHandler::new_handler();
    h.new_relayer(USER.to_string(), key(7)).unwrap();
    h.define_relayer_action(USER.to_string(), "s1".to_string(), forward_template(&["topic1", "100"])).unwrap();
    match h.handle_command(RelayerCommand::Revoke_Subscription { user: USER.to_string(), sub_id: "s1".to_string() }) {
        HandlerStep::Forward { chain_id, command: SubscriptionType::Revoke_Sub { user, subs } } => {
            assert_eq!(chain_id, 1);
            assert_eq!(user, user_bytes());
            assert_eq!(subs, "s1");
        }
        _ => panic!("revoke was not forwarded"),
    }
    assert!(h.handle_log(&log_for("s1")).unwrap().is_none());
    assert!(matches!(
        h.revoke_subscription(USER.to_string(), "s1".to_string()),
        Err(RelayerError::NoSubscriptionFound)
    ));
}

#[test]
fn revoke_by_another_user_is_refused() {
    let mut h = RelayerHandler::new_handler();
    h.new_relayer(USER.to_string(), key(7)).unwrap();
    h.new_relayer(OTHER.to_string(), key(8)).unwrap();
    h.define_relayer_action(USER.to_string(), "s1".to_string(), forward_template(&["1", "2"])).unwrap();
    assert!(matches!(
        h.revoke_subscription(OTHER.to_string(), "s1".to_string()),
        Err(RelayerError::NoSubscriptionFound)
    ));
    assert!(h.revoke_subscription(USER.to_string(), "s1".to_string()).is_ok());
}

#[test]
fn get_logs_drains_in_order() {
    let mut h = RelayerHandler::new_handler();
    h.new_relayer(USER.to_string(), key(7)).unwrap();
    h.record_update(&user_bytes(), &[7; 20], update(1));
    h.record_update(&user_bytes(), &[7; 20], update(2));
    let logs = h.get_logs(USER.to_string()).unwrap();
    assert_eq!(logs.len(), 2);
    assert_eq!(logs[0].tx, "0x01");
    assert_eq!(logs[1].tx, "0x02");
    assert_eq!(logs[1].Message, "receipt 2");
    assert!(h.get_logs(USER.to_string()).unwrap().is_empty());
    match h.handle_command(RelayerCommand::GetLogs { user: USER.to_string() }) {
        HandlerStep::Reply(RpcTypes::Logs { logs }) => assert!(logs.is_empty()),
        _ => panic!("no logs reply"),
    }
}

#[test]
fn update_for_unregistered_user_is_dropped() {
    let mut h = RelayerHandler::new_handler();
    h.record_update(&user_bytes(), &[7; 20], update(1));
    h.new_relayer(USER.to_string(), key(7)).unwrap();
    assert!(h.get_logs(USER.to_string()).unwrap().is_empty());
}

#[test]
fn unsupported_chain_changes_nothing() {
    let mut r: RPChandler<u32> = RPChandler::new(vec![1]);
    assert!(r.new_chainstate(1, "ws://one".to_string()));
    assert!(matches!(r.activate(99999), Err(RpcTypeError::ChainNotSupported)));
    assert!(matches!(r.channel(99999), Err(RpcTypeError::ChainNotSupported)));
    assert!(matches!(r.attach_channel(99999, 5), Err(RpcTypeError::ChainNotSupported)));
    assert!(!r.chain_state.contains_key(&99999));
    assert!(!r.chain_state.get(&1).unwrap().active);
}

#[test]
fn registry_starts_a_worker_once() {
    let mut r: RPChandler<u32> = RPChandler::new(vec![1]);
    r.new_chainstate(1, "ws://one".to_string());
    match r.activate(1).unwrap() {
        Activation::Start { url } => assert_eq!(url, "ws://one"),
        Activation::Attach => panic!("worker was not started"),
    }
    assert!(matches!(r.channel(1), Err(RpcTypeError::ChainNotSupported)));
    r.attach_channel(1, 42).unwrap();
    assert_eq!(*r.channel(1).unwrap(), 42);
    assert!(matches!(r.activate(1).unwrap(), Activation::Attach));
    assert!(!r.new_chainstate(1, "ws://other".to_string()));
    assert_eq!(r.chain_state.get(&1).unwrap().chain_url, "ws://one");
}

fn subscription() -> SubscriptionType {
    SubscriptionType::Subscription {
        user: user_bytes(),
        chainid: 1,
        address: vec![[0xca; 20]],
        event_signature: vec!["Transfer(address,address,uint256)".to_string()],
    }
}

#[test]
fn worker_tracks_subscriptions() {
    let mut w = chainRpc::new(1, "0x1".to_string(), subscription()).unwrap();
    assert_eq!(w.subscription_count(), 1);
    w.on_subscribed(subscription(), "0x2".to_string()).unwrap();
    assert_eq!(w.subscription_count(), 2);
    assert!(matches!(w.on_subscribed(subscription(), "0x2".to_string()), Err(RpcTypeError::SubscriptionError)));
    let ev = EventLog { address: [0xca; 20], topics: vec![[1; 32]], data: vec![9] };
    match w.handleevent(ev, "0x2".to_string()).unwrap() {
        RpcTypes::UserLog { user, sub_id, log } => {
            assert_eq!(user, user_bytes());
            assert_eq!(sub_id, "0x2");
            assert_eq!(log.data, vec![9]);
        }
        _ => panic!("no user log"),
    }
    assert!(matches!(w.revoke(&[2; 20], &"0x2".to_string()), Err(RpcTypeError::NoSubscriptionFound)));
    w.revoke(&user_bytes(), &"0x2".to_string()).unwrap();
    assert_eq!(w.subscription_count(), 1);
    let ev = EventLog { address: [0xca; 20], topics: vec![], data: vec![] };
    assert!(matches!(w.handleevent(ev, "0x2".to_string()), Err(RpcTypeError::NoSubscriptionFound)));
}

#[test]
fn worker_refuses_non_subscription_start() {
    let cmd = SubscriptionType::Revoke_Sub { user: user_bytes(), subs: "0x1".to_string() };
    assert!(matches!(chainRpc::new(1, "0x1".to_string(), cmd), Err(RpcTypeError::SubscriptionError)));
}

#[test]
fn user_subscription_list_follows_bindings() {
    let mut h = RelayerHandler::new_handler();
    h.new_relayer(USER.to_string(), key(7)).unwrap();
    h.new_relayer(OTHER.to_string(), key(8)).unwrap();
    h.define_relayer_action(USER.to_string(), "s1".to_string(), forward_template(&["1", "2"])).unwrap();
    h.define_relayer_action(OTHER.to_string(), "s2".to_string(), forward_template(&["1", "2"])).unwrap();
    h.define_relayer_action(USER.to_string(), "s3".to_string(), forward_template(&["1", "2"])).unwrap();
    assert_eq!(h.subscription_ids(&USER.to_string()).unwrap(), vec!["s1".to_string(), "s3".to_string()]);
    assert_eq!(h.subscription_ids(&OTHER.to_string()).unwrap(), vec!["s2".to_string()]);
    h.revoke_subscription(USER.to_string(), "s1".to_string()).unwrap();
    assert_eq!(h.subscription_ids(&USER.to_string()).unwrap(), vec!["s3".to_string()]);
    assert!(!h.is_bound("s1"));
    assert!(h.is_bound("s3"));
}

#[test]
fn worker_lists_ids_by_user() {
    let mut w = chainRpc::new(1, "0x1".to_string(), subscription()).unwrap();
    w.on_subscribed(subscription(), "0x2".to_string()).unwrap();
    assert_eq!(w.ids_of(&user_bytes()).unwrap(), vec!["0x1".to_string(), "0x2".to_string()]);
    w.revoke(&user_bytes(), &"0x1".to_string()).unwrap();
    assert_eq!(w.ids_of(&user_bytes()).unwrap(), vec!["0x2".to_string()]);
}

#[test]
fn update_from_another_key_is_dropped() {
    let mut h = RelayerHandler::new_handler();
    h.new_relayer(USER.to_string(), key(7)).unwrap();
    h.record_update(&user_bytes(), &[9; 20], update(1));
    assert!(h.get_logs(USER.to_string()).unwrap().is_empty());
    h.record_update(&user_bytes(), &[7; 20], update(2));
    assert_eq!(h.get_logs(USER.to_string()).unwrap().len(), 1);
}

#[test]
fn worker_refuses_subscription_of_another_chain() {
    let mut w = chainRpc::new(1, "0x1".to_string(), subscription()).unwrap();
    let other = SubscriptionType::Subscription {
        user: user_bytes(),
        chainid: 137,
        address: vec![[0xca; 20]],
        event_signature: vec![],
    };
    assert!(matches!(w.on_subscribed(other, "0x2".to_string()), Err(RpcTypeError::SubscriptionError)));
    assert_eq!(w.subscription_count(), 1);
    assert_eq!(w.chain_id(), 1);
    assert!(!w.is_live("0x2"));
}

#[test]
fn define_command_stores_the_template() {
    let mut h = RelayerHandler::new_handler();
    h.new_relayer(USER.to_string(), key(7)).unwrap();
    let params = vec![(0, "topic1".to_string()), (1, "100".to_string())];
    let step = h.handle_command(RelayerCommand::DefineRelayerAction {
        user: USER.to_string(),
        sub_id: "s1".to_string(),
        chainid: 1,
        target_address: TARGET.to_string(),
        ABI: WORD_ABI.to_string(),
        function_name: "forward".to_string(),
        Params: params,
    });
    assert!(matches!(step, HandlerStep::Reply(RpcTypes::Response { success: true, .. })));
    assert_eq!(h.subscription_ids(&USER.to_string()).unwrap(), vec!["s1".to_string()]);
    assert!(h.handle_log(&log_for("s1")).unwrap().is_some());
}
