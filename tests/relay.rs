use alloy::signers::SignerSync;
use chainhooks::auth::UserTx;
use chainhooks::error::{RelayerError, RpcTypeError};
use chainhooks::relay::{Relay, RelayError};
use chainhooks::template::RawTransaction;
use chainhooks::types::{EventLog, RelayerKey, SubscriptionType};

const USER: &str = "0x0000000000000000000000000000000000000001";
const WORD_ABI: &str = r#"[{"type":"function","name":"forward","inputs":[{"name":"who","type":"bytes32"},{"name":"amount","type":"uint256"}],"outputs":[],"stateMutability":"nonpayable"}]"#;
const ADDRESS_ABI: &str = r#"[{"type":"function","name":"forward","inputs":[{"name":"to","type":"address"},{"name":"amount","type":"uint256"}],"outputs":[],"stateMutability":"nonpayable"}]"#;
const TARGET: &str = "0xBeeFbeefbEefbeEFbeEfbEEfBEeFbeEfBeEfBeef";

fn relay_with_user() -> Relay {
    let mut r = Relay::new(vec![1, 137]);
    r.handler.new_relayer(USER.to_string(), RelayerKey { secret: [3; 32], address: [3; 20] }).unwrap();
    r
}

fn template(chain: usize, abi: &str, params: &[&str]) -> RawTransaction {
    let params = params.iter().enumerate().map(|(i, s)| (i, s.to_string())).collect();
    RawTransaction::new(chain, TARGET.to_string(), abi.to_string(), "forward".to_string(), params)
}

fn subscribe(r: &mut Relay, chain: usize, id: &str, t: RawTransaction) -> Result<(), RelayError> {
    r.subscribe(
        USER.to_string(),
        chain,
        vec![[0xca; 20]],
        vec!["Transfer(address,address,uint256)".to_string()],
        id.to_string(),
        t,
    )
}

fn transfer_log() -> EventLog {
    EventLog { address: [0xca; 20], topics: vec![[0xdd; 32], [0xaa; 32], [0xbb; 32]], data: vec![0; 32] }
}

fn live_on(r: &Relay, chain: usize, id: &str) -> bool {
    match r.workers.get(&chain) {
        Some(w) => w.is_live(id),
        None => false,
    }
}

#[test]
fn subscribe_and_fire_with_missing_topic() {
    let mut r = relay_with_user();
    subscribe(&mut r, 1, "0x1", template(1, ADDRESS_ABI, &["topic1", "topic3"])).unwrap();
    let out = r.deliver(1, "0x1".to_string(), transfer_log());
    assert!(matches!(out, Err(RelayError::Relayer(RelayerError::TopicOutOfIndex))));
}

#[test]
fn subscribe_and_fire_sends_to_the_same_chain() {
    let mut r = relay_with_user();
    subscribe(&mut r, 1, "0x1", template(1, WORD_ABI, &["topic1", "100"])).unwrap();
    match r.deliver(1, "0x1".to_string(), transfer_log()).unwrap() {
        Some((chain, SubscriptionType::Transaction { signer, tx, .. })) => {
            assert_eq!(chain, 1);
            assert_eq!(signer.address, [3; 20]);
            assert_eq!(tx.from, Some([3; 20]));
            assert_eq!(tx.chain_id, Some(1));
        }
        _ => panic!("no transaction"),
    }
}

#[test]
fn bound_exactly_when_live_on_one_chain() {
    let mut r = relay_with_user();
    subscribe(&mut r, 1, "0x1", template(1, WORD_ABI, &["1", "2"])).unwrap();
    assert!(r.handler.is_bound("0x1"));
    assert!(live_on(&r, 1, "0x1"));
    assert!(!live_on(&r, 137, "0x1"));
    assert!(matches!(
        subscribe(&mut r, 137, "0x1", template(137, WORD_ABI, &["1", "2"])),
        Err(RelayError::Rpc(RpcTypeError::SubscriptionError))
    ));
    assert!(!live_on(&r, 137, "0x1"));
    r.unsubscribe(USER.to_string(), "0x1".to_string()).unwrap();
    assert!(!r.handler.is_bound("0x1"));
    assert!(!live_on(&r, 1, "0x1"));
}

#[test]
fn unsubscribe_race_either_order() {
    let mut r = relay_with_user();
    subscribe(&mut r, 1, "0x1", template(1, WORD_ABI, &["topic1", "100"])).unwrap();
    assert!(r.deliver(1, "0x1".to_string(), transfer_log()).unwrap().is_some());
    r.unsubscribe(USER.to_string(), "0x1".to_string()).unwrap();
    assert!(matches!(
        r.deliver(1, "0x1".to_string(), transfer_log()),
        Err(RelayError::Rpc(RpcTypeError::NoSubscriptionFound))
    ));
    assert!(matches!(
        r.unsubscribe(USER.to_string(), "0x1".to_string()),
        Err(RelayError::Relayer(RelayerError::NoSubscriptionFound))
    ));
}

#[test]
fn unsupported_chain_mutates_nothing() {
    let mut r = relay_with_user();
    assert!(matches!(
        subscribe(&mut r, 99999, "0x1", template(99999, WORD_ABI, &["1", "2"])),
        Err(RelayError::Rpc(RpcTypeError::ChainNotSupported))
    ));
    assert!(!r.handler.is_bound("0x1"));
    assert!(r.workers.is_empty());
    assert!(r.sub_chain.is_empty());
}

#[test]
fn template_chain_must_match() {
    let mut r = relay_with_user();
    assert!(matches!(
        subscribe(&mut r, 1, "0x1", template(137, WORD_ABI, &["1", "2"])),
        Err(RelayError::Relayer(RelayerError::InvalidTransactionRequest))
    ));
    assert!(r.workers.is_empty());
}

#[test]
fn unregistered_user_cannot_subscribe() {
    let mut r = Relay::new(vec![1]);
    assert!(matches!(
        subscribe(&mut r, 1, "0x1", template(1, WORD_ABI, &["1", "2"])),
        Err(RelayError::Relayer(RelayerError::NotAuthenticated))
    ));
}

#[test]
fn deliver_on_unknown_chain() {
    let r = relay_with_user();
    assert!(matches!(
        r.deliver(5, "0x1".to_string(), transfer_log()),
        Err(RelayError::Rpc(RpcTypeError::ChainNotSupported))
    ));
}

#[test]
fn signature_over_nonce_authenticates() {
    let signer = alloy::signers::local::PrivateKeySigner::from_bytes(&[7u8; 32].into()).unwrap();
    let nonce = "0123456789abcdef0123456789abcdef";
    let sig = signer.sign_message_sync(nonce.as_bytes()).unwrap();
    let sig_text = alloy::hex::encode(sig.as_bytes());
    let tx = UserTx::new(signer.address().to_string(), sig_text.clone()).unwrap();
    assert!(tx.VerifyUser(nonce.to_string()));
    assert!(!tx.VerifyUser("another nonce".to_string()));
    let other = UserTx::new(USER.to_string(), sig_text).unwrap();
    assert!(!other.VerifyUser(nonce.to_string()));
    let garbage = UserTx::new(USER.to_string(), "zz".to_string()).unwrap();
    assert!(!garbage.VerifyUser(nonce.to_string()));
    assert!(UserTx::new("0x01".to_string(), String::new()).is_none());
}

#[test]
fn signature_with_raw_parity_byte_authenticates() {
    let signer = alloy::signers::local::PrivateKeySigner::from_bytes(&[9u8; 32].into()).unwrap();
    let nonce = "fedcba9876543210fedcba9876543210";
    let mut bytes = signer.sign_message_sync(nonce.as_bytes()).unwrap().as_bytes();
    bytes[64] -= 27;
    let tx = UserTx::new(signer.address().to_string(), format!("0x{}", alloy::hex::encode(bytes))).unwrap();
    assert!(tx.VerifyUser(nonce.to_string()));
    bytes[64] = 5;
    let bad = UserTx::new(signer.address().to_string(), alloy::hex::encode(bytes)).unwrap();
    assert!(!bad.VerifyUser(nonce.to_string()));
}
