use alloy::dyn_abi::{DynSolValue, JsonAbiExt};
use alloy::json_abi::JsonAbi;
use alloy::primitives::U256;
use chainhooks::error::RelayerError;
use chainhooks::hexfmt::prefixed_hex;
use chainhooks::template::{resolve_args, resolve_slot, RawTransaction};
use chainhooks::types::EventLog;

const FORWARD_ADDRESS_ABI: &str = r#"[{"type":"function","name":"forward","inputs":[{"name":"to","type":"address"},{"name":"amount","type":"uint256"}],"outputs":[],"stateMutability":"nonpayable"}]"#;
const FORWARD_WORD_ABI: &str = r#"[{"type":"function","name":"forward","inputs":[{"name":"who","type":"bytes32"},{"name":"amount","type":"uint256"}],"outputs":[],"stateMutability":"nonpayable"}]"#;
const TARGET: &str = "0xBeeFbeefbEefbeEFbeEfbEEfBEeFbeEfBeEfBeef";

fn word(b: u8) -> [u8; 32] {
    [b; 32]
}

fn transfer_log() -> EventLog {
    EventLog { address: [0xca; 20], topics: vec![word(0xdd), word(0xaa), word(0xbb)], data: vec![0; 32] }
}

fn slots(items: &[&str]) -> Vec<(usize, String)> {
    items.iter().enumerate().map(|(i, s)| (i, s.to_string())).collect()
}

fn template(abi: &str, params: &[&str]) -> RawTransaction {
    RawTransaction::new(1, TARGET.to_string(), abi.to_string(), "forward".to_string(), slots(params))
}

#[test]
fn hex_rendering_of_bytes() {
    assert_eq!(prefixed_hex(&[0x00, 0x0f, 0xa0, 0xff]), "0x000fa0ff");
    assert_eq!(prefixed_hex(&[]), "0x");
}

#[test]
fn topic_slot_takes_topic_at_index() {
    let topics = vec![word(0xdd), word(0xaa)];
    let v = resolve_slot(&"topic1".to_string(), &topics, &"bytes32".to_string()).unwrap();
    assert_eq!(v, format!("0x{}", "aa".repeat(32)));
    let v0 = resolve_slot(&"topic0".to_string(), &topics, &"bytes32".to_string()).unwrap();
    assert_eq!(v0, format!("0x{}", "dd".repeat(32)));
}

#[test]
fn literal_slot_is_kept() {
    let topics = vec![word(1)];
    assert_eq!(resolve_slot(&"100".to_string(), &topics, &String::new()).unwrap(), "100");
    assert_eq!(resolve_slot(&"top".to_string(), &topics, &String::new()).unwrap(), "top");
}

#[test]
fn topic_slot_out_of_range() {
    let topics = vec![word(0xdd), word(0xaa), word(0xbb)];
    assert!(matches!(resolve_slot(&"topic3".to_string(), &topics, &String::new()), Err(RelayerError::TopicOutOfIndex)));
    assert!(matches!(
        resolve_slot(&"topic99999999999999999999999".to_string(), &topics, &String::new()),
        Err(RelayerError::TopicOutOfIndex)
    ));
    assert!(matches!(resolve_slot(&"topic0".to_string(), &vec![], &String::new()), Err(RelayerError::TopicOutOfIndex)));
}

#[test]
fn topic_slot_without_index() {
    let topics = vec![word(0xdd)];
    assert!(matches!(resolve_slot(&"topic".to_string(), &topics, &String::new()), Err(RelayerError::InvalidTopicMapping)));
    assert!(matches!(resolve_slot(&"topicx1".to_string(), &topics, &String::new()), Err(RelayerError::InvalidTopicMapping)));
    assert!(matches!(resolve_slot(&"topic1x".to_string(), &topics, &String::new()), Err(RelayerError::InvalidTopicMapping)));
}

#[test]
fn first_failing_slot_decides() {
    let topics = vec![word(0xdd)];
    let r = resolve_args(&slots(&["topic", "topic5"]), &topics, &vec![]);
    assert!(matches!(r, Err(RelayerError::InvalidTopicMapping)));
    let r = resolve_args(&slots(&["topic5", "topic"]), &topics, &vec![]);
    assert!(matches!(r, Err(RelayerError::TopicOutOfIndex)));
    let ok = resolve_args(&slots(&["7", "topic0"]), &topics, &vec!["uint8".to_string(), "bytes32".to_string()]).unwrap();
    assert_eq!(ok, vec!["7".to_string(), format!("0x{}", "dd".repeat(32))]);
}

#[test]
fn subscribe_and_fire_missing_topic() {
    let t = template(FORWARD_ADDRESS_ABI, &["topic1", "topic3"]);
    assert!(matches!(t.build_transaction(&transfer_log()), Err(RelayerError::TopicOutOfIndex)));
}

#[test]
fn subscribe_and_fire_corrected_params() {
    let t = template(FORWARD_WORD_ABI, &["topic1", "100"]);
    let tx = t.build_transaction(&transfer_log()).unwrap();
    assert_eq!(tx.to, [0xbe, 0xef, 0xbe, 0xef, 0xbe, 0xef, 0xbe, 0xef, 0xbe, 0xef, 0xbe, 0xef, 0xbe, 0xef, 0xbe, 0xef, 0xbe, 0xef, 0xbe, 0xef]);
    assert_eq!(tx.chain_id, Some(1));
    assert_eq!(tx.from, None);
    let abi: JsonAbi = serde_json::from_str(FORWARD_WORD_ABI).unwrap();
    let f = &abi.function("forward").unwrap()[0];
    assert_eq!(&tx.input[..4], f.selector().as_slice());
    let decoded = f.abi_decode_input(&tx.input[4..]).unwrap();
    assert_eq!(decoded[0], DynSolValue::FixedBytes(alloy::primitives::B256::from([0xaa; 32]), 32));
    assert_eq!(decoded[1], DynSolValue::Uint(U256::from(100u64), 256));
}

#[test]
fn template_round_trip_literals() {
    let t = template(FORWARD_ADDRESS_ABI, &["0x00000000000000000000000000000000000000aa", "42"]);
    let tx = t.build_transaction(&transfer_log()).unwrap();
    let abi: JsonAbi = serde_json::from_str(FORWARD_ADDRESS_ABI).unwrap();
    let f = &abi.function("forward").unwrap()[0];
    let decoded = f.abi_decode_input(&tx.input[4..]).unwrap();
    let mut who = [0u8; 20];
    who[19] = 0xaa;
    assert_eq!(decoded, vec![DynSolValue::Address(who.into()), DynSolValue::Uint(U256::from(42u64), 256)]);
}

#[test]
fn subscribe_and_fire_address_input() {
    let t = template(FORWARD_ADDRESS_ABI, &["topic1", "100"]);
    let tx = t.build_transaction(&transfer_log()).unwrap();
    let abi: JsonAbi = serde_json::from_str(FORWARD_ADDRESS_ABI).unwrap();
    let f = &abi.function("forward").unwrap()[0];
    let decoded = f.abi_decode_input(&tx.input[4..]).unwrap();
    assert_eq!(decoded, vec![DynSolValue::Address([0xaa; 20].into()), DynSolValue::Uint(U256::from(100u64), 256)]);
}

#[test]
fn topic_into_address_input_takes_low_bytes() {
    let mut word = [0u8; 32];
    word[12..].copy_from_slice(&[0x11; 20]);
    let topics = vec![[0xdd; 32], word];
    let v = resolve_slot(&"topic1".to_string(), &topics, &"address".to_string()).unwrap();
    assert_eq!(v, format!("0x{}", "11".repeat(20)));
    let full = resolve_slot(&"topic1".to_string(), &topics, &"uint256".to_string()).unwrap();
    assert_eq!(full, format!("0x{}{}", "00".repeat(12), "11".repeat(20)));
}

#[test]
fn abi_mismatch_args_count() {
    let t = template(FORWARD_ADDRESS_ABI, &["topic1", "100", "7"]);
    assert!(matches!(t.build_transaction(&transfer_log()), Err(RelayerError::InvalidArgsCount)));
}

#[test]
fn invalid_abi_text() {
    let t = template("not json", &["1"]);
    assert!(matches!(t.build_transaction(&transfer_log()), Err(RelayerError::InvalidABI)));
}

#[test]
fn unknown_function() {
    let t = RawTransaction::new(1, TARGET.to_string(), FORWARD_ADDRESS_ABI.to_string(), "missing".to_string(), slots(&["1"]));
    assert!(matches!(t.build_transaction(&transfer_log()), Err(RelayerError::FunctionNotFound)));
}

#[test]
fn invalid_target_address() {
    let t = RawTransaction::new(
        1,
        "0x1234".to_string(),
        FORWARD_ADDRESS_ABI.to_string(),
        "forward".to_string(),
        slots(&["0x00000000000000000000000000000000000000aa", "1"]),
    );
    assert!(matches!(t.build_transaction(&transfer_log()), Err(RelayerError::InvalidAddress)));
}

#[test]
fn target_address_is_checked_last() {
    let log = transfer_log();
    let bad = |abi: &str, function: &str, params: &[&str]| {
        RawTransaction::new(1, "nonsense".to_string(), abi.to_string(), function.to_string(), slots(params))
            .build_transaction(&log)
    };
    assert!(matches!(bad("not json", "forward", &["1", "2"]), Err(RelayerError::InvalidABI)));
    assert!(matches!(bad(FORWARD_ADDRESS_ABI, "missing", &["1", "2"]), Err(RelayerError::FunctionNotFound)));
    assert!(matches!(bad(FORWARD_ADDRESS_ABI, "forward", &["topicX", "2"]), Err(RelayerError::InvalidTopicMapping)));
    assert!(matches!(bad(FORWARD_ADDRESS_ABI, "forward", &["topic9", "2"]), Err(RelayerError::TopicOutOfIndex)));
    assert!(matches!(bad(FORWARD_ADDRESS_ABI, "forward", &["1"]), Err(RelayerError::InvalidArgsCount)));
    assert!(matches!(bad(FORWARD_ADDRESS_ABI, "forward", &["1", "2"]), Err(RelayerError::InvalidDataType)));
}

#[test]
fn bad_literal_type() {
    let t = template(FORWARD_ADDRESS_ABI, &["0x00000000000000000000000000000000000000aa", "lots"]);
    assert!(matches!(t.build_transaction(&transfer_log()), Err(RelayerError::InvalidDataType)));
}

#[test]
fn convert_checks_count_then_types() {
    let t = template(FORWARD_ADDRESS_ABI, &[]);
    let types = vec!["uint256".to_string(), "bool".to_string()];
    assert!(matches!(t.convert_strings_to_sol_values(&vec!["1".to_string()], &types), Err(RelayerError::InvalidArgsCount)));
    assert!(matches!(
        t.convert_strings_to_sol_values(&vec!["1".to_string(), "maybe".to_string()], &types),
        Err(RelayerError::InvalidDataType)
    ));
    assert!(t.convert_strings_to_sol_values(&vec!["1".to_string(), "true".to_string()], &types).is_ok());
}

#[test]
fn error_messages() {
    assert_eq!(RelayerError::TopicOutOfIndex.message(), "Topic Range Out of Index");
    assert_eq!(RelayerError::AlreadyRegistered.message(), "Already Registered");
    assert_eq!(chainhooks::error::RpcTypeError::ChainNotSupported.message(), "Chain is Not Supported");
}
