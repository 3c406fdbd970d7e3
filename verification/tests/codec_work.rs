use bytes::BytesMut;
use stratum_proxy::envelope::sign;
use stratum_proxy::keys::{PublicKey, SecretKey, Signature};
use stratum_proxy::payload::{Transaction, TxOut};
use stratum_proxy::wire::Decoded;
use stratum_proxy::work::{
    read_work_message, BlockTemplate, CoinbasePrefixPostfix, TransactionData, WinningNonce,
    WorkMessage, WorkMsgFramer,
};

fn secret() -> SecretKey {
    SecretKey { bytes: [1u8; 32] }
}

fn public() -> PublicKey {
    PublicKey::from_secret_key(&secret()).unwrap()
}

fn some_signature() -> Signature {
    sign(&secret(), 3, &[1, 2, 3]).unwrap()
}

fn raw_transaction() -> Vec<u8> {
    let mut raw: Vec<u8> = vec![1, 0, 0, 0, 1];
    raw.extend_from_slice(&[0u8; 32]);
    raw.extend_from_slice(&[0xff, 0xff, 0xff, 0xff, 0]);
    raw.extend_from_slice(&[0xff, 0xff, 0xff, 0xff, 1]);
    raw.extend_from_slice(&[0u8; 8]);
    raw.extend_from_slice(&[0, 0, 0, 0, 0]);
    raw
}

fn transaction() -> Transaction {
    Transaction::from_raw(raw_transaction()).unwrap()
}

fn template() -> BlockTemplate {
    BlockTemplate {
        template_id: 0x0102_0304_0506_0708,
        target: [0x11; 32],
        header_version: 0x2000_0000,
        header_prevblock: [0x22; 32],
        header_time: 1_525_000_000,
        header_nbits: 0x1d00_ffff,
        merkle_rhss: vec![[0x33; 32], [0x44; 32]],
        coinbase_value_remaining: 5_000_000_000,
        coinbase_version: 2,
        coinbase_prefix: vec![3, 1, 2, 3],
        coinbase_input_sequence: 0xffff_fffe,
        appended_coinbase_outputs: vec![
            TxOut { value: 7, script_pubkey: vec![0x6a] },
            TxOut { value: 0, script_pubkey: vec![] },
        ],
        coinbase_locktime: 9,
    }
}

fn encoded(msg: WorkMessage) -> Vec<u8> {
    let mut framer = WorkMsgFramer::new();
    let mut buf = BytesMut::new();
    framer.encode(msg, &mut buf).unwrap();
    buf[..].to_vec()
}

fn round_trips(msg: WorkMessage) {
    let mut framer = WorkMsgFramer::new();
    let mut buf = BytesMut::new();
    framer.encode(msg.clone(), &mut buf).unwrap();
    let len = buf.len();
    buf.extend_from_slice(&[0xaa, 0xbb]);
    let back = framer.decode(&mut buf).unwrap();
    assert_eq!(back, Some(msg.clone()));
    assert_eq!(&buf[..], &[0xaa, 0xbb]);
    let bytes = encoded(msg);
    assert_eq!(bytes.len(), len);
    for k in 0..len {
        let mut part = BytesMut::new();
        part.extend_from_slice(&bytes[..k]);
        assert_eq!(framer.decode(&mut part).unwrap(), None);
        assert_eq!(&part[..], &bytes[..k]);
    }
}

#[test]
fn protocol_support_is_seven_bytes_little_endian() {
    let bytes = encoded(WorkMessage::ProtocolSupport {
        max_version: 0x0201,
        min_version: 1,
        flags: 0x8000,
    });
    assert_eq!(bytes, vec![1, 0x01, 0x02, 0x01, 0x00, 0x00, 0x80]);
}

#[test]
fn work_protocol_support_round_trips() {
    round_trips(WorkMessage::ProtocolSupport { max_version: 1, min_version: 1, flags: 1 });
}

#[test]
fn work_protocol_version_round_trips() {
    round_trips(WorkMessage::ProtocolVersion { selected_version: 1, auth_key: public() });
}

#[test]
fn block_template_round_trips() {
    round_trips(WorkMessage::BlockTemplate { signature: some_signature(), template: template() });
}

#[test]
fn winning_nonce_round_trips() {
    round_trips(WorkMessage::WinningNonce {
        nonces: WinningNonce {
            template_id: 77,
            header_version: 1,
            header_time: 2,
            header_nonce: 3,
            coinbase_tx: transaction(),
        },
    });
}

#[test]
fn transaction_data_request_round_trips() {
    round_trips(WorkMessage::TransactionDataRequest { template_id: u64::MAX });
}

#[test]
fn transaction_data_round_trips() {
    round_trips(WorkMessage::TransactionData {
        signature: some_signature(),
        data: TransactionData { template_id: 5, transactions: vec![transaction(), transaction()] },
    });
    round_trips(WorkMessage::TransactionData {
        signature: some_signature(),
        data: TransactionData { template_id: 5, transactions: vec![] },
    });
}

#[test]
fn coinbase_prefix_postfix_round_trips() {
    round_trips(WorkMessage::CoinbasePrefixPostfix {
        signature: some_signature(),
        coinbase_prefix_postfix: CoinbasePrefixPostfix {
            timestamp: 1_525_000_000_123,
            coinbase_prefix_postfix: vec![9; 100],
        },
    });
}

#[test]
fn block_template_layout_is_as_documented() {
    let t = template();
    let bytes = t.unsigned_bytes();
    assert_eq!(&bytes[0..8], &[8, 7, 6, 5, 4, 3, 2, 1]);
    assert_eq!(&bytes[8..40], &[0x11; 32]);
    assert_eq!(&bytes[40..44], &[0, 0, 0, 0x20]);
    assert_eq!(&bytes[44..76], &[0x22; 32]);
    assert_eq!(bytes[84], 2);
    assert_eq!(&bytes[85..117], &[0x33; 32]);
    assert_eq!(&bytes[117..149], &[0x44; 32]);
    assert_eq!(&bytes[149..157], &5_000_000_000u64.to_le_bytes());
    assert_eq!(&bytes[157..161], &[2, 0, 0, 0]);
    assert_eq!(&bytes[161..166], &[4, 3, 1, 2, 3]);
    assert_eq!(&bytes[166..170], &[0xfe, 0xff, 0xff, 0xff]);
    assert_eq!(bytes[170], 2);
    assert_eq!(&bytes[171..182], &[7, 0, 0, 0, 0, 0, 0, 0, 1, 0, 0x6a]);
    assert_eq!(&bytes[182..192], &[0, 0, 0, 0, 0, 0, 0, 0, 0, 0]);
    assert_eq!(&bytes[192..196], &[9, 0, 0, 0]);
    assert_eq!(bytes.len(), 196);
}

#[test]
fn sixteen_merkle_rhss_are_a_decode_error() {
    let mut t = template();
    t.merkle_rhss = vec![[0u8; 32]; 15];
    let msg = WorkMessage::BlockTemplate { signature: some_signature(), template: t };
    let mut bytes = encoded(msg);
    assert!(matches!(read_work_message(&bytes), Decoded::Complete(_, _)));
    assert_eq!(bytes[1 + 64 + 84], 15);
    bytes[1 + 64 + 84] = 16;
    bytes.extend_from_slice(&[0u8; 64]);
    let mut framer = WorkMsgFramer::new();
    let mut buf = BytesMut::new();
    buf.extend_from_slice(&bytes);
    assert!(framer.decode(&mut buf).is_err());
    assert_eq!(&buf[..], &bytes[..]);
}

#[test]
fn a_coinbase_prefix_of_101_bytes_is_a_decode_error() {
    let mut t = template();
    t.merkle_rhss = vec![];
    t.coinbase_prefix = vec![0u8; 100];
    let msg = WorkMessage::BlockTemplate { signature: some_signature(), template: t };
    let mut bytes = encoded(msg);
    assert!(matches!(read_work_message(&bytes), Decoded::Complete(_, _)));
    let at = 1 + 64 + 84 + 1 + 12;
    assert_eq!(bytes[at], 100);
    bytes[at] = 101;
    bytes.push(0);
    assert_eq!(read_work_message(&bytes), Decoded::Invalid);
}

#[test]
fn a_template_that_breaks_the_bounds_is_not_encoded() {
    let mut framer = WorkMsgFramer::new();
    let mut buf = BytesMut::new();
    buf.extend_from_slice(&[5]);
    let mut t = template();
    t.merkle_rhss = vec![[0u8; 32]; 16];
    let msg = WorkMessage::BlockTemplate { signature: some_signature(), template: t };
    assert!(framer.encode(msg, &mut buf).is_err());
    let mut t = template();
    t.coinbase_prefix = vec![0u8; 101];
    let msg = WorkMessage::BlockTemplate { signature: some_signature(), template: t };
    assert!(framer.encode(msg, &mut buf).is_err());
    assert_eq!(&buf[..], &[5]);
}

#[test]
fn unknown_work_tags_are_fatal() {
    assert_eq!(read_work_message(&[0]), Decoded::Invalid);
    assert_eq!(read_work_message(&[8, 1, 2, 3]), Decoded::Invalid);
    assert_eq!(read_work_message(&[255]), Decoded::Invalid);
    assert_eq!(read_work_message(&[]), Decoded::NeedMore);
}

#[test]
fn a_key_that_is_no_point_is_a_decode_error() {
    let mut bytes = vec![2, 1, 0];
    bytes.extend_from_slice(&[0u8; 33]);
    assert_eq!(read_work_message(&bytes), Decoded::Invalid);
}

#[test]
fn a_signature_out_of_range_is_a_decode_error() {
    let mut bytes = vec![7];
    bytes.extend_from_slice(&[0xff; 64]);
    assert_eq!(read_work_message(&bytes), Decoded::Invalid);
}

#[test]
fn bytes_that_are_no_transaction_are_a_decode_error() {
    let mut bytes = vec![4];
    bytes.extend_from_slice(&[0u8; 20]);
    bytes.extend_from_slice(&[3, 0, 0, 0, 1, 2, 3]);
    assert_eq!(read_work_message(&bytes), Decoded::Invalid);
    assert_eq!(Transaction::from_raw(vec![1, 2, 3]), None);
    assert_eq!(Transaction::from_raw(raw_transaction()).map(|t| t.raw), Some(raw_transaction()));
}

#[test]
fn two_messages_in_one_buffer_come_out_in_order() {
    let mut framer = WorkMsgFramer::new();
    let mut buf = BytesMut::new();
    let first = WorkMessage::TransactionDataRequest { template_id: 1 };
    let second = WorkMessage::ProtocolSupport { max_version: 1, min_version: 1, flags: 0 };
    framer.encode(first.clone(), &mut buf).unwrap();
    framer.encode(second.clone(), &mut buf).unwrap();
    assert_eq!(framer.decode(&mut buf).unwrap(), Some(first));
    assert_eq!(framer.decode(&mut buf).unwrap(), Some(second));
    assert_eq!(framer.decode(&mut buf).unwrap(), None);
    assert_eq!(buf.len(), 0);
}
