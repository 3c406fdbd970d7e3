use bytes::BytesMut;
use stratum_proxy::envelope::sign;
use stratum_proxy::keys::{PublicKey, SecretKey, Signature};
use stratum_proxy::payload::{Transaction, TxOut};
use stratum_proxy::pool::{
    read_pool_message, PoolDifficulty, PoolMessage, PoolMsgFramer, PoolPayoutInfo, PoolShare,
    WeakBlock, WeakBlockAction,
};
use stratum_proxy::wire::Decoded;

fn pool_secret() -> SecretKey {
    SecretKey { bytes: [2u8; 32] }
}

fn pool_signature() -> Signature {
    sign(&pool_secret(), 3, &[]).unwrap()
}

fn small_transaction() -> Transaction {
    let mut raw: Vec<u8> = vec![1, 0, 0, 0, 1];
    raw.extend_from_slice(&[0u8; 32]);
    raw.extend_from_slice(&[0xff, 0xff, 0xff, 0xff, 0]);
    raw.extend_from_slice(&[0xff, 0xff, 0xff, 0xff, 1]);
    raw.extend_from_slice(&[0u8; 8]);
    raw.extend_from_slice(&[0, 0, 0, 0, 0]);
    Transaction::from_raw(raw).unwrap()
}

fn payout_info() -> PoolPayoutInfo {
    PoolPayoutInfo {
        timestamp: 1,
        self_payout_ratio_per_1000: 100,
        coinbase_postfix: vec![],
        remaining_payout: vec![0x6a],
        appended_outputs: vec![],
    }
}

fn pool_encoded(msg: PoolMessage) -> Vec<u8> {
    let mut framer = PoolMsgFramer::new();
    let mut buf = BytesMut::new();
    framer.encode(msg, &mut buf).unwrap();
    buf[..].to_vec()
}

fn pool_round_trips(msg: PoolMessage) {
    let mut framer = PoolMsgFramer::new();
    let bytes = pool_encoded(msg.clone());
    let mut buf = BytesMut::new();
    buf.extend_from_slice(&bytes);
    buf.extend_from_slice(&[1, 2, 3]);
    assert_eq!(framer.decode(&mut buf).unwrap(), Some(msg));
    assert_eq!(&buf[..], &[1, 2, 3]);
    for k in 0..bytes.len() {
        let mut part = BytesMut::new();
        part.extend_from_slice(&bytes[..k]);
        assert_eq!(framer.decode(&mut part).unwrap(), None);
        assert_eq!(&part[..], &bytes[..k]);
    }
}

#[test]
fn pool_protocol_support_round_trips() {
    pool_round_trips(PoolMessage::ProtocolSupport { max_version: 3, min_version: 1, flags: 0 });
}

#[test]
fn pool_protocol_version_round_trips() {
    let auth_key = PublicKey::from_secret_key(&pool_secret()).unwrap();
    pool_round_trips(PoolMessage::ProtocolVersion { selected_version: 1, auth_key });
}

#[test]
fn payout_info_round_trips() {
    pool_round_trips(PoolMessage::PayoutInfo {
        signature: pool_signature(),
        payout_info: payout_info(),
    });
    pool_round_trips(PoolMessage::PayoutInfo {
        signature: pool_signature(),
        payout_info: PoolPayoutInfo {
            timestamp: u64::MAX,
            self_payout_ratio_per_1000: 1000,
            coinbase_postfix: vec![7; 100],
            remaining_payout: vec![0x51; 300],
            appended_outputs: vec![TxOut { value: 21, script_pubkey: vec![1, 2] }],
        },
    });
}

#[test]
fn payout_info_layout_is_as_documented() {
    let bytes = PoolPayoutInfo {
        timestamp: 0x0102,
        self_payout_ratio_per_1000: 0x0304,
        coinbase_postfix: vec![0xaa, 0xbb],
        remaining_payout: vec![0x6a],
        appended_outputs: vec![TxOut { value: 1, script_pubkey: vec![9] }],
    }
    .unsigned_bytes();
    assert_eq!(
        bytes,
        vec![
            2, 1, 0, 0, 0, 0, 0, 0, 4, 3, 2, 0xaa, 0xbb, 1, 0, 0x6a, 1, 1, 0, 0, 0, 0, 0, 0, 0,
            1, 0, 9
        ]
    );
}

#[test]
fn share_difficulty_round_trips() {
    pool_round_trips(PoolMessage::ShareDifficulty {
        difficulty: PoolDifficulty { share_target: [0x7f; 32], weak_block_target: [0; 32] },
    });
}

#[test]
fn share_round_trips() {
    pool_round_trips(PoolMessage::Share {
        share: PoolShare {
            header_version: 0x2000_0000,
            header_prevblock: [5; 32],
            header_time: 100,
            header_nbits: 200,
            header_nonce: 300,
            merkle_rhss: vec![[6; 32]; 15],
            coinbase_tx: small_transaction(),
        },
    });
}

#[test]
fn weak_block_state_reset_is_one_byte() {
    assert_eq!(pool_encoded(PoolMessage::WeakBlockStateReset {}), vec![7]);
    pool_round_trips(PoolMessage::WeakBlockStateReset {});
}

#[test]
fn a_ratio_above_a_thousand_is_a_decode_error() {
    let mut info = payout_info();
    info.self_payout_ratio_per_1000 = 1000;
    let mut bytes = pool_encoded(PoolMessage::PayoutInfo {
        signature: pool_signature(),
        payout_info: info.clone(),
    });
    assert!(matches!(read_pool_message(&bytes), Decoded::Complete(_, _)));
    assert_eq!(&bytes[73..75], &[0xe8, 0x03]);
    bytes[73] = 0xe9;
    assert_eq!(read_pool_message(&bytes), Decoded::Invalid);
    info.self_payout_ratio_per_1000 = 1001;
    let mut framer = PoolMsgFramer::new();
    let mut buf = BytesMut::new();
    let msg = PoolMessage::PayoutInfo { signature: pool_signature(), payout_info: info };
    assert!(framer.encode(msg, &mut buf).is_err());
    assert_eq!(buf.len(), 0);
}

#[test]
fn a_coinbase_postfix_of_101_bytes_is_a_decode_error() {
    let mut info = payout_info();
    info.coinbase_postfix = vec![1; 100];
    let mut bytes =
        pool_encoded(PoolMessage::PayoutInfo { signature: pool_signature(), payout_info: info });
    assert_eq!(bytes[75], 100);
    bytes[75] = 101;
    bytes.push(1);
    assert_eq!(read_pool_message(&bytes), Decoded::Invalid);
}

#[test]
fn unknown_pool_tags_are_fatal() {
    assert_eq!(read_pool_message(&[0]), Decoded::Invalid);
    assert_eq!(read_pool_message(&[8]), Decoded::Invalid);
    assert_eq!(read_pool_message(&[]), Decoded::NeedMore);
}

#[test]
fn a_weak_block_is_never_read() {
    let sketch = WeakBlock {
        header_version: 1,
        header_prevblock: [0; 32],
        header_time: 2,
        header_nbits: 3,
        header_nonce: 4,
        sketch_id: 5,
        prev_sketch_id: 6,
        txn: vec![WeakBlockAction::SkipN { n: 2 }],
    };
    let bytes = pool_encoded(PoolMessage::WeakBlock { sketch });
    assert_eq!(bytes[0], 6);
    assert_eq!(read_pool_message(&bytes), Decoded::NeedMore);
}

#[test]
fn weak_block_actions_are_packed_two_bits_each() {
    let tx = small_transaction();
    let sketch = WeakBlock {
        header_version: 1,
        header_prevblock: [9; 32],
        header_time: 2,
        header_nbits: 3,
        header_nonce: 4,
        sketch_id: 5,
        prev_sketch_id: 6,
        txn: vec![
            WeakBlockAction::IncludeTx {},
            WeakBlockAction::IncludeTx {},
            WeakBlockAction::SkipN { n: 17 },
            WeakBlockAction::IncludeTx {},
            WeakBlockAction::IncludeTx {},
            WeakBlockAction::IncludeTx {},
            WeakBlockAction::IncludeTx {},
            WeakBlockAction::NewTx { tx: tx.clone() },
            WeakBlockAction::IncludeTx {},
        ],
    };
    let bytes = sketch.to_bytes();
    assert_eq!(&bytes[0..4], &[1, 0, 0, 0]);
    assert_eq!(&bytes[4..36], &[9; 32]);
    assert_eq!(&bytes[36..48], &[2, 0, 0, 0, 3, 0, 0, 0, 4, 0, 0, 0]);
    assert_eq!(&bytes[48..64], &[5, 0, 0, 0, 0, 0, 0, 0, 6, 0, 0, 0, 0, 0, 0, 0]);
    let mut actions: Vec<u8> = vec![0b10_10_01, 17, 0b10_10_10_10, 0b11];
    actions.extend_from_slice(&(tx.raw.len() as u32).to_le_bytes());
    actions.extend_from_slice(&tx.raw);
    actions.push(0b10);
    assert_eq!(&bytes[64..], &actions[..]);
}

fn sketch_of(txn: Vec<WeakBlockAction>) -> Vec<u8> {
    let sketch = WeakBlock {
        header_version: 1,
        header_prevblock: [9; 32],
        header_time: 2,
        header_nbits: 3,
        header_nonce: 4,
        sketch_id: 5,
        prev_sketch_id: 6,
        txn,
    };
    let mut buf = BytesMut::new();
    sketch.encode(&mut buf);
    assert_eq!(&buf[..], &sketch.to_bytes()[..]);
    buf[64..].to_vec()
}

#[test]
fn the_last_steps_of_a_weak_block_are_written_too() {
    let taken = |n: usize| vec![WeakBlockAction::IncludeTx {}; n];
    assert_eq!(sketch_of(taken(0)), Vec::<u8>::new());
    assert_eq!(sketch_of(taken(1)), vec![0b10]);
    assert_eq!(sketch_of(taken(2)), vec![0b10_10]);
    assert_eq!(sketch_of(taken(3)), vec![0b10_10_10]);
    assert_eq!(sketch_of(taken(4)), vec![0b10_10_10_10]);
    assert_eq!(sketch_of(taken(5)), vec![0b10_10_10_10, 0b10]);
    assert_ne!(sketch_of(taken(0)), sketch_of(taken(1)));
    let mut after_skip = vec![WeakBlockAction::SkipN { n: 3 }];
    after_skip.extend(taken(2));
    assert_eq!(sketch_of(after_skip), vec![0b01, 3, 0b10_10]);
    let mut before_skip = taken(3);
    before_skip.push(WeakBlockAction::SkipN { n: 0b10 });
    assert_eq!(sketch_of(before_skip), vec![0b10_10_10_01, 0b10]);
}
