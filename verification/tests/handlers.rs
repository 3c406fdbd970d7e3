use bytes::BytesMut;
use stratum_proxy::connection::{ConnectionHandler, HandleError};
use stratum_proxy::envelope::sign;
use stratum_proxy::job_provider::{JobProviderHandler, JOB_STREAM_CAPACITY};
use stratum_proxy::keys::{PublicKey, SecretKey};
use stratum_proxy::payload::Transaction;
use stratum_proxy::pool::{
    PoolDifficulty, PoolMessage, PoolMsgFramer, PoolPayoutInfo, PoolShare, WeakBlock,
};
use stratum_proxy::pool_handler::{PoolHandler, ShareOutcome, Solution, POOL_STREAM_CAPACITY};
use stratum_proxy::work::{
    BlockTemplate, CoinbasePrefixPostfix, TransactionData, WinningNonce, WorkMessage,
};

fn provider_secret() -> SecretKey {
    SecretKey { bytes: [3u8; 32] }
}

fn provider_key() -> PublicKey {
    PublicKey::from_secret_key(&provider_secret()).unwrap()
}

fn stranger_secret() -> SecretKey {
    SecretKey { bytes: [4u8; 32] }
}

fn coinbase_transaction() -> Transaction {
    let mut raw: Vec<u8> = vec![1, 0, 0, 0, 1];
    raw.extend_from_slice(&[0u8; 32]);
    raw.extend_from_slice(&[0xff, 0xff, 0xff, 0xff, 0]);
    raw.extend_from_slice(&[0xff, 0xff, 0xff, 0xff, 1]);
    raw.extend_from_slice(&[0u8; 8]);
    raw.extend_from_slice(&[0, 0, 0, 0, 0]);
    Transaction::from_raw(raw).unwrap()
}

fn template_with_id(template_id: u64) -> BlockTemplate {
    BlockTemplate {
        template_id,
        target: [0xff; 32],
        header_version: 1,
        header_prevblock: [1; 32],
        header_time: 2,
        header_nbits: 3,
        merkle_rhss: vec![[4; 32]],
        coinbase_value_remaining: 5_000_000_000,
        coinbase_version: 1,
        coinbase_prefix: vec![],
        coinbase_input_sequence: 0,
        appended_coinbase_outputs: vec![],
        coinbase_locktime: 0,
    }
}

fn signed_template(template_id: u64, key: &SecretKey) -> WorkMessage {
    let template = template_with_id(template_id);
    let signature = sign(key, 3, &template.unsigned_bytes()).unwrap();
    WorkMessage::BlockTemplate { signature, template }
}

fn signed_postfix(timestamp: u64, key: &SecretKey) -> WorkMessage {
    let coinbase_prefix_postfix =
        CoinbasePrefixPostfix { timestamp, coinbase_prefix_postfix: vec![timestamp as u8] };
    let signature = sign(key, 7, &coinbase_prefix_postfix.unsigned_bytes()).unwrap();
    WorkMessage::CoinbasePrefixPostfix { signature, coinbase_prefix_postfix }
}

fn signed_data(template_id: u64, key: &SecretKey) -> WorkMessage {
    let data = TransactionData { template_id, transactions: vec![coinbase_transaction()] };
    let signature = sign(key, 6, &data.unsigned_bytes()).unwrap();
    WorkMessage::TransactionData { signature, data }
}

fn connected_provider() -> JobProviderHandler {
    let mut handler = JobProviderHandler::new(None, true);
    handler.new_connection();
    let hello = WorkMessage::ProtocolVersion { selected_version: 1, auth_key: provider_key() };
    assert_eq!(handler.handle_message(hello), Ok(()));
    handler.take_outbound();
    handler
}

fn payout(timestamp: u64) -> PoolPayoutInfo {
    PoolPayoutInfo {
        timestamp,
        self_payout_ratio_per_1000: 100,
        coinbase_postfix: vec![],
        remaining_payout: vec![0x6a],
        appended_outputs: vec![],
    }
}

fn signed_payout(timestamp: u64, key: &SecretKey) -> PoolMessage {
    let payout_info = payout(timestamp);
    let signature = sign(key, 3, &payout_info.unsigned_bytes()).unwrap();
    PoolMessage::PayoutInfo { signature, payout_info }
}

fn connected_pool() -> PoolHandler {
    let mut handler = PoolHandler::new(Some(provider_key()), 0);
    handler.new_connection();
    handler
}

#[test]
fn a_new_connection_opens_with_protocol_support() {
    let mut with_pool = JobProviderHandler::new(None, true);
    assert!(!with_pool.is_connected());
    with_pool.new_connection();
    assert!(with_pool.is_connected());
    assert_eq!(
        with_pool.take_outbound(),
        vec![WorkMessage::ProtocolSupport { max_version: 1, min_version: 1, flags: 0 }]
    );
    let mut without_pool = JobProviderHandler::new(None, false);
    without_pool.new_connection();
    assert_eq!(
        without_pool.take_outbound(),
        vec![WorkMessage::ProtocolSupport { max_version: 1, min_version: 1, flags: 1 }]
    );
    without_pool.connection_closed();
    assert!(!without_pool.is_connected());
    assert_eq!(without_pool.take_outbound(), vec![]);
}

#[test]
fn only_version_one_is_spoken() {
    let mut handler = JobProviderHandler::new(None, true);
    handler.new_connection();
    let two = WorkMessage::ProtocolVersion { selected_version: 2, auth_key: provider_key() };
    assert_eq!(handler.handle_message(two), Err(HandleError));
    assert_eq!(handler.handle_message(signed_template(1, &provider_secret())), Err(HandleError));
}

#[test]
fn a_pinned_key_refuses_another() {
    let mut handler = JobProviderHandler::new(Some(provider_key()), true);
    handler.new_connection();
    let other = PublicKey::from_secret_key(&stranger_secret()).unwrap();
    let wrong = WorkMessage::ProtocolVersion { selected_version: 1, auth_key: other };
    assert_eq!(handler.handle_message(wrong), Err(HandleError));
    let right = WorkMessage::ProtocolVersion { selected_version: 1, auth_key: provider_key() };
    assert_eq!(handler.handle_message(right), Ok(()));
    assert_eq!(handler.handle_message(signed_template(1, &provider_secret())), Ok(()));
    assert_eq!(handler.handle_message(signed_template(2, &stranger_secret())), Err(HandleError));
    assert_eq!(handler.current_template_id(), Some(1));
}

#[test]
fn messages_that_a_provider_never_sends_close_the_connection() {
    let mut handler = connected_provider();
    let support = WorkMessage::ProtocolSupport { max_version: 1, min_version: 1, flags: 0 };
    assert_eq!(handler.handle_message(support), Err(HandleError));
    let request = WorkMessage::TransactionDataRequest { template_id: 1 };
    assert_eq!(handler.handle_message(request), Err(HandleError));
    let nonce = WorkMessage::WinningNonce {
        nonces: WinningNonce {
            template_id: 1,
            header_version: 1,
            header_time: 1,
            header_nonce: 1,
            coinbase_tx: coinbase_transaction(),
        },
    };
    assert_eq!(handler.handle_message(nonce), Err(HandleError));
}

#[test]
fn an_accepted_template_is_issued_and_its_transactions_requested() {
    let mut handler = connected_provider();
    assert_eq!(handler.handle_message(signed_template(9, &provider_secret())), Ok(()));
    assert_eq!(handler.current_template_id(), Some(9));
    assert_eq!(
        handler.take_outbound(),
        vec![WorkMessage::TransactionDataRequest { template_id: 9 }]
    );
    let jobs = handler.take_jobs();
    assert_eq!(jobs.len(), 1);
    assert_eq!(jobs[0].template, template_with_id(9));
    assert_eq!(jobs[0].prefix_postfix, None);
    assert_eq!(jobs[0].ticket, 0);
    assert_eq!(handler.take_jobs().len(), 0);
}

#[test]
fn templates_are_accepted_only_in_rising_order() {
    let mut handler = connected_provider();
    let mut accepted: Vec<u64> = Vec::new();
    for id in [5u64, 7, 6, 8] {
        assert_eq!(handler.handle_message(signed_template(id, &provider_secret())), Ok(()));
        for job in handler.take_jobs() {
            accepted.push(job.template.template_id);
        }
    }
    assert_eq!(accepted, vec![5, 7, 8]);
    assert_eq!(handler.current_template_id(), Some(8));
    assert_eq!(
        handler.take_outbound(),
        vec![
            WorkMessage::TransactionDataRequest { template_id: 5 },
            WorkMessage::TransactionDataRequest { template_id: 7 },
            WorkMessage::TransactionDataRequest { template_id: 8 },
        ]
    );
    assert_eq!(handler.handle_message(signed_template(8, &provider_secret())), Ok(()));
    assert_eq!(handler.take_jobs().len(), 0);
}

#[test]
fn a_tampered_template_closes_the_connection() {
    let good = signed_template(5, &provider_secret());
    let (signature, template) = match good {
        WorkMessage::BlockTemplate { signature, template } => (signature, template),
        _ => unreachable!(),
    };
    let mut handler = connected_provider();
    let mut changed = template.clone();
    changed.coinbase_value_remaining += 1;
    let msg = WorkMessage::BlockTemplate { signature, template: changed };
    assert_eq!(handler.handle_message(msg), Err(HandleError));
    let mut bad_signature = signature;
    bad_signature.bytes[10] ^= 0x40;
    let msg = WorkMessage::BlockTemplate { signature: bad_signature, template: template.clone() };
    assert_eq!(handler.handle_message(msg), Err(HandleError));
    assert_eq!(handler.current_template_id(), None);
    assert_eq!(handler.take_jobs().len(), 0);
    assert_eq!(handler.take_outbound().len(), 0);
    let msg = WorkMessage::BlockTemplate { signature, template };
    assert_eq!(handler.handle_message(msg), Ok(()));
    assert_eq!(handler.current_template_id(), Some(5));
}

#[test]
fn a_signature_for_one_kind_of_message_does_not_pass_for_another() {
    let data = TransactionData { template_id: 1, transactions: vec![] };
    let as_template = sign(&provider_secret(), 3, &data.unsigned_bytes()).unwrap();
    let mut handler = connected_provider();
    let msg = WorkMessage::TransactionData { signature: as_template, data };
    assert_eq!(handler.handle_message(msg), Err(HandleError));
}

#[test]
fn nothing_signed_is_accepted_before_the_key_is_known() {
    let mut handler = JobProviderHandler::new(None, true);
    handler.new_connection();
    assert_eq!(handler.handle_message(signed_template(1, &provider_secret())), Err(HandleError));
    assert_eq!(handler.handle_message(signed_postfix(1, &provider_secret())), Err(HandleError));
    assert_eq!(handler.handle_message(signed_data(1, &provider_secret())), Err(HandleError));
}

#[test]
fn a_provider_that_fills_the_job_stream_is_too_fast() {
    let mut handler = connected_provider();
    for id in 0..JOB_STREAM_CAPACITY as u64 {
        assert_eq!(handler.handle_message(signed_template(id + 1, &provider_secret())), Ok(()));
    }
    assert_eq!(handler.handle_message(signed_template(100, &provider_secret())), Err(HandleError));
    assert_eq!(handler.current_template_id(), Some(JOB_STREAM_CAPACITY as u64));
    assert_eq!(handler.take_jobs().len(), JOB_STREAM_CAPACITY);
    assert_eq!(handler.handle_message(signed_template(100, &provider_secret())), Ok(()));
}

#[test]
fn a_template_without_a_connection_cannot_be_issued() {
    let mut handler = JobProviderHandler::new(Some(provider_key()), true);
    assert_eq!(handler.handle_message(signed_template(1, &provider_secret())), Err(HandleError));
    assert_eq!(handler.current_template_id(), None);
}

#[test]
fn transaction_data_answers_the_open_request() {
    let mut handler = connected_provider();
    assert_eq!(handler.handle_message(signed_data(5, &provider_secret())), Ok(()));
    assert_eq!(handler.take_fulfilled().len(), 0);
    assert_eq!(handler.handle_message(signed_template(5, &provider_secret())), Ok(()));
    assert_eq!(handler.handle_message(signed_data(5, &provider_secret())), Ok(()));
    let fulfilled = handler.take_fulfilled();
    assert_eq!(fulfilled.len(), 1);
    assert_eq!(fulfilled[0].ticket, 0);
    assert_eq!(fulfilled[0].data.template_id, 5);
    assert_eq!(fulfilled[0].data.transactions, vec![coinbase_transaction()]);
    assert_eq!(handler.handle_message(signed_data(5, &provider_secret())), Ok(()));
    assert_eq!(handler.take_fulfilled().len(), 0);
}

#[test]
fn a_newer_postfix_reissues_the_current_template() {
    let mut handler = connected_provider();
    assert_eq!(handler.handle_message(signed_postfix(10, &provider_secret())), Ok(()));
    assert_eq!(handler.current_postfix_timestamp(), Some(10));
    assert_eq!(handler.take_jobs().len(), 0);
    assert_eq!(handler.handle_message(signed_template(5, &provider_secret())), Ok(()));
    let first = handler.take_jobs();
    assert_eq!(first[0].prefix_postfix.as_ref().unwrap().timestamp, 10);
    assert_eq!(handler.handle_message(signed_postfix(10, &provider_secret())), Ok(()));
    assert_eq!(handler.handle_message(signed_postfix(9, &provider_secret())), Ok(()));
    assert_eq!(handler.take_jobs().len(), 0);
    assert_eq!(handler.current_postfix_timestamp(), Some(10));
    assert_eq!(handler.handle_message(signed_postfix(11, &provider_secret())), Ok(()));
    let second = handler.take_jobs();
    assert_eq!(second.len(), 1);
    assert_eq!(second[0].template.template_id, 5);
    assert_eq!(second[0].prefix_postfix.as_ref().unwrap().coinbase_prefix_postfix, vec![11]);
    assert_eq!(second[0].ticket, 1);
    assert_eq!(
        handler.take_outbound(),
        vec![
            WorkMessage::TransactionDataRequest { template_id: 5 },
            WorkMessage::TransactionDataRequest { template_id: 5 },
        ]
    );
    assert_eq!(handler.handle_message(signed_data(5, &provider_secret())), Ok(()));
    assert_eq!(handler.take_fulfilled()[0].ticket, 1);
}

#[test]
fn a_full_target_solution_goes_out_as_a_winning_nonce() {
    let nonces = WinningNonce {
        template_id: 5,
        header_version: 1,
        header_time: 2,
        header_nonce: 3,
        coinbase_tx: coinbase_transaction(),
    };
    let mut handler = connected_provider();
    assert!(handler.send_nonce(nonces.clone()));
    assert_eq!(handler.take_outbound(), vec![WorkMessage::WinningNonce { nonces: nonces.clone() }]);
    handler.connection_closed();
    assert!(!handler.send_nonce(nonces));
    assert_eq!(handler.take_outbound(), vec![]);
}

#[test]
fn a_signed_payout_info_passes_from_wire_to_handler() {
    let payout_info = payout(1);
    let signature = sign(&provider_secret(), 3, &payout_info.unsigned_bytes()).unwrap();
    let mut framer = PoolMsgFramer::new();
    let mut wire = BytesMut::new();
    framer.encode(PoolMessage::PayoutInfo { signature, payout_info }, &mut wire).unwrap();
    let received = framer.decode(&mut wire).unwrap().unwrap();
    let mut handler = connected_pool();
    assert_eq!(handler.handle_message(received), Ok(()));
    assert_eq!(handler.current_payout_timestamp(), Some(1));
    let updates = handler.take_updates();
    assert_eq!(updates.len(), 1);
    assert_eq!(updates[0].payout_info, payout(1));
    assert_eq!(updates[0].difficulty, None);
}

#[test]
fn a_flipped_byte_on_the_wire_closes_the_pool_connection() {
    let payout_info = payout(1);
    let signature = sign(&provider_secret(), 3, &payout_info.unsigned_bytes()).unwrap();
    let mut framer = PoolMsgFramer::new();
    let mut wire = BytesMut::new();
    framer.encode(PoolMessage::PayoutInfo { signature, payout_info }, &mut wire).unwrap();
    let sent: Vec<u8> = wire[..].to_vec();
    for at in 1..sent.len() {
        let mut tampered = BytesMut::new();
        tampered.extend_from_slice(&sent);
        tampered[at] ^= 0x01;
        let mut handler = connected_pool();
        let mut closed = false;
        for _ in 0..80 {
            match framer.decode(&mut tampered) {
                Err(_) => closed = true,
                Ok(None) => {
                    tampered.extend_from_slice(&[0u8; 1024]);
                    continue;
                }
                Ok(Some(msg)) => closed = handler.handle_message(msg).is_err(),
            }
            break;
        }
        assert!(closed);
        assert_eq!(handler.current_payout_timestamp(), None);
        assert_eq!(handler.take_updates().len(), 0);
    }
}

#[test]
fn payout_info_is_accepted_only_with_a_later_timestamp() {
    let mut handler = connected_pool();
    for timestamp in [5u64, 7, 6, 7, 8] {
        assert_eq!(handler.handle_message(signed_payout(timestamp, &provider_secret())), Ok(()));
    }
    let stamps: Vec<u64> =
        handler.take_updates().iter().map(|u| u.payout_info.timestamp).collect();
    assert_eq!(stamps, vec![5, 7, 8]);
    assert_eq!(handler.handle_message(signed_payout(9, &stranger_secret())), Err(HandleError));
    assert_eq!(handler.current_payout_timestamp(), Some(8));
}

#[test]
fn a_new_difficulty_reissues_the_payout_info() {
    let difficulty = PoolDifficulty { share_target: [0x7f; 32], weak_block_target: [1; 32] };
    let mut handler = connected_pool();
    let msg = PoolMessage::ShareDifficulty { difficulty };
    assert_eq!(handler.handle_message(msg.clone()), Ok(()));
    assert_eq!(handler.current_difficulty(), Some(difficulty));
    assert_eq!(handler.take_updates().len(), 0);
    assert_eq!(handler.handle_message(signed_payout(1, &provider_secret())), Ok(()));
    assert_eq!(handler.handle_message(msg), Ok(()));
    let updates = handler.take_updates();
    assert_eq!(updates.len(), 2);
    assert_eq!(updates[0].difficulty, Some(difficulty));
    assert_eq!(updates[1].payout_info, payout(1));
    assert_eq!(updates[1].difficulty, Some(difficulty));
}

#[test]
fn a_pool_that_fills_the_update_stream_is_too_fast() {
    let mut handler = connected_pool();
    for timestamp in 0..POOL_STREAM_CAPACITY as u64 {
        let msg = signed_payout(timestamp + 1, &provider_secret());
        assert_eq!(handler.handle_message(msg), Ok(()));
    }
    assert_eq!(handler.handle_message(signed_payout(50, &provider_secret())), Err(HandleError));
    assert_eq!(handler.current_payout_timestamp(), Some(POOL_STREAM_CAPACITY as u64));
    let difficulty = PoolDifficulty { share_target: [1; 32], weak_block_target: [1; 32] };
    let msg = PoolMessage::ShareDifficulty { difficulty };
    assert_eq!(handler.handle_message(msg), Err(HandleError));
    assert_eq!(handler.current_difficulty(), Some(difficulty));
    assert_eq!(handler.take_updates().len(), POOL_STREAM_CAPACITY);
}

#[test]
fn messages_that_a_pool_never_sends_close_the_connection() {
    let mut handler = connected_pool();
    let support = PoolMessage::ProtocolSupport { max_version: 1, min_version: 1, flags: 0 };
    assert_eq!(handler.handle_message(support), Err(HandleError));
    let share = PoolShare {
        header_version: 1,
        header_prevblock: [0; 32],
        header_time: 1,
        header_nbits: 1,
        header_nonce: 1,
        merkle_rhss: vec![],
        coinbase_tx: coinbase_transaction(),
    };
    assert_eq!(handler.handle_message(PoolMessage::Share { share }), Err(HandleError));
    let sketch = WeakBlock {
        header_version: 1,
        header_prevblock: [0; 32],
        header_time: 1,
        header_nbits: 1,
        header_nonce: 1,
        sketch_id: 1,
        prev_sketch_id: 0,
        txn: vec![],
    };
    assert_eq!(handler.handle_message(PoolMessage::WeakBlock { sketch }), Err(HandleError));
    assert_eq!(handler.handle_message(PoolMessage::WeakBlockStateReset {}), Ok(()));
    let two = PoolMessage::ProtocolVersion { selected_version: 2, auth_key: provider_key() };
    assert_eq!(handler.handle_message(two), Err(HandleError));
}

#[test]
fn a_share_is_submitted_only_below_the_share_target() {
    let mut share_target = [0u8; 32];
    share_target[31] = 0x7f;
    let difficulty = PoolDifficulty { share_target, weak_block_target: [0; 32] };
    let template = template_with_id(5);
    let nonces = WinningNonce {
        template_id: 5,
        header_version: 11,
        header_time: 12,
        header_nonce: 13,
        coinbase_tx: coinbase_transaction(),
    };
    let mut low = [0xffu8; 32];
    low[31] = 0x7e;
    let mut high = [0u8; 32];
    high[31] = 0xa0;
    let meets = Solution { nonces: nonces.clone(), block_hash: low };
    let misses = Solution { nonces: nonces.clone(), block_hash: high };
    let mut handler = connected_pool();
    assert_eq!(handler.send_nonce(&meets, &template, &vec![]), ShareOutcome::NoDifficulty);
    assert_eq!(handler.handle_message(PoolMessage::ShareDifficulty { difficulty }), Ok(()));
    assert_eq!(handler.send_nonce(&misses, &template, &vec![]), ShareOutcome::MissedTarget);
    assert_eq!(handler.take_outbound(), vec![]);
    assert_eq!(handler.send_nonce(&meets, &template, &vec![]), ShareOutcome::Submitted);
    assert_eq!(
        handler.take_outbound(),
        vec![PoolMessage::Share {
            share: PoolShare {
                header_version: 11,
                header_prevblock: [1; 32],
                header_time: 12,
                header_nbits: 3,
                header_nonce: 13,
                merkle_rhss: vec![[4; 32]],
                coinbase_tx: coinbase_transaction(),
            }
        }]
    );
    handler.connection_closed();
    assert_eq!(handler.send_nonce(&meets, &template, &vec![]), ShareOutcome::NotConnected);
    assert!(!handler.is_connected());
    assert_eq!(handler.get_priority(), 0);
}

#[test]
fn handlers_serve_a_connection_through_the_common_trait() {
    fn serve<M, H: ConnectionHandler<M>>(handler: &mut H, msg: M) -> Result<(), HandleError> {
        handler.new_connection();
        let r = handler.handle_message(msg);
        handler.connection_closed();
        r
    }
    let mut provider = JobProviderHandler::new(None, true);
    let hello = WorkMessage::ProtocolVersion { selected_version: 1, auth_key: provider_key() };
    assert_eq!(serve(&mut provider, hello), Ok(()));
    assert!(!provider.is_connected());
    let mut pool = PoolHandler::new(None, 3);
    assert_eq!(serve(&mut pool, PoolMessage::WeakBlockStateReset {}), Ok(()));
    assert_eq!(pool.get_priority(), 3);
    assert_eq!(HandleError.description(), "Failed to handle message");
}
