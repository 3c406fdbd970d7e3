use stratum_proxy::connection::{ConnectionMaintainer, NextStep, RECONNECT_DELAY_SECS};
use stratum_proxy::eventual::Eventual;
use stratum_proxy::job_provider::FulfilledRequest;
use stratum_proxy::payload::Transaction;
use stratum_proxy::pool::PoolMessage;
use stratum_proxy::pool_handler::{PoolHandler, Solution};
use stratum_proxy::router::{Routed, SolutionRouter};
use stratum_proxy::work::{TransactionData, WinningNonce};

fn tx() -> Transaction {
    let mut raw: Vec<u8> = vec![1, 0, 0, 0, 1];
    raw.extend_from_slice(&[0u8; 32]);
    raw.extend_from_slice(&[0xff, 0xff, 0xff, 0xff, 0]);
    raw.extend_from_slice(&[0xff, 0xff, 0xff, 0xff, 1]);
    raw.extend_from_slice(&[0u8; 8]);
    raw.extend_from_slice(&[0, 0, 0, 0, 0]);
    Transaction::from_raw(raw).unwrap()
}

fn solution(nonce: u32, top: u8) -> Solution {
    let mut block_hash = [0u8; 32];
    block_hash[31] = top;
    Solution {
        nonces: WinningNonce {
            template_id: 1,
            header_version: 1,
            header_time: 2,
            header_nonce: nonce,
            coinbase_tx: tx(),
        },
        block_hash,
    }
}

fn target(top: u8) -> [u8; 32] {
    let mut t = [0u8; 32];
    t[31] = top;
    t
}

fn data() -> TransactionData {
    TransactionData { template_id: 1, transactions: vec![tx()] }
}

#[test]
fn waiters_are_served_once_in_the_order_they_asked() {
    let mut eventual: Eventual<u32, &'static str> = Eventual::new();
    assert!(!eventual.is_resolved());
    assert_eq!(eventual.get(), None);
    assert_eq!(eventual.get_and("first"), None);
    assert_eq!(eventual.get_and("second"), None);
    assert_eq!(eventual.get_and("third"), None);
    assert_eq!(eventual.resolve(7), vec!["first", "second", "third"]);
    assert!(eventual.is_resolved());
    assert_eq!(eventual.get(), Some(&7));
    assert_eq!(eventual.get_and("late"), Some("late"));
    assert_eq!(eventual.resolve(8), Vec::<&'static str>::new());
    assert_eq!(eventual.get(), Some(&7));
}

#[test]
fn an_eventual_without_waiters_resolves_to_nobody() {
    let mut eventual: Eventual<u32, u8> = Eventual::new();
    assert_eq!(eventual.resolve(1), Vec::<u8>::new());
    assert_eq!(eventual.get_and(9), Some(9));
}

#[test]
fn a_solution_that_meets_the_target_goes_to_the_provider() {
    let mut router = SolutionRouter::new(target(0x7f), Some(0), None, 5);
    let hit = solution(1, 0x7f);
    assert_eq!(
        router.submit(hit.clone()),
        Routed { provider: Some(hit.nonces), pool: None }
    );
    assert_eq!(router.submit(solution(2, 0xa0)), Routed { provider: None, pool: None });
    let mut nobody = SolutionRouter::new(target(0x7f), None, None, 5);
    assert_eq!(nobody.submit(solution(1, 0x01)), Routed { provider: None, pool: None });
}

#[test]
fn shares_wait_for_the_transactions_and_then_go_out_in_order() {
    let mut router = SolutionRouter::new(target(0x01), Some(0), Some(1), 5);
    assert_eq!(router.ticket(), 5);
    assert_eq!(router.submit(solution(1, 0x50)), Routed { provider: None, pool: None });
    let full = solution(2, 0x01);
    assert_eq!(
        router.submit(full.clone()),
        Routed { provider: Some(full.nonces.clone()), pool: None }
    );
    assert_eq!(router.submit(solution(3, 0x60)), Routed { provider: None, pool: None });
    assert!(router.transactions().is_none());
    let due = router.transaction_data(data());
    assert_eq!(due, vec![solution(1, 0x50), full, solution(3, 0x60)]);
    assert_eq!(router.transactions(), Some(&data()));
    let late = solution(4, 0x70);
    assert_eq!(router.submit(late.clone()), Routed { provider: None, pool: Some(late) });
    let other = TransactionData { template_id: 1, transactions: vec![] };
    assert_eq!(router.transaction_data(other), vec![]);
    assert_eq!(router.transactions(), Some(&data()));
}

#[test]
fn only_the_answer_to_the_works_own_request_counts() {
    let mut router = SolutionRouter::new(target(0x01), Some(2), Some(1), 5);
    assert_eq!(router.submit(solution(1, 0x50)), Routed { provider: None, pool: None });
    let answer = |ticket: u64| FulfilledRequest { ticket, data: data() };
    assert_eq!(router.deliver(2, answer(4)), vec![]);
    assert_eq!(router.deliver(3, answer(5)), vec![]);
    assert!(router.transactions().is_none());
    assert_eq!(router.deliver(2, answer(5)), vec![solution(1, 0x50)]);
    assert_eq!(router.transactions(), Some(&data()));
    assert_eq!(router.deliver(2, answer(5)), vec![]);
}

#[test]
fn a_hash_above_the_merged_target_is_no_share() {
    let mut pool = PoolHandler::new(None, 0);
    pool.new_connection();
    let difficulty = stratum_proxy::pool::PoolDifficulty {
        share_target: target(0x7f),
        weak_block_target: target(0x7f),
    };
    pool.handle_message(PoolMessage::ShareDifficulty { difficulty }).unwrap();
    let mut router = SolutionRouter::new(target(0x7f), Some(0), Some(0), 1);
    router.transaction_data(data());
    let routed = router.submit(solution(1, 0xa0));
    assert_eq!(routed.provider, None);
    let offered = routed.pool.unwrap();
    let template = stratum_proxy::work::BlockTemplate {
        template_id: 1,
        target: target(0x7f),
        header_version: 1,
        header_prevblock: [0; 32],
        header_time: 0,
        header_nbits: 0,
        merkle_rhss: vec![],
        coinbase_value_remaining: 0,
        coinbase_version: 0,
        coinbase_prefix: vec![],
        coinbase_input_sequence: 0,
        appended_coinbase_outputs: vec![],
        coinbase_locktime: 0,
    };
    assert_eq!(
        pool.send_nonce(&offered, &template, &data().transactions),
        stratum_proxy::pool_handler::ShareOutcome::MissedTarget
    );
    assert_eq!(pool.take_outbound(), vec![]);
}

#[test]
fn addresses_are_tried_last_first_and_then_the_maintainer_waits() {
    let handler = PoolHandler::new(None, 0);
    let mut maintainer: ConnectionMaintainer<PoolMessage, PoolHandler, u16> =
        ConnectionMaintainer::new(String::from("pool.example:8334"), handler);
    assert_eq!(maintainer.host().as_str(), "pool.example:8334");
    assert_eq!(maintainer.make_connection(), NextStep::Resolve);
    assert_eq!(maintainer.addresses_resolved(Some(vec![1, 2, 3])), NextStep::Connect(3));
    assert_eq!(maintainer.make_connection(), NextStep::Connect(2));
    maintainer.connected();
    assert!(maintainer.handler().is_connected());
    assert_eq!(maintainer.handle_message(PoolMessage::WeakBlockStateReset {}), Ok(()));
    assert!(maintainer.handle_message(PoolMessage::ProtocolSupport {
        max_version: 1,
        min_version: 1,
        flags: 0
    })
    .is_err());
    assert_eq!(maintainer.disconnected(), NextStep::Connect(1));
    assert!(!maintainer.handler().is_connected());
    assert_eq!(maintainer.make_connection(), NextStep::Sleep(30));
    assert_eq!(RECONNECT_DELAY_SECS, 30);
    assert_eq!(maintainer.make_connection(), NextStep::Resolve);
    assert_eq!(maintainer.addresses_resolved(None), NextStep::Sleep(30));
    assert_eq!(maintainer.make_connection(), NextStep::Resolve);
    assert_eq!(maintainer.addresses_resolved(Some(vec![])), NextStep::Sleep(30));
    assert_eq!(maintainer.make_connection(), NextStep::Resolve);
}

#[test]
fn the_handler_is_reached_through_the_maintainer() {
    let handler = PoolHandler::new(None, 4);
    let mut maintainer: ConnectionMaintainer<PoolMessage, PoolHandler, u16> =
        ConnectionMaintainer::new(String::from("host:1"), handler);
    maintainer.connected();
    assert_eq!(maintainer.handler_mut().take_outbound(), vec![]);
    assert_eq!(maintainer.handler().get_priority(), 4);
}
