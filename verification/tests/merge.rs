use stratum_proxy::job_info::{JobInfo, WorkOutcome, WORK_STREAM_CAPACITY};
use stratum_proxy::job_provider::ProviderJob;
use stratum_proxy::merge::{
    merge_job_pool, merge_template, sum_sane_values, WorkInfo, MAX_MONEY,
};
use stratum_proxy::payload::TxOut;
use stratum_proxy::pool::{PoolDifficulty, PoolPayoutInfo};
use stratum_proxy::pool_handler::PoolUpdate;
use stratum_proxy::target::{does_hash_meet_target, min_le};
use stratum_proxy::work::{BlockTemplate, CoinbasePrefixPostfix};

fn operator_script() -> Vec<u8> {
    vec![0x76, 0xa9, 0x01]
}

fn pool_script() -> Vec<u8> {
    vec![0xa9, 0x14, 0x02]
}

fn top_byte(b: u8) -> [u8; 32] {
    let mut target = [0u8; 32];
    target[31] = b;
    target
}

fn job(template_id: u64, value: u64, outputs: Vec<TxOut>) -> ProviderJob {
    ProviderJob {
        template: BlockTemplate {
            template_id,
            target: top_byte(0xff),
            header_version: 1,
            header_prevblock: [1; 32],
            header_time: 2,
            header_nbits: 3,
            merkle_rhss: vec![[4; 32]],
            coinbase_value_remaining: value,
            coinbase_version: 1,
            coinbase_prefix: vec![1, 2],
            coinbase_input_sequence: 0,
            appended_coinbase_outputs: outputs,
            coinbase_locktime: 0,
        },
        prefix_postfix: None,
        ticket: 40 + template_id,
    }
}

fn update(ratio: u16, outputs: Vec<TxOut>, difficulty: Option<PoolDifficulty>) -> PoolUpdate {
    PoolUpdate {
        payout_info: PoolPayoutInfo {
            timestamp: 1,
            self_payout_ratio_per_1000: ratio,
            coinbase_postfix: vec![0xee],
            remaining_payout: pool_script(),
            appended_outputs: outputs,
        },
        difficulty,
    }
}

fn out(value: u64, tag: u8) -> TxOut {
    TxOut { value, script_pubkey: vec![tag] }
}

#[test]
fn a_quarter_for_the_operator_and_the_rest_for_the_pool() {
    let merged = merge_template(
        operator_script(),
        &Some(job(1, 5_000_000_000, vec![])),
        &Some(update(250, vec![], None)),
    )
    .unwrap();
    assert_eq!(
        merged.appended_coinbase_outputs,
        vec![
            TxOut { value: 1_250_000_000, script_pubkey: operator_script() },
            TxOut { value: 3_750_000_000, script_pubkey: pool_script() },
        ]
    );
    assert_eq!(merged.coinbase_value_remaining, 5_000_000_000);
    assert_eq!(merged.template_id, 1);
}

#[test]
fn outputs_come_in_the_order_operator_pool_pool_appended_template_appended() {
    let merged = merge_template(
        operator_script(),
        &Some(job(1, 1_000_000, vec![out(100, 1), out(200, 2)])),
        &Some(update(333, vec![out(300, 3), out(400, 4)], None)),
    )
    .unwrap();
    let remaining: u64 = 1_000_000 - 1_000;
    let ours: u64 = remaining * 333 / 1000;
    assert_eq!(ours, 332_667);
    assert_eq!(
        merged.appended_coinbase_outputs,
        vec![
            TxOut { value: ours, script_pubkey: operator_script() },
            TxOut { value: remaining - ours, script_pubkey: pool_script() },
            out(300, 3),
            out(400, 4),
            out(100, 1),
            out(200, 2),
        ]
    );
    let total: u64 = merged.appended_coinbase_outputs.iter().map(|o| o.value).sum();
    assert_eq!(total, 1_000_000);
}

#[test]
fn the_operator_share_is_rounded_down() {
    let merged = merge_template(
        operator_script(),
        &Some(job(1, 1_999, vec![])),
        &Some(update(1, vec![], None)),
    )
    .unwrap();
    assert_eq!(merged.appended_coinbase_outputs[0].value, 1);
    assert_eq!(merged.appended_coinbase_outputs[1].value, 1_998);
}

#[test]
fn at_a_ratio_of_a_thousand_the_operator_takes_all() {
    let merged = merge_template(
        operator_script(),
        &Some(job(1, 5_000_000_000, vec![out(1_000, 1)])),
        &Some(update(1000, vec![], None)),
    )
    .unwrap();
    assert_eq!(
        merged.appended_coinbase_outputs,
        vec![
            TxOut { value: 4_999_999_000, script_pubkey: operator_script() },
            TxOut { value: 0, script_pubkey: pool_script() },
            out(1_000, 1),
        ]
    );
}

#[test]
fn at_a_ratio_of_nought_the_operator_takes_nothing() {
    let merged = merge_template(
        operator_script(),
        &Some(job(1, 5_000_000_000, vec![])),
        &Some(update(0, vec![], None)),
    )
    .unwrap();
    assert_eq!(merged.appended_coinbase_outputs[0].value, 0);
    assert_eq!(merged.appended_coinbase_outputs[0].script_pubkey, operator_script());
    assert_eq!(merged.appended_coinbase_outputs[1].value, 5_000_000_000);
}

#[test]
fn without_a_pool_the_operator_output_is_empty_and_the_target_is_kept() {
    let mut with_postfix = job(1, 5_000_000_000, vec![out(5, 9)]);
    with_postfix.prefix_postfix =
        Some(CoinbasePrefixPostfix { timestamp: 1, coinbase_prefix_postfix: vec![7, 8] });
    let merged = merge_template(operator_script(), &Some(with_postfix.clone()), &None).unwrap();
    assert_eq!(
        merged.appended_coinbase_outputs,
        vec![TxOut { value: 0, script_pubkey: operator_script() }, out(5, 9)]
    );
    assert_eq!(merged.target, with_postfix.template.target);
    assert_eq!(merged.coinbase_prefix, vec![1, 2, 7, 8]);
    assert_eq!(merged.merkle_rhss, with_postfix.template.merkle_rhss);
    assert_eq!(merged.header_prevblock, with_postfix.template.header_prevblock);
}

#[test]
fn the_prefix_is_template_then_provider_then_pool() {
    let mut with_postfix = job(1, 10, vec![]);
    with_postfix.prefix_postfix =
        Some(CoinbasePrefixPostfix { timestamp: 1, coinbase_prefix_postfix: vec![7, 8] });
    let merged =
        merge_template(operator_script(), &Some(with_postfix), &Some(update(0, vec![], None)))
            .unwrap();
    assert_eq!(merged.coinbase_prefix, vec![1, 2, 7, 8, 0xee]);
}

#[test]
fn the_merged_target_is_the_strictest() {
    let difficulty =
        PoolDifficulty { share_target: top_byte(0x7f), weak_block_target: top_byte(0x90) };
    let merged = merge_template(
        operator_script(),
        &Some(job(1, 10, vec![])),
        &Some(update(0, vec![], Some(difficulty))),
    )
    .unwrap();
    assert_eq!(merged.target, top_byte(0x7f));
    assert!(!does_hash_meet_target(&top_byte(0xa0), &merged.target));
    assert!(does_hash_meet_target(&top_byte(0x7f), &merged.target));
    assert!(does_hash_meet_target(&top_byte(0x10), &merged.target));
    let loose = PoolDifficulty { share_target: [0xff; 32], weak_block_target: [0xff; 32] };
    let merged = merge_template(
        operator_script(),
        &Some(job(1, 10, vec![])),
        &Some(update(0, vec![], Some(loose))),
    )
    .unwrap();
    assert_eq!(merged.target, top_byte(0xff));
}

#[test]
fn targets_compare_as_numbers_with_the_last_byte_on_top() {
    let mut low_top = [0xffu8; 32];
    low_top[31] = 0;
    let mut high_top = [0u8; 32];
    high_top[31] = 1;
    assert!(does_hash_meet_target(&low_top, &high_top));
    assert!(!does_hash_meet_target(&high_top, &low_top));
    assert!(does_hash_meet_target(&low_top, &low_top));
    assert_eq!(min_le(low_top, high_top), low_top);
    assert_eq!(min_le(high_top, low_top), low_top);
    let mut a = [5u8; 32];
    let mut b = [5u8; 32];
    a[0] = 1;
    b[0] = 2;
    assert!(does_hash_meet_target(&a, &b));
    assert!(!does_hash_meet_target(&b, &a));
    assert!(does_hash_meet_target(&[], &[]));
}

#[test]
fn nothing_is_merged_without_a_template() {
    assert_eq!(merge_template(operator_script(), &None, &None), None);
    assert_eq!(merge_template(operator_script(), &None, &Some(update(1, vec![], None))), None);
}

#[test]
fn an_output_beyond_all_money_stops_the_merge() {
    assert_eq!(MAX_MONEY, 21_000_000 * 100_000_000);
    let fine = Some(job(1, u64::MAX, vec![out(MAX_MONEY, 1)]));
    assert!(merge_template(operator_script(), &fine, &None).is_some());
    let over = Some(job(1, u64::MAX, vec![out(MAX_MONEY + 1, 1)]));
    assert_eq!(merge_template(operator_script(), &over, &None), None);
    let pool_over = Some(update(0, vec![out(MAX_MONEY + 1, 1)], None));
    assert_eq!(merge_template(operator_script(), &fine, &pool_over), None);
    assert_eq!(sum_sane_values(&vec![out(1, 1), out(2, 2)]), Some(3));
    assert_eq!(sum_sane_values(&vec![out(1, 1), out(MAX_MONEY + 1, 2)]), None);
}

#[test]
fn fixed_outputs_beyond_the_reward_stop_the_merge() {
    let exact = Some(job(1, 300, vec![out(100, 1)]));
    let pool = Some(update(500, vec![out(200, 2)], None));
    let merged = merge_template(operator_script(), &exact, &pool).unwrap();
    assert_eq!(merged.appended_coinbase_outputs[0].value, 0);
    assert_eq!(merged.appended_coinbase_outputs[1].value, 0);
    let short = Some(job(1, 299, vec![out(100, 1)]));
    assert_eq!(merge_template(operator_script(), &short, &pool), None);
}

#[test]
fn a_ratio_above_a_thousand_stops_the_merge() {
    let template = Some(job(1, 1_000, vec![]));
    assert!(merge_template(operator_script(), &template, &Some(update(1000, vec![], None)))
        .is_some());
    assert_eq!(
        merge_template(operator_script(), &template, &Some(update(1001, vec![], None))),
        None
    );
}

#[test]
fn the_whole_range_of_the_reward_is_split_without_loss() {
    let merged = merge_template(
        operator_script(),
        &Some(job(1, u64::MAX, vec![])),
        &Some(update(999, vec![], None)),
    )
    .unwrap();
    let ours = (u64::MAX as u128 * 999 / 1000) as u64;
    assert_eq!(merged.appended_coinbase_outputs[0].value, ours);
    assert_eq!(merged.appended_coinbase_outputs[1].value, u64::MAX - ours);
}

#[test]
fn merged_work_routes_to_the_sources_it_was_merged_from() {
    let work = merge_job_pool(
        operator_script(),
        &Some(job(3, 100, vec![])),
        Some(2),
        &Some(update(500, vec![], None)),
        Some(7),
    )
    .unwrap();
    assert_eq!(work.template.appended_coinbase_outputs[0].value, 50);
    assert_eq!(work.solutions.job_source(), Some(2));
    assert_eq!(work.solutions.payout_source(), Some(7));
    assert_eq!(work.solutions.ticket(), 43);
    assert!(work.solutions.transactions().is_none());
    assert!(merge_job_pool(operator_script(), &None, None, &None, None).is_none());
}

fn issued(info: &mut JobInfo) -> WorkInfo {
    let mut work = info.take_work();
    assert_eq!(work.len(), 1);
    work.remove(0)
}

#[test]
fn only_a_newer_job_replaces_the_current_one() {
    let mut info = JobInfo::new(operator_script());
    assert_eq!(info.current_template_id(), None);
    assert_eq!(info.new_job(job(5, 100, vec![]), 0), WorkOutcome::Issued);
    assert_eq!(info.current_template_id(), Some(5));
    assert_eq!(info.job_source(), Some(0));
    assert_eq!(info.new_job(job(5, 100, vec![]), 1), WorkOutcome::NoWork);
    assert_eq!(info.new_job(job(4, 100, vec![]), 1), WorkOutcome::NoWork);
    assert_eq!(info.job_source(), Some(0));
    assert_eq!(issued(&mut info).template.template_id, 5);
    assert_eq!(info.new_job(job(6, 100, vec![]), 1), WorkOutcome::Issued);
    let work = issued(&mut info);
    assert_eq!(work.template.template_id, 6);
    assert_eq!(work.solutions.job_source(), Some(1));
    assert_eq!(work.solutions.payout_source(), None);
    assert_eq!(info.current_template_id(), Some(6));
    assert_eq!(info.new_job(job(7, 100, vec![out(101, 1)]), 1), WorkOutcome::NoWork);
    assert_eq!(info.current_template_id(), Some(6));
    assert_eq!(info.take_work().len(), 0);
}

#[test]
fn a_pool_update_before_any_job_is_kept_for_the_first_job() {
    let mut info = JobInfo::new(operator_script());
    assert_eq!(info.new_pool_update(update(500, vec![], None), 3, 0, false), WorkOutcome::NoWork);
    assert_eq!(info.pool_source(), Some(3));
    assert_eq!(info.new_job(job(1, 100, vec![]), 0), WorkOutcome::Issued);
    let work = issued(&mut info);
    assert_eq!(work.template.appended_coinbase_outputs[0].value, 50);
    assert_eq!(work.solutions.payout_source(), Some(3));
}

#[test]
fn the_preferred_pool_is_not_displaced_while_it_is_connected() {
    let mut info = JobInfo::new(operator_script());
    assert_eq!(info.new_job(job(1, 1_000, vec![]), 0), WorkOutcome::Issued);
    issued(&mut info);
    let first = info.new_pool_update(update(100, vec![], None), 11, 1, false);
    assert_eq!(first, WorkOutcome::Issued);
    let work = issued(&mut info);
    assert_eq!(work.template.appended_coinbase_outputs[0].value, 100);
    assert_eq!(work.solutions.job_source(), Some(0));
    assert_eq!(work.solutions.payout_source(), Some(11));
    let worse = info.new_pool_update(update(200, vec![], None), 12, 2, true);
    assert_eq!(worse, WorkOutcome::NoWork);
    assert_eq!(info.pool_source(), Some(11));
    let same = info.new_pool_update(update(300, vec![], None), 11, 1, true);
    assert_eq!(same, WorkOutcome::Issued);
    assert_eq!(issued(&mut info).template.appended_coinbase_outputs[0].value, 300);
    let better = info.new_pool_update(update(400, vec![], None), 10, 0, true);
    assert_eq!(better, WorkOutcome::Issued);
    assert_eq!(issued(&mut info).template.appended_coinbase_outputs[0].value, 400);
    assert_eq!(info.pool_source(), Some(10));
    let fallback = info.new_pool_update(update(500, vec![], None), 12, 2, false);
    assert_eq!(fallback, WorkOutcome::Issued);
    assert_eq!(issued(&mut info).template.appended_coinbase_outputs[0].value, 500);
    assert_eq!(info.pool_source(), Some(12));
    let unfit = info.new_pool_update(update(1001, vec![], None), 10, 0, true);
    assert_eq!(unfit, WorkOutcome::NoWork);
    assert_eq!(info.pool_source(), Some(12));
}

#[test]
fn work_that_finds_no_room_is_lost_but_the_job_stays_current() {
    let mut info = JobInfo::new(operator_script());
    for id in 1..=WORK_STREAM_CAPACITY as u64 {
        assert_eq!(info.new_job(job(id, 100, vec![]), 0), WorkOutcome::Issued);
    }
    assert_eq!(info.new_job(job(50, 100, vec![]), 0), WorkOutcome::TooFast);
    assert_eq!(info.current_template_id(), Some(50));
    let waiting: Vec<u64> = info.take_work().iter().map(|w| w.template.template_id).collect();
    assert_eq!(waiting, vec![1, 2, 3, 4, 5]);
    assert_eq!(info.new_job(job(51, 100, vec![]), 0), WorkOutcome::Issued);
}
