//! The merge of a block template with a pool's payout policy: the coinbase
//! outputs that pay the operator and the pool, and the target that a
//! solution has to meet.
use crate::job_provider::{ProviderJob, ProviderJobView};
use crate::payload::{duplicate_hashes, TxOut, TxOutView};
use crate::pool_handler::{PoolUpdate, PoolUpdateView};
use crate::router::{SolutionRouter, SolutionRouterView};
use crate::pool::{
    PoolDifficulty, PoolDifficultyView, PoolPayoutInfo, PoolPayoutInfoView, MAX_PAYOUT_RATIO,
};
use crate::target::{lesser_target, min_le};
use crate::wire::put_bytes;
use crate::work::{BlockTemplate, BlockTemplateView, CoinbasePrefixPostfixView};
use vstd::prelude::*;

verus! {

/// The most satoshi that there will ever be, and so the most that a single
/// output may sanely carry.
pub const MAX_MONEY: u64 = 2_100_000_000_000_000;

/// The sum of the amounts of `outs`.
pub open spec fn total_value(outs: Seq<TxOutView>) -> nat
    decreases outs.len(),
{
    if outs.len() == 0 {
        0
    } else {
        total_value(outs.drop_last()) + outs.last().value as nat
    }
}

/// Whether no output of `outs` carries more than there is money.
pub open spec fn values_sane(outs: Seq<TxOutView>) -> bool {
    forall|i: int| 0 <= i < outs.len() ==> (#[trigger] outs[i]).value <= MAX_MONEY
}

/// The operator's part of `value_remaining` at `ratio` thousandths,
/// rounded down.
pub open spec fn operator_share(value_remaining: nat, ratio: nat) -> nat {
    value_remaining * ratio / 1000
}

/// The operator's part, in thousandths: what the pool grants, or nothing
/// without a pool.
pub open spec fn self_ratio(pool: Option<PoolUpdateView>) -> nat {
    match pool {
        Some(update) => update.payout_info.self_payout_ratio_per_1000 as nat,
        None => 0,
    }
}

/// The outputs that the pool appends, or none without a pool.
pub open spec fn pool_outputs(
    pool: Option<PoolUpdateView>,
) -> Seq<TxOutView> {
    match pool {
        Some(update) => update.payout_info.appended_outputs,
        None => Seq::empty(),
    }
}

/// What the fixed outputs of the template and of the pool take from the
/// reward.
pub open spec fn constant_value_output(
    template: BlockTemplateView,
    pool: Option<PoolUpdateView>,
) -> nat {
    total_value(template.appended_coinbase_outputs) + total_value(pool_outputs(pool))
}

/// Whether the template and the pool's policy can be merged: every fixed
/// output is sane, the ratio is at most a thousand, and the fixed outputs
/// leave the reward no less than nothing.
pub open spec fn mergeable(
    template: BlockTemplateView,
    pool: Option<PoolUpdateView>,
) -> bool {
    &&& values_sane(template.appended_coinbase_outputs)
    &&& values_sane(pool_outputs(pool))
    &&& self_ratio(pool) <= MAX_PAYOUT_RATIO
    &&& constant_value_output(template, pool) <= template.coinbase_value_remaining
}

/// What is left of the reward once the fixed outputs are paid.
pub open spec fn value_remaining(
    template: BlockTemplateView,
    pool: Option<PoolUpdateView>,
) -> nat {
    (template.coinbase_value_remaining - constant_value_output(template, pool)) as nat
}

/// The outputs of the merged coinbase: the operator's first, then the
/// pool's own and the ones that it appends, then the ones that the template
/// appends.
pub open spec fn merged_outputs(
    our_payout_script: Seq<u8>,
    template: BlockTemplateView,
    pool: Option<PoolUpdateView>,
) -> Seq<TxOutView> {
    let remaining = value_remaining(template, pool);
    let ours = operator_share(remaining, self_ratio(pool));
    let operator = TxOutView { value: ours as u64, script_pubkey: our_payout_script };
    match pool {
        Some(update) => seq![
            operator,
            TxOutView {
                value: (remaining - ours) as u64,
                script_pubkey: update.payout_info.remaining_payout,
            },
        ] + update.payout_info.appended_outputs + template.appended_coinbase_outputs,
        None => seq![operator] + template.appended_coinbase_outputs,
    }
}

/// The target of the merged work: the least of the template's and, where
/// the pool named its targets, the pool's two.
pub open spec fn merged_target(
    target: Seq<u8>,
    pool: Option<PoolUpdateView>,
) -> Seq<u8> {
    match pool {
        Some(PoolUpdateView { difficulty: Some(difficulty), .. }) => lesser_target(
            lesser_target(target, difficulty.share_target),
            difficulty.weak_block_target,
        ),
        _ => target,
    }
}

/// The coinbase prefix of the merged work: the template's, then the
/// provider's addition, then the pool's.
pub open spec fn merged_prefix(
    prefix: Seq<u8>,
    postfix: Option<CoinbasePrefixPostfixView>,
    pool: Option<PoolUpdateView>,
) -> Seq<u8> {
    prefix + match postfix {
        Some(p) => p.coinbase_prefix_postfix,
        None => Seq::empty(),
    } + match pool {
        Some(update) => update.payout_info.coinbase_postfix,
        None => Seq::empty(),
    }
}

/// The template that miners work on: the provider's, with the merged
/// target, coinbase prefix and outputs. There is none without a template,
/// nor where template and pool cannot be merged.
pub open spec fn merged_template(
    our_payout_script: Seq<u8>,
    job: Option<ProviderJobView>,
    pool: Option<PoolUpdateView>,
) -> Option<BlockTemplateView> {
    match job {
        None => None,
        Some(job) => if !mergeable(job.template, pool) {
            None
        } else {
            Some(
                BlockTemplateView {
                    target: merged_target(job.template.target, pool),
                    coinbase_prefix: merged_prefix(
                        job.template.coinbase_prefix,
                        job.prefix_postfix,
                        pool,
                    ),
                    appended_coinbase_outputs: merged_outputs(
                        our_payout_script,
                        job.template,
                        pool,
                    ),
                    ..job.template
                },
            )
        },
    }
}

/// The sum over a list that was put together from two is the sum of both.
pub proof fn lemma_total_value_concat(a: Seq<TxOutView>, b: Seq<TxOutView>)
    ensures
        total_value(a + b) == total_value(a) + total_value(b),
    decreases b.len(),
{
    if b.len() == 0 {
        assert(a + b =~= a);
    } else {
        assert((a + b).drop_last() =~= a + b.drop_last());
        lemma_total_value_concat(a, b.drop_last());
    }
}

/// The operator's part is never more than what it is a part of, and is all
/// of it at a ratio of a thousand.
pub proof fn lemma_operator_share_bounds(value_remaining: nat, ratio: nat)
    requires
        ratio <= 1000,
    ensures
        operator_share(value_remaining, ratio) <= value_remaining,
        ratio == 1000 ==> operator_share(value_remaining, ratio) == value_remaining,
        ratio == 0 ==> operator_share(value_remaining, ratio) == 0,
{
    assert(value_remaining * ratio / 1000 <= value_remaining) by (nonlinear_arith)
        requires
            ratio <= 1000,
    ;
    assert(value_remaining * 1000 / 1000 == value_remaining) by (nonlinear_arith);
    assert(value_remaining * 0 / 1000 == 0) by (nonlinear_arith);
}

/// The sum of the amounts of `outs`, if none of them carries more than
/// there is money.
pub fn sum_sane_values(outs: &Vec<TxOut>) -> (sum: Option<u128>)
    ensures
        sum is Some <==> values_sane(outs.deep_view()),
        sum is Some ==> sum.unwrap() == total_value(outs.deep_view()),
        sum is Some ==> sum.unwrap() <= outs.len() * MAX_MONEY,
{
    let ghost all = outs.deep_view();
    let mut sum: u128 = 0;
    let mut i: usize = 0;
    assert(all.take(0) =~= Seq::empty());
    while i < outs.len()
        invariant
            i <= outs.len(),
            all == outs.deep_view(),
            sum == total_value(all.take(i as int)),
            sum <= i * MAX_MONEY,
            forall|j: int| 0 <= j < i ==> (#[trigger] all[j]).value <= MAX_MONEY,
        decreases outs.len() - i,
    {
        let value: u64 = outs[i].value;
        assert(all[i as int].value == value);
        if value > MAX_MONEY {
            return None;
        }
        proof {
            assert(all.take(i + 1).drop_last() =~= all.take(i as int));
        }
        sum = sum + value as u128;
        i += 1;
    }
    assert(all.take(i as int) =~= all);
    Some(sum)
}

/// Puts copies of the outputs of `src` behind those of `dst`.
pub fn append_outputs(dst: &mut Vec<TxOut>, src: &Vec<TxOut>)
    ensures
        final(dst).deep_view() == old(dst).deep_view() + src.deep_view(),
{
    let ghost start = dst.deep_view();
    let ghost all = src.deep_view();
    let mut i: usize = 0;
    assert(dst.deep_view() =~= start + all.take(0));
    while i < src.len()
        invariant
            i <= src.len(),
            all == src.deep_view(),
            dst.deep_view() == start + all.take(i as int),
        decreases src.len() - i,
    {
        let ghost before = dst.deep_view();
        let copy: TxOut = src[i].duplicate();
        dst.push(copy);
        assert(dst.deep_view() =~= before.push(copy@));
        assert(dst.deep_view() =~= start + all.take(i + 1));
        i += 1;
    }
    assert(all.take(i as int) =~= all);
}

/// Merges a provider's template with a pool's payout policy into the
/// template that miners work on. There is nothing to mine on without a
/// template; a template or a policy with an output beyond all money, a
/// ratio beyond a thousand, or fixed outputs beyond the reward is not
/// merged.
pub fn merge_template(
    our_payout_script: Vec<u8>,
    job_info: &Option<ProviderJob>,
    payout_info: &Option<PoolUpdate>,
) -> (work: Option<BlockTemplate>)
    ensures
        work.deep_view() == merged_template(
            our_payout_script@,
            job_info.deep_view(),
            payout_info.deep_view(),
        ),
{
    let (template, postfix) = match job_info {
        Some(job) => (&job.template, &job.prefix_postfix),
        None => {
            return None;
        },
    };
    let ghost pool = payout_info.deep_view();
    let mut constant_value_output: u128 = match sum_sane_values(
        &template.appended_coinbase_outputs,
    ) {
        Some(sum) => sum,
        None => {
            return None;
        },
    };
    let mut coinbase_prefix: Vec<u8> = template.coinbase_prefix.clone();
    match postfix {
        Some(p) => {
            put_bytes(&mut coinbase_prefix, p.coinbase_prefix_postfix.as_slice());
        },
        None => {},
    }
    let mut self_payout_ratio_per_1000: u16 = 0;
    match payout_info {
        Some(update) => {
            let info: &PoolPayoutInfo = &update.payout_info;
            match sum_sane_values(&info.appended_outputs) {
                Some(sum) => {
                    constant_value_output = constant_value_output + sum;
                },
                None => {
                    return None;
                },
            }
            if info.self_payout_ratio_per_1000 > MAX_PAYOUT_RATIO {
                return None;
            }
            self_payout_ratio_per_1000 = info.self_payout_ratio_per_1000;
        },
        None => {
            assert(pool_outputs(pool) =~= Seq::empty());
        },
    }
    if constant_value_output > template.coinbase_value_remaining as u128 {
        return None;
    }
    let value_remaining: u64 = template.coinbase_value_remaining - constant_value_output as u64;
    proof {
        lemma_operator_share_bounds(value_remaining as nat, self_payout_ratio_per_1000 as nat);
    }
    let our_value: u64 = (value_remaining as u128 * self_payout_ratio_per_1000 as u128
        / 1000) as u64;
    let mut outputs: Vec<TxOut> = Vec::new();
    outputs.push(TxOut { value: our_value, script_pubkey: our_payout_script });
    let mut target: [u8; 32] = template.target;
    match payout_info {
        Some(update) => {
            let info: &PoolPayoutInfo = &update.payout_info;
            let difficulty: &Option<PoolDifficulty> = &update.difficulty;
            outputs.push(
                TxOut {
                    value: value_remaining - our_value,
                    script_pubkey: info.remaining_payout.clone(),
                },
            );
            assert(outputs.deep_view() =~= seq![
                TxOutView { value: our_value, script_pubkey: our_payout_script@ },
                TxOutView {
                    value: (value_remaining - our_value) as u64,
                    script_pubkey: info@.remaining_payout,
                },
            ]);
            append_outputs(&mut outputs, &info.appended_outputs);
            match difficulty {
                Some(pool_diff) => {
                    target = min_le(target, pool_diff.share_target);
                    target = min_le(target, pool_diff.weak_block_target);
                },
                None => {},
            }
            put_bytes(&mut coinbase_prefix, info.coinbase_postfix.as_slice());
        },
        None => {
            assert(outputs.deep_view() =~= seq![
                TxOutView { value: our_value, script_pubkey: our_payout_script@ },
            ]);
        },
    }
    append_outputs(&mut outputs, &template.appended_coinbase_outputs);
    let merkle_rhss: Vec<[u8; 32]> = duplicate_hashes(&template.merkle_rhss);
    assert(merkle_rhss.deep_view() =~= template.merkle_rhss.deep_view());
    let merged = BlockTemplate {
        template_id: template.template_id,
        target,
        header_version: template.header_version,
        header_prevblock: template.header_prevblock,
        header_time: template.header_time,
        header_nbits: template.header_nbits,
        merkle_rhss,
        coinbase_value_remaining: template.coinbase_value_remaining,
        coinbase_version: template.coinbase_version,
        coinbase_prefix,
        coinbase_input_sequence: template.coinbase_input_sequence,
        appended_coinbase_outputs: outputs,
        coinbase_locktime: template.coinbase_locktime,
    };
    assert(merged@.coinbase_prefix =~= merged_prefix(
        template@.coinbase_prefix,
        postfix.deep_view(),
        pool,
    ));
    Some(merged)
}

/// Work for the miners: the merged template, and the router that takes
/// the solutions to it.
pub struct WorkInfo {
    pub template: BlockTemplate,
    pub solutions: SolutionRouter,
}

/// A `WorkInfo` as a mathematical value.
pub struct WorkInfoView {
    pub template: BlockTemplateView,
    pub solutions: SolutionRouterView,
}

impl View for WorkInfo {
    type V = WorkInfoView;

    open spec fn view(&self) -> WorkInfoView {
        WorkInfoView { template: self.template@, solutions: self.solutions@ }
    }
}

impl DeepView for WorkInfo {
    type V = WorkInfoView;

    open spec fn deep_view(&self) -> WorkInfoView {
        self@
    }
}

/// The work that a merged template makes: the template, with a router that
/// has seen nothing yet.
pub open spec fn fresh_work(
    template: BlockTemplateView,
    job: ProviderJobView,
    job_source: Option<usize>,
    payout_source: Option<usize>,
) -> WorkInfoView {
    WorkInfoView { template, solutions: fresh_router(template, job, job_source, payout_source) }
}

/// The router that merged work starts out with.
pub open spec fn fresh_router(
    template: BlockTemplateView,
    job: ProviderJobView,
    job_source: Option<usize>,
    payout_source: Option<usize>,
) -> SolutionRouterView {
    SolutionRouterView {
        target: template.target,
        job_source,
        payout_source,
        ticket: job.ticket,
        tx_data: None,
        waiting: Seq::empty(),
    }
}

/// Merges the latest job of a provider with the latest payout policy of a
/// pool into work for the miners. The work's template is the merged
/// template; its router sends solutions that meet the merged target to
/// `job_source` and offers every solution to `payout_source`, once the
/// answer to the job's request for transactions is in. There is no work
/// where there is no merged template.
pub fn merge_job_pool(
    our_payout_script: Vec<u8>,
    job_info: &Option<ProviderJob>,
    job_source: Option<usize>,
    payout_info: &Option<PoolUpdate>,
    payout_source: Option<usize>,
) -> (work: Option<WorkInfo>)
    ensures
        work.deep_view() == match merged_template(
            our_payout_script@,
            job_info.deep_view(),
            payout_info.deep_view(),
        ) {
            Some(template) => Some(
                fresh_work(template, job_info.deep_view().unwrap(), job_source, payout_source),
            ),
            None => None,
        },
{
    match merge_template(our_payout_script, job_info, payout_info) {
        Some(template) => {
            let ticket: u64 = match job_info {
                Some(job) => job.ticket,
                None => 0,
            };
            let solutions = SolutionRouter::new(template.target, job_source, payout_source, ticket);
            Some(WorkInfo { template, solutions })
        },
        None => None,
    }
}

/// The sum of a list of two outputs.
proof fn lemma_total_value_pair(a: TxOutView, b: TxOutView)
    ensures
        total_value(seq![a]) == a.value,
        total_value(seq![a, b]) == a.value + b.value,
{
    assert(seq![a].drop_last() =~= Seq::<TxOutView>::empty());
    assert(seq![a, b].drop_last() =~= seq![a]);
    assert(total_value(Seq::<TxOutView>::empty()) == 0);
    assert(total_value(seq![a]) == total_value(seq![a].drop_last()) + seq![a].last().value);
    assert(total_value(seq![a, b]) == total_value(seq![a, b].drop_last()) + seq![
        a,
        b,
    ].last().value);
}

/// In every merged work the outputs of the coinbase pay out no more than
/// the template's reward, and with a pool exactly the reward; the
/// operator's output comes first, pays to the operator's script, and
/// carries the operator's part of what the fixed outputs leave, rounded
/// down.
pub proof fn lemma_merged_outputs_within_reward(
    our_payout_script: Seq<u8>,
    job: Option<ProviderJobView>,
    pool: Option<PoolUpdateView>,
)
    ensures
        merged_template(our_payout_script, job, pool) matches Some(work) ==> {
            let template = job.unwrap().template;
            let outputs = work.appended_coinbase_outputs;
            &&& total_value(outputs) <= template.coinbase_value_remaining
            &&& pool is Some ==> total_value(outputs) == template.coinbase_value_remaining
            &&& outputs.len() >= 1
            &&& outputs[0].script_pubkey == our_payout_script
            &&& outputs[0].value == operator_share(
                value_remaining(template, pool),
                self_ratio(pool),
            )
        },
{
    if let Some(work) = merged_template(our_payout_script, job, pool) {
        let template = job.unwrap().template;
        let remaining = value_remaining(template, pool);
        let ours = operator_share(remaining, self_ratio(pool));
        lemma_operator_share_bounds(remaining, self_ratio(pool));
        let operator = TxOutView { value: ours as u64, script_pubkey: our_payout_script };
        match pool {
            Some(update) => {
                let info = update.payout_info;
                let theirs = TxOutView {
                    value: (remaining - ours) as u64,
                    script_pubkey: info.remaining_payout,
                };
                lemma_total_value_pair(operator, theirs);
                lemma_total_value_concat(seq![operator, theirs], info.appended_outputs);
                lemma_total_value_concat(
                    seq![operator, theirs] + info.appended_outputs,
                    template.appended_coinbase_outputs,
                );
            },
            None => {
                lemma_total_value_pair(operator, operator);
                lemma_total_value_concat(seq![operator], template.appended_coinbase_outputs);
                assert(pool_outputs(pool) =~= Seq::empty());
            },
        }
    }
}

/// Without a pool the operator's part is nought thousandths, so the
/// operator's output carries nothing, which is all of what is left only
/// where nothing is left; the outputs are the operator's and the
/// template's, and the target is the template's own.
pub proof fn lemma_merge_without_pool(
    our_payout_script: Seq<u8>,
    template: BlockTemplateView,
    postfix: Option<CoinbasePrefixPostfixView>,
    ticket: u64,
)
    ensures
        self_ratio(None) == 0,
        merged_template(
            our_payout_script,
            Some(ProviderJobView { template, prefix_postfix: postfix, ticket }),
            None,
        ) matches Some(work) ==> {
            &&& work.target == template.target
            &&& work.appended_coinbase_outputs == seq![
                TxOutView { value: 0, script_pubkey: our_payout_script },
            ] + template.appended_coinbase_outputs
            &&& (work.appended_coinbase_outputs[0].value == value_remaining(template, None)
                <==> value_remaining(template, None) == 0)
        },
{
    lemma_operator_share_bounds(value_remaining(template, None), 0);
}

/// With a pool that named its targets, the merged target is the least of
/// the template's target, the share target and the weak-block target: a
/// hash meets it exactly when it meets all three.
pub proof fn lemma_merge_intersects_targets(
    our_payout_script: Seq<u8>,
    template: BlockTemplateView,
    postfix: Option<CoinbasePrefixPostfixView>,
    ticket: u64,
    info: PoolPayoutInfoView,
    difficulty: PoolDifficultyView,
    hash: Seq<u8>,
)
    ensures
        merged_template(
            our_payout_script,
            Some(ProviderJobView { template, prefix_postfix: postfix, ticket }),
            Some(PoolUpdateView { payout_info: info, difficulty: Some(difficulty) }),
        ) matches Some(work) ==> {
            &&& work.target == lesser_target(
                lesser_target(template.target, difficulty.share_target),
                difficulty.weak_block_target,
            )
            &&& (work.target == template.target || work.target == difficulty.share_target
                || work.target == difficulty.weak_block_target)
            &&& (crate::target::meets_target(hash, work.target) <==> crate::target::meets_target(
                hash,
                template.target,
            ) && crate::target::meets_target(hash, difficulty.share_target)
                && crate::target::meets_target(hash, difficulty.weak_block_target))
        },
{
}

/// At a ratio of a thousand the operator's output carries all of what the
/// fixed outputs leave, and the pool's own output is there with nothing in
/// it; at a ratio of nought the operator's output carries nothing and the
/// pool's all.
pub proof fn lemma_merge_at_ratio_bounds(
    our_payout_script: Seq<u8>,
    template: BlockTemplateView,
    postfix: Option<CoinbasePrefixPostfixView>,
    ticket: u64,
    info: PoolPayoutInfoView,
    difficulty: Option<PoolDifficultyView>,
)
    ensures
        merged_template(
            our_payout_script,
            Some(ProviderJobView { template, prefix_postfix: postfix, ticket }),
            Some(PoolUpdateView { payout_info: info, difficulty }),
        ) matches Some(work) ==> {
            let outputs = work.appended_coinbase_outputs;
            let remaining = value_remaining(
                template,
                Some(PoolUpdateView { payout_info: info, difficulty }),
            );
            &&& outputs.len() >= 2
            &&& outputs[1].script_pubkey == info.remaining_payout
            &&& outputs[0].value + outputs[1].value == remaining
            &&& info.self_payout_ratio_per_1000 == 1000 ==> outputs[0].value == remaining
                && outputs[1].value == 0
            &&& info.self_payout_ratio_per_1000 == 0 ==> outputs[0].value == 0 && outputs[1].value
                == remaining
        },
{
    let pool = Some(PoolUpdateView { payout_info: info, difficulty });
    if mergeable(template, pool) {
        lemma_operator_share_bounds(
            value_remaining(template, pool),
            info.self_payout_ratio_per_1000 as nat,
        );
    }
}

} // verus!
