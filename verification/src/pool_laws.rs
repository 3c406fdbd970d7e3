//! What holds of the wire format of the pool protocol: what was written
//! reads back, and a beginning of it asks for more.
use crate::keys::{pubkey_parses, signature_parses};
use crate::payload::{
    encode_bytes16, encode_bytes8, encode_hash_list, encode_tx, encode_txout_list,
    lemma_bytes16_read_is_written, lemma_bytes8_read_is_written, lemma_hash_list_read_is_written,
    lemma_parse_bytes16, lemma_parse_bytes8, lemma_parse_hash_list, lemma_parse_tx,
    lemma_parse_txout_list, lemma_tx_read_is_written, lemma_txout_list_read_is_written,
    parse_bytes16, parse_bytes8, parse_hash_list, transaction_parses,
};
use crate::pool::{
    parse_payout_info, parse_pool_message, parse_share, PoolMessageView, PoolPayoutInfoView,
    PoolShareView, MAX_PAYOUT_RATIO, POOL_PAYOUT_INFO,
};
use crate::wire::{
    agrees, avail, bytes_at, expected, lemma_agrees_first, lemma_agrees_prefix, lemma_agrees_split,
    lemma_agrees_whole, lemma_bytes_stand, lemma_read_u16, lemma_read_u32, lemma_read_u64,
    lemma_stands_agrees, lemma_stands_join, lemma_stands_means, lemma_u16_round_trip,
    lemma_u16_stands, lemma_u32_round_trip, lemma_u32_stands, lemma_u64_round_trip,
    lemma_u64_stands, stands, u16_at, u16_le, u32_le, u64_le, Parsed,
};
use crate::work::{MAX_COINBASE_PREFIX, MAX_MERKLE_RHSS};
use vstd::prelude::*;

verus! {

impl PoolMessageView {
    /// Whether the keys, signatures and transactions that the message
    /// carries are what they claim to be, as far as their bytes show.
    pub open spec fn parses(self) -> bool {
        match self {
            PoolMessageView::ProtocolVersion { auth_key, .. } => pubkey_parses(auth_key),
            PoolMessageView::PayoutInfo { signature, .. } => signature_parses(signature),
            PoolMessageView::Share { share } => transaction_parses(share.coinbase_tx),
            _ => true,
        }
    }

    /// Whether the reader knows where the message ends: every kind but the
    /// weak block.
    pub open spec fn delimited(self) -> bool {
        !(self is WeakBlock)
    }
}

/// A payout policy reads back from wherever its encoding stands, and a
/// cut-off encoding asks for more.
pub proof fn lemma_parse_payout_info(buf: Seq<u8>, pos: int, p: PoolPayoutInfoView)
    requires
        p.encodable(),
        agrees(buf, pos, p.encoding()),
    ensures
        parse_payout_info(buf, pos) == expected(buf, pos, p.encoding(), p),
{
    lemma_u64_round_trip(p.timestamp);
    lemma_u16_round_trip(p.self_payout_ratio_per_1000);
    let e0 = u64_le(p.timestamp);
    let e1 = e0 + u16_le(p.self_payout_ratio_per_1000);
    let postfix = encode_bytes8(p.coinbase_postfix);
    let e2 = e1 + postfix;
    let script = encode_bytes16(p.remaining_payout);
    let e3 = e2 + script;
    let outs = encode_txout_list(p.appended_outputs);
    lemma_agrees_split(buf, pos, e3, outs);
    lemma_agrees_split(buf, pos, e2, script);
    lemma_agrees_split(buf, pos, e1, postfix);
    lemma_agrees_split(buf, pos, e0, u16_le(p.self_payout_ratio_per_1000));
    if avail(buf, pos, 10) {
        lemma_read_u64(buf, pos, p.timestamp);
        lemma_read_u16(buf, pos + 8, p.self_payout_ratio_per_1000);
        lemma_parse_bytes8(buf, pos + 10, MAX_COINBASE_PREFIX as int, p.coinbase_postfix);
        if pos + e2.len() <= buf.len() {
            lemma_parse_bytes16(buf, pos + e2.len(), p.remaining_payout);
            if pos + e3.len() <= buf.len() {
                lemma_parse_txout_list(buf, pos + e3.len(), p.appended_outputs);
            }
        }
    }
}

/// The header fields of a share read back from where they stand.
proof fn lemma_share_header(buf: Seq<u8>, pos: int, s: PoolShareView)
    requires
        s.header_prevblock.len() == 32,
        agrees(buf, pos, s.header()),
    ensures
        s.header().len() == 48,
        avail(buf, pos, 48) ==> {
            &&& crate::wire::u32_at(buf, pos) == s.header_version
            &&& crate::wire::bytes_at(buf, pos + 4, 32) == s.header_prevblock
            &&& crate::wire::u32_at(buf, pos + 36) == s.header_time
            &&& crate::wire::u32_at(buf, pos + 40) == s.header_nbits
            &&& crate::wire::u32_at(buf, pos + 44) == s.header_nonce
        },
{
    lemma_u32_round_trip(s.header_version);
    lemma_u32_round_trip(s.header_time);
    lemma_u32_round_trip(s.header_nbits);
    lemma_u32_round_trip(s.header_nonce);
    let h0 = u32_le(s.header_version);
    let h1 = h0 + s.header_prevblock;
    let h2 = h1 + u32_le(s.header_time);
    let h3 = h2 + u32_le(s.header_nbits);
    lemma_agrees_split(buf, pos, h3, u32_le(s.header_nonce));
    lemma_agrees_split(buf, pos, h2, u32_le(s.header_nbits));
    lemma_agrees_split(buf, pos, h1, u32_le(s.header_time));
    lemma_agrees_split(buf, pos, h0, s.header_prevblock);
    if avail(buf, pos, 48) {
        lemma_read_u32(buf, pos, s.header_version);
        lemma_agrees_whole(buf, pos + 4, s.header_prevblock);
        lemma_read_u32(buf, pos + 36, s.header_time);
        lemma_read_u32(buf, pos + 40, s.header_nbits);
        lemma_read_u32(buf, pos + 44, s.header_nonce);
    }
}

/// A share reads back from wherever its encoding stands, and a cut-off
/// encoding asks for more.
pub proof fn lemma_parse_share(buf: Seq<u8>, pos: int, s: PoolShareView)
    requires
        s.encodable(),
        agrees(buf, pos, s.encoding()),
    ensures
        transaction_parses(s.coinbase_tx) ==> parse_share(buf, pos) == expected(
            buf,
            pos,
            s.encoding(),
            s,
        ),
{
    let e0 = s.header();
    let hashes = encode_hash_list(s.merkle_rhss);
    let e1 = e0 + hashes;
    lemma_agrees_split(buf, pos, e1, encode_tx(s.coinbase_tx));
    lemma_agrees_split(buf, pos, e0, hashes);
    lemma_share_header(buf, pos, s);
    if avail(buf, pos, 48) {
        lemma_parse_hash_list(buf, pos + 48, MAX_MERKLE_RHSS as int, s.merkle_rhss);
        if pos + e1.len() <= buf.len() {
            lemma_parse_tx(buf, pos + e1.len(), s.coinbase_tx);
        }
    }
}

/// A message reads back from a buffer that starts with its encoding, and a
/// buffer that holds only a beginning of the encoding asks for more.
pub proof fn lemma_parse_pool_message(buf: Seq<u8>, m: PoolMessageView)
    requires
        m.encodable(),
        m.delimited(),
        agrees(buf, 0, m.encoding()),
    ensures
        m.parses() ==> parse_pool_message(buf) == expected(buf, 0, m.encoding(), m),
{
    lemma_agrees_split(buf, 0, seq![m.tag()], m.body());
    if buf.len() > 0 && m.parses() {
        lemma_agrees_first(buf, 0, m.encoding());
        match m {
            PoolMessageView::ProtocolSupport { max_version, min_version, flags } => {
                lemma_u16_round_trip(max_version);
                lemma_u16_round_trip(min_version);
                lemma_u16_round_trip(flags);
                let e0 = u16_le(max_version);
                let e1 = e0 + u16_le(min_version);
                lemma_agrees_split(buf, 1, e1, u16_le(flags));
                lemma_agrees_split(buf, 1, e0, u16_le(min_version));
                if avail(buf, 1, 6) {
                    lemma_read_u16(buf, 1, max_version);
                    lemma_read_u16(buf, 3, min_version);
                    lemma_read_u16(buf, 5, flags);
                }
            },
            PoolMessageView::ProtocolVersion { selected_version, auth_key } => {
                lemma_u16_round_trip(selected_version);
                lemma_agrees_split(buf, 1, u16_le(selected_version), auth_key);
                if avail(buf, 1, 35) {
                    lemma_read_u16(buf, 1, selected_version);
                    lemma_agrees_whole(buf, 3, auth_key);
                }
            },
            PoolMessageView::PayoutInfo { signature, payout_info } => {
                lemma_agrees_split(buf, 1, signature, payout_info.encoding());
                lemma_parse_payout_info(buf, 65, payout_info);
                if avail(buf, 1, 64) {
                    lemma_agrees_whole(buf, 1, signature);
                }
            },
            PoolMessageView::ShareDifficulty { difficulty } => {
                lemma_agrees_split(buf, 1, difficulty.share_target, difficulty.weak_block_target);
                if avail(buf, 1, 64) {
                    lemma_agrees_whole(buf, 1, difficulty.share_target);
                    lemma_agrees_whole(buf, 33, difficulty.weak_block_target);
                }
            },
            PoolMessageView::Share { share } => {
                lemma_parse_share(buf, 1, share);
            },
            PoolMessageView::WeakBlock { .. } => {},
            PoolMessageView::WeakBlockStateReset => {},
        }
    }
}

/// Reading is a left inverse of writing: a buffer that starts with the
/// encoding of a message yields that message and the encoding's length,
/// whatever follows.
pub proof fn lemma_pool_round_trip(m: PoolMessageView, rest: Seq<u8>)
    requires
        m.encodable(),
        m.delimited(),
    ensures
        m.parses() ==> parse_pool_message(m.encoding() + rest) == (Parsed::Complete {
            value: m,
            next: m.encoding().len() as int,
        }),
{
    lemma_agrees_prefix(m.encoding(), rest, 0);
    lemma_parse_pool_message(m.encoding() + rest, m);
}

/// A buffer that holds only the first `k` bytes of a message's encoding, and
/// not all of them, asks for more.
pub proof fn lemma_pool_partial(m: PoolMessageView, k: int)
    requires
        m.encodable(),
        0 <= k < m.encoding().len(),
    ensures
        m.parses() ==> parse_pool_message(m.encoding().subrange(0, k)) == Parsed::<
            PoolMessageView,
        >::NeedMore,
{
    lemma_agrees_prefix(m.encoding(), Seq::empty(), k);
    if m.delimited() {
        lemma_parse_pool_message(m.encoding().subrange(0, k), m);
    } else if k > 0 {
        assert(m.encoding().subrange(0, k)[0] == m.encoding()[0]);
    }
}

/// A payout policy whose ratio is above a thousand is refused as soon as
/// the ratio is there.
pub proof fn lemma_ratio_out_of_range(buf: Seq<u8>)
    requires
        buf.len() >= 75,
        buf[0] == POOL_PAYOUT_INFO,
        u16_at(buf, 73) > MAX_PAYOUT_RATIO,
    ensures
        parse_pool_message(buf) == Parsed::<PoolMessageView>::Invalid,
{
}

/// A payout policy that was read in full keeps the bounds of the format,
/// and stands in the buffer as it is written.
pub proof fn lemma_payout_info_read_is_written(buf: Seq<u8>, pos: int)
    ensures
        parse_payout_info(buf, pos) matches Parsed::Complete { value, next } ==> value.encodable()
            && stands(buf, pos, next, value.encoding()),
{
    if let Parsed::Complete { value: p, next } = parse_payout_info(buf, pos) {
        lemma_u64_stands(buf, pos);
        lemma_u16_stands(buf, pos + 8);
        let e0 = u64_le(p.timestamp);
        let e1 = e0 + u16_le(p.self_payout_ratio_per_1000);
        lemma_stands_join(buf, pos, pos + 8, pos + 10, e0, u16_le(p.self_payout_ratio_per_1000));
        lemma_bytes8_read_is_written(buf, pos + 10, MAX_COINBASE_PREFIX as int);
        if let Parsed::Complete { next: after_postfix, .. } = parse_bytes8(
            buf,
            pos + 10,
            MAX_COINBASE_PREFIX as int,
        ) {
            let postfix = encode_bytes8(p.coinbase_postfix);
            let e2 = e1 + postfix;
            lemma_stands_join(buf, pos, pos + 10, after_postfix, e1, postfix);
            lemma_bytes16_read_is_written(buf, after_postfix);
            if let Parsed::Complete { next: after_script, .. } = parse_bytes16(
                buf,
                after_postfix,
            ) {
                let script = encode_bytes16(p.remaining_payout);
                let e3 = e2 + script;
                lemma_stands_join(buf, pos, after_postfix, after_script, e2, script);
                lemma_txout_list_read_is_written(buf, after_script);
                lemma_stands_join(
                    buf,
                    pos,
                    after_script,
                    next,
                    e3,
                    encode_txout_list(p.appended_outputs),
                );
            }
        }
    }
}

/// A share that was read in full keeps the bounds of the format, carries a
/// transaction, and stands in the buffer as it is written.
pub proof fn lemma_share_read_is_written(buf: Seq<u8>, pos: int)
    ensures
        parse_share(buf, pos) matches Parsed::Complete { value, next } ==> value.encodable()
            && transaction_parses(value.coinbase_tx) && stands(buf, pos, next, value.encoding()),
{
    if let Parsed::Complete { value: s, next } = parse_share(buf, pos) {
        lemma_u32_stands(buf, pos);
        lemma_bytes_stand(buf, pos + 4, 32);
        lemma_u32_stands(buf, pos + 36);
        lemma_u32_stands(buf, pos + 40);
        lemma_u32_stands(buf, pos + 44);
        let h0 = u32_le(s.header_version);
        let h1 = h0 + s.header_prevblock;
        let h2 = h1 + u32_le(s.header_time);
        let h3 = h2 + u32_le(s.header_nbits);
        lemma_stands_join(buf, pos, pos + 4, pos + 36, h0, s.header_prevblock);
        lemma_stands_join(buf, pos, pos + 36, pos + 40, h1, u32_le(s.header_time));
        lemma_stands_join(buf, pos, pos + 40, pos + 44, h2, u32_le(s.header_nbits));
        lemma_stands_join(buf, pos, pos + 44, pos + 48, h3, u32_le(s.header_nonce));
        lemma_hash_list_read_is_written(buf, pos + 48, MAX_MERKLE_RHSS as int);
        if let Parsed::Complete { next: after_rhss, .. } = parse_hash_list(
            buf,
            pos + 48,
            MAX_MERKLE_RHSS as int,
        ) {
            let hashes = encode_hash_list(s.merkle_rhss);
            lemma_stands_join(buf, pos, pos + 48, after_rhss, s.header(), hashes);
            lemma_tx_read_is_written(buf, after_rhss);
            lemma_stands_join(
                buf,
                pos,
                after_rhss,
                next,
                s.header() + hashes,
                encode_tx(s.coinbase_tx),
            );
        }
    }
}

/// A message that was read keeps the bounds of the format, carries only
/// what parses, and stands at the start of the buffer as it is written:
/// nothing is read that was not written.
pub proof fn lemma_pool_read_is_written(buf: Seq<u8>)
    ensures
        parse_pool_message(buf) matches Parsed::Complete { value, next } ==> value.encodable()
            && value.delimited() && value.parses() && stands(buf, 0, next, value.encoding()),
{
    if let Parsed::Complete { value: m, next } = parse_pool_message(buf) {
        lemma_bytes_stand(buf, 0, 1);
        assert(bytes_at(buf, 0, 1) =~= seq![m.tag()]);
        match m {
            PoolMessageView::ProtocolSupport { max_version, min_version, flags } => {
                lemma_u16_stands(buf, 1);
                lemma_u16_stands(buf, 3);
                lemma_u16_stands(buf, 5);
                let e0 = u16_le(max_version);
                let e1 = e0 + u16_le(min_version);
                lemma_stands_join(buf, 1, 3, 5, e0, u16_le(min_version));
                lemma_stands_join(buf, 1, 5, 7, e1, u16_le(flags));
            },
            PoolMessageView::ProtocolVersion { selected_version, auth_key } => {
                lemma_u16_stands(buf, 1);
                lemma_bytes_stand(buf, 3, 33);
                lemma_stands_join(buf, 1, 3, 36, u16_le(selected_version), auth_key);
            },
            PoolMessageView::PayoutInfo { signature, payout_info } => {
                lemma_bytes_stand(buf, 1, 64);
                lemma_payout_info_read_is_written(buf, 65);
                lemma_stands_join(buf, 1, 65, next, signature, payout_info.encoding());
            },
            PoolMessageView::ShareDifficulty { difficulty } => {
                lemma_bytes_stand(buf, 1, 32);
                lemma_bytes_stand(buf, 33, 32);
                lemma_stands_join(
                    buf,
                    1,
                    33,
                    65,
                    difficulty.share_target,
                    difficulty.weak_block_target,
                );
            },
            PoolMessageView::Share { share } => {
                lemma_share_read_is_written(buf, 1);
            },
            PoolMessageView::WeakBlock { .. } => {},
            PoolMessageView::WeakBlockStateReset => {
                lemma_bytes_stand(buf, 1, 0);
                assert(bytes_at(buf, 1, 0) =~= Seq::<u8>::empty());
            },
        }
        lemma_stands_join(buf, 0, 1, next, seq![m.tag()], m.body());
    }
}

/// A buffer yields a message exactly when it starts with the encoding of
/// that message, the message is of a kind that says where it ends and keeps
/// the bounds of the format, and what it carries parses.
pub proof fn lemma_pool_read_iff_written(buf: Seq<u8>, m: PoolMessageView, next: int)
    ensures
        parse_pool_message(buf) == (Parsed::Complete { value: m, next }) <==> m.encodable()
            && m.delimited() && m.parses() && stands(buf, 0, next, m.encoding()),
{
    lemma_pool_read_is_written(buf);
    if m.encodable() && m.delimited() && m.parses() && stands(buf, 0, next, m.encoding()) {
        lemma_stands_agrees(buf, 0, next, m.encoding());
        lemma_stands_means(buf, 0, next, m.encoding());
        lemma_parse_pool_message(buf, m);
    }
}

} // verus!
