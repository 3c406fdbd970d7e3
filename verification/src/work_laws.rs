//! What holds of the wire format of the job-provider protocol: what was
//! written reads back, and a beginning of it asks for more.
use crate::keys::{pubkey_parses, signature_parses};
use crate::payload::{
    encode_bytes8, encode_hash_list, encode_tx, encode_txout_list, encode_txs,
    lemma_bytes8_read_is_written, lemma_encode_txs_len, lemma_hash_list_read_is_written,
    lemma_parse_bytes8, lemma_parse_hash_list, lemma_parse_tx, lemma_parse_txout_list,
    lemma_parse_txs, lemma_tx_read_is_written, lemma_txout_list_read_is_written,
    lemma_txs_read_are_written, parse_bytes8, parse_hash_list, parse_txout_list, transaction_parses,
    txs_parse,
};
use crate::wire::{
    agrees, avail, bytes_at, expected, lemma_agrees_first, lemma_agrees_prefix, lemma_agrees_split,
    lemma_agrees_whole, lemma_bytes_stand, lemma_read_u16, lemma_read_u32, lemma_read_u64,
    lemma_stands_agrees, lemma_stands_join, lemma_stands_means, lemma_u16_round_trip,
    lemma_u16_stands, lemma_u32_round_trip, lemma_u32_stands, lemma_u64_round_trip,
    lemma_u64_stands, stands, u16_le, u32_at, u32_le, u64_at, u64_le, Parsed,
};
use crate::work::{
    parse_block_template, parse_prefix_postfix, parse_transaction_data, parse_winning_nonce,
    parse_work_message, BlockTemplateView, CoinbasePrefixPostfixView, TransactionDataView,
    WinningNonceView, WorkMessageView, MAX_COINBASE_PREFIX, MAX_MERKLE_RHSS, MIN_TEMPLATE_MESSAGE,
    WORK_BLOCK_TEMPLATE,
};
use vstd::prelude::*;

verus! {

impl WorkMessageView {
    /// Whether the keys, signatures and transactions that the message
    /// carries are what they claim to be, as far as their bytes show.
    pub open spec fn parses(self) -> bool {
        match self {
            WorkMessageView::ProtocolSupport { .. } => true,
            WorkMessageView::ProtocolVersion { auth_key, .. } => pubkey_parses(auth_key),
            WorkMessageView::BlockTemplate { signature, .. } => signature_parses(signature),
            WorkMessageView::WinningNonce { nonces } => transaction_parses(nonces.coinbase_tx),
            WorkMessageView::TransactionDataRequest { .. } => true,
            WorkMessageView::TransactionData { signature, data } => signature_parses(signature)
                && txs_parse(data.transactions),
            WorkMessageView::CoinbasePrefixPostfix { signature, .. } => signature_parses(
                signature,
            ),
        }
    }
}

/// The fixed fields of a template read back from where they stand.
proof fn lemma_template_header(buf: Seq<u8>, pos: int, t: BlockTemplateView)
    requires
        t.target.len() == 32,
        t.header_prevblock.len() == 32,
        agrees(buf, pos, t.header()),
    ensures
        t.header().len() == 84,
        avail(buf, pos, 84) ==> {
            &&& u64_at(buf, pos) == t.template_id
            &&& bytes_at(buf, pos + 8, 32) == t.target
            &&& u32_at(buf, pos + 40) == t.header_version
            &&& bytes_at(buf, pos + 44, 32) == t.header_prevblock
            &&& u32_at(buf, pos + 76) == t.header_time
            &&& u32_at(buf, pos + 80) == t.header_nbits
        },
{
    lemma_u64_round_trip(t.template_id);
    lemma_u32_round_trip(t.header_version);
    lemma_u32_round_trip(t.header_time);
    lemma_u32_round_trip(t.header_nbits);
    let h0 = u64_le(t.template_id);
    let h1 = h0 + t.target;
    let h2 = h1 + u32_le(t.header_version);
    let h3 = h2 + t.header_prevblock;
    let h4 = h3 + u32_le(t.header_time);
    lemma_agrees_split(buf, pos, h4, u32_le(t.header_nbits));
    lemma_agrees_split(buf, pos, h3, u32_le(t.header_time));
    lemma_agrees_split(buf, pos, h2, t.header_prevblock);
    lemma_agrees_split(buf, pos, h1, u32_le(t.header_version));
    lemma_agrees_split(buf, pos, h0, t.target);
    if avail(buf, pos, 84) {
        lemma_read_u64(buf, pos, t.template_id);
        lemma_agrees_whole(buf, pos + 8, t.target);
        lemma_read_u32(buf, pos + 40, t.header_version);
        lemma_agrees_whole(buf, pos + 44, t.header_prevblock);
        lemma_read_u32(buf, pos + 76, t.header_time);
        lemma_read_u32(buf, pos + 80, t.header_nbits);
    }
}

/// A template reads back from wherever its encoding stands, and a cut-off
/// encoding asks for more.
pub proof fn lemma_parse_block_template(buf: Seq<u8>, pos: int, t: BlockTemplateView)
    requires
        t.encodable(),
        agrees(buf, pos, t.encoding()),
    ensures
        parse_block_template(buf, pos) == expected(buf, pos, t.encoding(), t),
        t.encoding().len() >= 107,
{
    lemma_u64_round_trip(t.coinbase_value_remaining);
    lemma_u32_round_trip(t.coinbase_version);
    lemma_u32_round_trip(t.coinbase_input_sequence);
    lemma_u32_round_trip(t.coinbase_locktime);
    let e0 = t.header();
    let hashes = encode_hash_list(t.merkle_rhss);
    let e1 = e0 + hashes;
    let e2 = e1 + u64_le(t.coinbase_value_remaining);
    let e3 = e2 + u32_le(t.coinbase_version);
    let prefix = encode_bytes8(t.coinbase_prefix);
    let e4 = e3 + prefix;
    let e5 = e4 + u32_le(t.coinbase_input_sequence);
    let outs = encode_txout_list(t.appended_coinbase_outputs);
    let e6 = e5 + outs;
    assert(t.encoding() == e6 + u32_le(t.coinbase_locktime));
    lemma_agrees_split(buf, pos, e6, u32_le(t.coinbase_locktime));
    lemma_agrees_split(buf, pos, e5, outs);
    lemma_agrees_split(buf, pos, e4, u32_le(t.coinbase_input_sequence));
    lemma_agrees_split(buf, pos, e3, prefix);
    lemma_agrees_split(buf, pos, e2, u32_le(t.coinbase_version));
    lemma_agrees_split(buf, pos, e1, u64_le(t.coinbase_value_remaining));
    lemma_agrees_split(buf, pos, e0, hashes);
    lemma_template_header(buf, pos, t);
    if avail(buf, pos, 84) {
        lemma_parse_hash_list(buf, pos + 84, MAX_MERKLE_RHSS as int, t.merkle_rhss);
        let after_rhss = pos + e1.len();
        if after_rhss <= buf.len() {
            if avail(buf, after_rhss, 12) {
                lemma_read_u64(buf, after_rhss, t.coinbase_value_remaining);
                lemma_read_u32(buf, after_rhss + 8, t.coinbase_version);
                lemma_parse_bytes8(
                    buf,
                    after_rhss + 12,
                    MAX_COINBASE_PREFIX as int,
                    t.coinbase_prefix,
                );
                let after_prefix = pos + e4.len();
                if after_prefix <= buf.len() {
                    if avail(buf, after_prefix, 4) {
                        lemma_read_u32(buf, after_prefix, t.coinbase_input_sequence);
                        lemma_parse_txout_list(buf, after_prefix + 4, t.appended_coinbase_outputs);
                        let after_outputs = pos + e6.len();
                        if after_outputs <= buf.len() {
                            if avail(buf, after_outputs, 4) {
                                lemma_read_u32(buf, after_outputs, t.coinbase_locktime);
                            }
                        }
                    }
                }
            }
        }
    }
}

/// An addition to the coinbase prefix reads back from wherever its
/// encoding stands, and a cut-off encoding asks for more.
pub proof fn lemma_parse_prefix_postfix(buf: Seq<u8>, pos: int, p: CoinbasePrefixPostfixView)
    requires
        p.encodable(),
        agrees(buf, pos, p.encoding()),
    ensures
        parse_prefix_postfix(buf, pos) == expected(buf, pos, p.encoding(), p),
{
    lemma_u64_round_trip(p.timestamp);
    lemma_agrees_split(buf, pos, u64_le(p.timestamp), encode_bytes8(p.coinbase_prefix_postfix));
    if avail(buf, pos, 8) {
        lemma_read_u64(buf, pos, p.timestamp);
        lemma_parse_bytes8(buf, pos + 8, MAX_COINBASE_PREFIX as int, p.coinbase_prefix_postfix);
    }
}

/// A solution reads back from wherever its encoding stands, and a cut-off
/// encoding asks for more.
pub proof fn lemma_parse_winning_nonce(buf: Seq<u8>, pos: int, w: WinningNonceView)
    requires
        w.encodable(),
        agrees(buf, pos, w.encoding()),
    ensures
        transaction_parses(w.coinbase_tx) ==> parse_winning_nonce(buf, pos) == expected(
            buf,
            pos,
            w.encoding(),
            w,
        ),
{
    lemma_u64_round_trip(w.template_id);
    lemma_u32_round_trip(w.header_version);
    lemma_u32_round_trip(w.header_time);
    lemma_u32_round_trip(w.header_nonce);
    let e0 = u64_le(w.template_id);
    let e1 = e0 + u32_le(w.header_version);
    let e2 = e1 + u32_le(w.header_time);
    let e3 = e2 + u32_le(w.header_nonce);
    lemma_agrees_split(buf, pos, e3, encode_tx(w.coinbase_tx));
    lemma_agrees_split(buf, pos, e2, u32_le(w.header_nonce));
    lemma_agrees_split(buf, pos, e1, u32_le(w.header_time));
    lemma_agrees_split(buf, pos, e0, u32_le(w.header_version));
    if avail(buf, pos, 20) {
        lemma_read_u64(buf, pos, w.template_id);
        lemma_read_u32(buf, pos + 8, w.header_version);
        lemma_read_u32(buf, pos + 12, w.header_time);
        lemma_read_u32(buf, pos + 16, w.header_nonce);
        lemma_parse_tx(buf, pos + 20, w.coinbase_tx);
    }
}

/// The transactions of a template read back from wherever their encoding
/// stands, and a cut-off encoding asks for more.
pub proof fn lemma_parse_transaction_data(buf: Seq<u8>, pos: int, d: TransactionDataView)
    requires
        d.encodable(),
        agrees(buf, pos, d.encoding()),
    ensures
        txs_parse(d.transactions) ==> parse_transaction_data(buf, pos) == expected(
            buf,
            pos,
            d.encoding(),
            d,
        ),
{
    let n = d.transactions.len() as u32;
    lemma_u64_round_trip(d.template_id);
    lemma_u32_round_trip(n);
    lemma_encode_txs_len(d.transactions);
    let e0 = u64_le(d.template_id);
    let e1 = e0 + u32_le(n);
    lemma_agrees_split(buf, pos, e1, encode_txs(d.transactions));
    lemma_agrees_split(buf, pos, e0, u32_le(n));
    if avail(buf, pos, 12) {
        lemma_read_u64(buf, pos, d.template_id);
        lemma_read_u32(buf, pos + 8, n);
        lemma_parse_txs(buf, pos + 12, d.transactions);
    }
}

/// A message reads back from a buffer that starts with its encoding, and a
/// buffer that holds only a beginning of the encoding asks for more.
pub proof fn lemma_parse_work_message(buf: Seq<u8>, m: WorkMessageView)
    requires
        m.encodable(),
        agrees(buf, 0, m.encoding()),
    ensures
        m.parses() ==> parse_work_message(buf) == expected(buf, 0, m.encoding(), m),
{
    lemma_agrees_split(buf, 0, seq![m.tag()], m.body());
    if buf.len() > 0 && m.parses() {
        lemma_agrees_first(buf, 0, m.encoding());
        match m {
            WorkMessageView::ProtocolSupport { max_version, min_version, flags } => {
                lemma_u16_round_trip(max_version);
                lemma_u16_round_trip(min_version);
                lemma_u16_round_trip(flags);
                let e0 = u16_le(max_version);
                let e1 = e0 + u16_le(min_version);
                lemma_agrees_split(buf, 1, e1, u16_le(flags));
                lemma_agrees_split(buf, 1, e0, u16_le(min_version));
                if avail(buf, 1, 6) {
                    lemma_read_u16(buf, 1, max_version);
                    lemma_read_u16(buf, 3, min_version);
                    lemma_read_u16(buf, 5, flags);
                }
            },
            WorkMessageView::ProtocolVersion { selected_version, auth_key } => {
                lemma_u16_round_trip(selected_version);
                lemma_agrees_split(buf, 1, u16_le(selected_version), auth_key);
                if avail(buf, 1, 35) {
                    lemma_read_u16(buf, 1, selected_version);
                    lemma_agrees_whole(buf, 3, auth_key);
                }
            },
            WorkMessageView::BlockTemplate { signature, template } => {
                lemma_agrees_split(buf, 1, signature, template.encoding());
                lemma_parse_block_template(buf, 65, template);
                if avail(buf, 1, 64) {
                    lemma_agrees_whole(buf, 1, signature);
                }
            },
            WorkMessageView::WinningNonce { nonces } => {
                lemma_parse_winning_nonce(buf, 1, nonces);
            },
            WorkMessageView::TransactionDataRequest { template_id } => {
                lemma_u64_round_trip(template_id);
                if avail(buf, 1, 8) {
                    lemma_read_u64(buf, 1, template_id);
                }
            },
            WorkMessageView::TransactionData { signature, data } => {
                lemma_agrees_split(buf, 1, signature, data.encoding());
                lemma_parse_transaction_data(buf, 65, data);
                if avail(buf, 1, 64) {
                    lemma_agrees_whole(buf, 1, signature);
                }
            },
            WorkMessageView::CoinbasePrefixPostfix { signature, coinbase_prefix_postfix } => {
                lemma_agrees_split(buf, 1, signature, coinbase_prefix_postfix.encoding());
                lemma_parse_prefix_postfix(buf, 65, coinbase_prefix_postfix);
                if avail(buf, 1, 64) {
                    lemma_agrees_whole(buf, 1, signature);
                }
            },
        }
    }
}

/// Reading is a left inverse of writing: a buffer that starts with the
/// encoding of a message yields that message and the encoding's length,
/// whatever follows.
pub proof fn lemma_work_round_trip(m: WorkMessageView, rest: Seq<u8>)
    requires
        m.encodable(),
    ensures
        m.parses() ==> parse_work_message(m.encoding() + rest) == (Parsed::Complete {
            value: m,
            next: m.encoding().len() as int,
        }),
{
    lemma_agrees_prefix(m.encoding(), rest, 0);
    lemma_parse_work_message(m.encoding() + rest, m);
}

/// A buffer that holds only the first `k` bytes of a message's encoding, and
/// not all of them, asks for more.
pub proof fn lemma_work_partial(m: WorkMessageView, k: int)
    requires
        m.encodable(),
        0 <= k < m.encoding().len(),
    ensures
        m.parses() ==> parse_work_message(m.encoding().subrange(0, k)) == Parsed::<
            WorkMessageView,
        >::NeedMore,
{
    lemma_agrees_prefix(m.encoding(), Seq::empty(), k);
    lemma_parse_work_message(m.encoding().subrange(0, k), m);
}

/// A template message that announces more than fifteen Merkle partners is
/// refused as soon as the least template message is there.
pub proof fn lemma_too_many_merkle_rhss(buf: Seq<u8>)
    requires
        buf.len() >= MIN_TEMPLATE_MESSAGE,
        buf[0] == WORK_BLOCK_TEMPLATE,
        buf[149] > MAX_MERKLE_RHSS,
    ensures
        parse_work_message(buf) == Parsed::<WorkMessageView>::Invalid,
{
}

/// A template message that announces a coinbase prefix of more than a
/// hundred bytes is refused once the buffer reaches that announcement.
pub proof fn lemma_coinbase_prefix_too_long(buf: Seq<u8>)
    requires
        buf.len() >= MIN_TEMPLATE_MESSAGE,
        buf[0] == WORK_BLOCK_TEMPLATE,
        buf[149] <= MAX_MERKLE_RHSS,
        avail(buf, 150 + 32 * buf[149], 13),
        buf[150 + 32 * buf[149] + 12] > MAX_COINBASE_PREFIX,
    ensures
        parse_work_message(buf) == Parsed::<WorkMessageView>::Invalid,
{
}

/// A template that was read in full keeps the bounds of the format, and
/// stands in the buffer as it is written.
pub proof fn lemma_block_template_read_is_written(buf: Seq<u8>, pos: int)
    ensures
        parse_block_template(buf, pos) matches Parsed::Complete { value, next }
            ==> value.encodable() && stands(buf, pos, next, value.encoding()),
{
    if let Parsed::Complete { value: t, next } = parse_block_template(buf, pos) {
        lemma_u64_stands(buf, pos);
        lemma_bytes_stand(buf, pos + 8, 32);
        lemma_u32_stands(buf, pos + 40);
        lemma_bytes_stand(buf, pos + 44, 32);
        lemma_u32_stands(buf, pos + 76);
        lemma_u32_stands(buf, pos + 80);
        let h0 = u64_le(t.template_id);
        let h1 = h0 + t.target;
        let h2 = h1 + u32_le(t.header_version);
        let h3 = h2 + t.header_prevblock;
        let h4 = h3 + u32_le(t.header_time);
        lemma_stands_join(buf, pos, pos + 8, pos + 40, h0, t.target);
        lemma_stands_join(buf, pos, pos + 40, pos + 44, h1, u32_le(t.header_version));
        lemma_stands_join(buf, pos, pos + 44, pos + 76, h2, t.header_prevblock);
        lemma_stands_join(buf, pos, pos + 76, pos + 80, h3, u32_le(t.header_time));
        lemma_stands_join(buf, pos, pos + 80, pos + 84, h4, u32_le(t.header_nbits));
        let e0 = t.header();
        lemma_hash_list_read_is_written(buf, pos + 84, MAX_MERKLE_RHSS as int);
        if let Parsed::Complete { next: after_rhss, .. } = parse_hash_list(
            buf,
            pos + 84,
            MAX_MERKLE_RHSS as int,
        ) {
            let hashes = encode_hash_list(t.merkle_rhss);
            let e1 = e0 + hashes;
            lemma_stands_join(buf, pos, pos + 84, after_rhss, e0, hashes);
            lemma_u64_stands(buf, after_rhss);
            lemma_u32_stands(buf, after_rhss + 8);
            let e2 = e1 + u64_le(t.coinbase_value_remaining);
            let e3 = e2 + u32_le(t.coinbase_version);
            lemma_stands_join(
                buf,
                pos,
                after_rhss,
                after_rhss + 8,
                e1,
                u64_le(t.coinbase_value_remaining),
            );
            lemma_stands_join(
                buf,
                pos,
                after_rhss + 8,
                after_rhss + 12,
                e2,
                u32_le(t.coinbase_version),
            );
            lemma_bytes8_read_is_written(buf, after_rhss + 12, MAX_COINBASE_PREFIX as int);
            if let Parsed::Complete { next: after_prefix, .. } = parse_bytes8(
                buf,
                after_rhss + 12,
                MAX_COINBASE_PREFIX as int,
            ) {
                let prefix = encode_bytes8(t.coinbase_prefix);
                let e4 = e3 + prefix;
                lemma_stands_join(buf, pos, after_rhss + 12, after_prefix, e3, prefix);
                lemma_u32_stands(buf, after_prefix);
                let e5 = e4 + u32_le(t.coinbase_input_sequence);
                lemma_stands_join(
                    buf,
                    pos,
                    after_prefix,
                    after_prefix + 4,
                    e4,
                    u32_le(t.coinbase_input_sequence),
                );
                lemma_txout_list_read_is_written(buf, after_prefix + 4);
                if let Parsed::Complete { next: after_outputs, .. } = parse_txout_list(
                    buf,
                    after_prefix + 4,
                ) {
                    let outs = encode_txout_list(t.appended_coinbase_outputs);
                    let e6 = e5 + outs;
                    lemma_stands_join(buf, pos, after_prefix + 4, after_outputs, e5, outs);
                    lemma_u32_stands(buf, after_outputs);
                    lemma_stands_join(
                        buf,
                        pos,
                        after_outputs,
                        after_outputs + 4,
                        e6,
                        u32_le(t.coinbase_locktime),
                    );
                }
            }
        }
    }
}

/// An addition to the coinbase prefix that was read in full keeps the
/// bound of the format, and stands in the buffer as it is written.
pub proof fn lemma_prefix_postfix_read_is_written(buf: Seq<u8>, pos: int)
    ensures
        parse_prefix_postfix(buf, pos) matches Parsed::Complete { value, next }
            ==> value.encodable() && stands(buf, pos, next, value.encoding()),
{
    if let Parsed::Complete { value, next } = parse_prefix_postfix(buf, pos) {
        lemma_u64_stands(buf, pos);
        lemma_bytes8_read_is_written(buf, pos + 8, MAX_COINBASE_PREFIX as int);
        lemma_stands_join(
            buf,
            pos,
            pos + 8,
            next,
            u64_le(value.timestamp),
            encode_bytes8(value.coinbase_prefix_postfix),
        );
    }
}

/// A solution that was read in full carries a transaction, and stands in
/// the buffer as it is written.
pub proof fn lemma_winning_nonce_read_is_written(buf: Seq<u8>, pos: int)
    ensures
        parse_winning_nonce(buf, pos) matches Parsed::Complete { value, next }
            ==> value.encodable() && transaction_parses(value.coinbase_tx) && stands(
            buf,
            pos,
            next,
            value.encoding(),
        ),
{
    if let Parsed::Complete { value: w, next } = parse_winning_nonce(buf, pos) {
        lemma_u64_stands(buf, pos);
        lemma_u32_stands(buf, pos + 8);
        lemma_u32_stands(buf, pos + 12);
        lemma_u32_stands(buf, pos + 16);
        lemma_tx_read_is_written(buf, pos + 20);
        let e0 = u64_le(w.template_id);
        let e1 = e0 + u32_le(w.header_version);
        let e2 = e1 + u32_le(w.header_time);
        let e3 = e2 + u32_le(w.header_nonce);
        lemma_stands_join(buf, pos, pos + 8, pos + 12, e0, u32_le(w.header_version));
        lemma_stands_join(buf, pos, pos + 12, pos + 16, e1, u32_le(w.header_time));
        lemma_stands_join(buf, pos, pos + 16, pos + 20, e2, u32_le(w.header_nonce));
        lemma_stands_join(buf, pos, pos + 20, next, e3, encode_tx(w.coinbase_tx));
    }
}

/// Transaction data that was read in full holds transactions, and stands
/// in the buffer as it is written.
pub proof fn lemma_transaction_data_read_is_written(buf: Seq<u8>, pos: int)
    ensures
        parse_transaction_data(buf, pos) matches Parsed::Complete { value, next }
            ==> value.encodable() && txs_parse(value.transactions) && stands(
            buf,
            pos,
            next,
            value.encoding(),
        ),
{
    if let Parsed::Complete { value: d, next } = parse_transaction_data(buf, pos) {
        lemma_u64_stands(buf, pos);
        lemma_u32_stands(buf, pos + 8);
        lemma_txs_read_are_written(buf, pos + 12, u32_at(buf, pos + 8) as nat);
        let e0 = u64_le(d.template_id);
        let e1 = e0 + u32_le(d.transactions.len() as u32);
        lemma_stands_join(buf, pos, pos + 8, pos + 12, e0, u32_le(d.transactions.len() as u32));
        lemma_stands_join(buf, pos, pos + 12, next, e1, encode_txs(d.transactions));
    }
}

/// A message that was read keeps the bounds of the format, carries only
/// what parses, and stands at the start of the buffer as it is written:
/// nothing is read that was not written.
pub proof fn lemma_work_read_is_written(buf: Seq<u8>)
    ensures
        parse_work_message(buf) matches Parsed::Complete { value, next } ==> value.encodable()
            && value.parses() && stands(buf, 0, next, value.encoding()),
{
    if let Parsed::Complete { value: m, next } = parse_work_message(buf) {
        lemma_bytes_stand(buf, 0, 1);
        assert(bytes_at(buf, 0, 1) =~= seq![m.tag()]);
        match m {
            WorkMessageView::ProtocolSupport { max_version, min_version, flags } => {
                lemma_u16_stands(buf, 1);
                lemma_u16_stands(buf, 3);
                lemma_u16_stands(buf, 5);
                let e0 = u16_le(max_version);
                let e1 = e0 + u16_le(min_version);
                lemma_stands_join(buf, 1, 3, 5, e0, u16_le(min_version));
                lemma_stands_join(buf, 1, 5, 7, e1, u16_le(flags));
            },
            WorkMessageView::ProtocolVersion { selected_version, auth_key } => {
                lemma_u16_stands(buf, 1);
                lemma_bytes_stand(buf, 3, 33);
                lemma_stands_join(buf, 1, 3, 36, u16_le(selected_version), auth_key);
            },
            WorkMessageView::BlockTemplate { signature, template } => {
                lemma_bytes_stand(buf, 1, 64);
                lemma_block_template_read_is_written(buf, 65);
                lemma_stands_join(buf, 1, 65, next, signature, template.encoding());
            },
            WorkMessageView::WinningNonce { nonces } => {
                lemma_winning_nonce_read_is_written(buf, 1);
            },
            WorkMessageView::TransactionDataRequest { template_id } => {
                lemma_u64_stands(buf, 1);
            },
            WorkMessageView::TransactionData { signature, data } => {
                lemma_bytes_stand(buf, 1, 64);
                lemma_transaction_data_read_is_written(buf, 65);
                lemma_stands_join(buf, 1, 65, next, signature, data.encoding());
            },
            WorkMessageView::CoinbasePrefixPostfix { signature, coinbase_prefix_postfix } => {
                lemma_bytes_stand(buf, 1, 64);
                lemma_prefix_postfix_read_is_written(buf, 65);
                lemma_stands_join(buf, 1, 65, next, signature, coinbase_prefix_postfix.encoding());
            },
        }
        lemma_stands_join(buf, 0, 1, next, seq![m.tag()], m.body());
    }
}

/// A buffer yields a message exactly when it starts with the encoding of
/// that message, the message keeps the bounds of the format, and what it
/// carries parses.
pub proof fn lemma_work_read_iff_written(buf: Seq<u8>, m: WorkMessageView, next: int)
    ensures
        parse_work_message(buf) == (Parsed::Complete { value: m, next }) <==> m.encodable()
            && m.parses() && stands(buf, 0, next, m.encoding()),
{
    lemma_work_read_is_written(buf);
    if m.encodable() && m.parses() && stands(buf, 0, next, m.encoding()) {
        lemma_stands_agrees(buf, 0, next, m.encoding());
        lemma_stands_means(buf, 0, next, m.encoding());
        lemma_parse_work_message(buf, m);
    }
}

} // verus!
