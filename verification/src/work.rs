//! The job-provider protocol: its payloads, its messages and their wire
//! format.
use crate::buffer::{buffer_advance, buffer_as_slice, buffer_bytes, buffer_extend};
use crate::keys::{pubkey_parses, signature_parses, PublicKey, Signature};
use crate::payload::{
    duplicate_hashes, duplicate_outputs, encode_bytes8, encode_hash_list, encode_tx,
    encode_txout_list, encode_txs, hashes_sized, lemma_hashes_deep_view,
    lemma_parse_txouts_in_bounds, lemma_parse_txs_in_bounds, outputs_encodable, parse_bytes8,
    parse_hash_list, parse_tx, parse_txout_list, parse_txs, read_bytes8, read_hash_list, read_tx,
    read_txout_list, read_txs, transactions_encodable, tx_encodable, txouts_encodable,
    txs_encodable, write_bytes8, write_hash_list, write_txout_list, write_txs, Transaction, TxOut,
    TxOutView,
};
use crate::wire::{
    array_at, avail, bytes_at, has_bytes, lemma_bytes_deep_view, put_bytes, put_le16, put_le32,
    put_le64, read_le16, read_le32, read_le64, u16_at, u16_le, u32_at, u32_le, u64_at, u64_le,
    yields, CodecError, Decoded, Parsed,
};
use bytes::BytesMut;
use vstd::prelude::*;

verus! {

/// The most right-hand partners that a Merkle path may hold.
pub const MAX_MERKLE_RHSS: u8 = 15;

/// The most bytes that a coinbase prefix, or an addition to it, may hold.
pub const MAX_COINBASE_PREFIX: u8 = 100;

/// The tag bytes of the messages of this protocol.
pub const WORK_PROTOCOL_SUPPORT: u8 = 1;

pub const WORK_PROTOCOL_VERSION: u8 = 2;

pub const WORK_BLOCK_TEMPLATE: u8 = 3;

pub const WORK_WINNING_NONCE: u8 = 4;

pub const WORK_TRANSACTION_DATA_REQUEST: u8 = 5;

pub const WORK_TRANSACTION_DATA: u8 = 6;

pub const WORK_COINBASE_PREFIX_POSTFIX: u8 = 7;

/// A candidate block: the header fields, the Merkle path of the coinbase
/// and what the coinbase transaction is to be built from.
#[derive(Clone, Debug, PartialEq, Eq)]
pub struct BlockTemplate {
    pub template_id: u64,
    pub target: [u8; 32],
    pub header_version: u32,
    pub header_prevblock: [u8; 32],
    pub header_time: u32,
    pub header_nbits: u32,
    pub merkle_rhss: Vec<[u8; 32]>,
    pub coinbase_value_remaining: u64,
    pub coinbase_version: u32,
    pub coinbase_prefix: Vec<u8>,
    pub coinbase_input_sequence: u32,
    pub appended_coinbase_outputs: Vec<TxOut>,
    pub coinbase_locktime: u32,
}

/// A `BlockTemplate` as a mathematical value.
pub struct BlockTemplateView {
    pub template_id: u64,
    pub target: Seq<u8>,
    pub header_version: u32,
    pub header_prevblock: Seq<u8>,
    pub header_time: u32,
    pub header_nbits: u32,
    pub merkle_rhss: Seq<Seq<u8>>,
    pub coinbase_value_remaining: u64,
    pub coinbase_version: u32,
    pub coinbase_prefix: Seq<u8>,
    pub coinbase_input_sequence: u32,
    pub appended_coinbase_outputs: Seq<TxOutView>,
    pub coinbase_locktime: u32,
}

impl View for BlockTemplate {
    type V = BlockTemplateView;

    open spec fn view(&self) -> BlockTemplateView {
        BlockTemplateView {
            template_id: self.template_id,
            target: self.target@,
            header_version: self.header_version,
            header_prevblock: self.header_prevblock@,
            header_time: self.header_time,
            header_nbits: self.header_nbits,
            merkle_rhss: self.merkle_rhss.deep_view(),
            coinbase_value_remaining: self.coinbase_value_remaining,
            coinbase_version: self.coinbase_version,
            coinbase_prefix: self.coinbase_prefix@,
            coinbase_input_sequence: self.coinbase_input_sequence,
            appended_coinbase_outputs: self.appended_coinbase_outputs.deep_view(),
            coinbase_locktime: self.coinbase_locktime,
        }
    }
}

impl DeepView for BlockTemplate {
    type V = BlockTemplateView;

    open spec fn deep_view(&self) -> BlockTemplateView {
        self@
    }
}

/// Bytes to put behind a template's coinbase prefix; a later `timestamp`
/// replaces an earlier one.
#[derive(Clone, Debug, PartialEq, Eq)]
pub struct CoinbasePrefixPostfix {
    pub timestamp: u64,
    pub coinbase_prefix_postfix: Vec<u8>,
}

/// A `CoinbasePrefixPostfix` as a mathematical value.
pub struct CoinbasePrefixPostfixView {
    pub timestamp: u64,
    pub coinbase_prefix_postfix: Seq<u8>,
}

impl View for CoinbasePrefixPostfix {
    type V = CoinbasePrefixPostfixView;

    open spec fn view(&self) -> CoinbasePrefixPostfixView {
        CoinbasePrefixPostfixView {
            timestamp: self.timestamp,
            coinbase_prefix_postfix: self.coinbase_prefix_postfix@,
        }
    }
}

impl DeepView for CoinbasePrefixPostfix {
    type V = CoinbasePrefixPostfixView;

    open spec fn deep_view(&self) -> CoinbasePrefixPostfixView {
        self@
    }
}

/// A solution: the header fields that the miner chose and the coinbase
/// transaction that it built.
#[derive(Clone, Debug, PartialEq, Eq)]
pub struct WinningNonce {
    pub template_id: u64,
    pub header_version: u32,
    pub header_time: u32,
    pub header_nonce: u32,
    pub coinbase_tx: Transaction,
}

/// A `WinningNonce` as a mathematical value.
pub struct WinningNonceView {
    pub template_id: u64,
    pub header_version: u32,
    pub header_time: u32,
    pub header_nonce: u32,
    pub coinbase_tx: Seq<u8>,
}

impl View for WinningNonce {
    type V = WinningNonceView;

    open spec fn view(&self) -> WinningNonceView {
        WinningNonceView {
            template_id: self.template_id,
            header_version: self.header_version,
            header_time: self.header_time,
            header_nonce: self.header_nonce,
            coinbase_tx: self.coinbase_tx@,
        }
    }
}

impl DeepView for WinningNonce {
    type V = WinningNonceView;

    open spec fn deep_view(&self) -> WinningNonceView {
        self@
    }
}

/// The transactions of a template, sent on request.
#[derive(Clone, Debug, PartialEq, Eq)]
pub struct TransactionData {
    pub template_id: u64,
    pub transactions: Vec<Transaction>,
}

/// A `TransactionData` as a mathematical value.
pub struct TransactionDataView {
    pub template_id: u64,
    pub transactions: Seq<Seq<u8>>,
}

impl View for TransactionData {
    type V = TransactionDataView;

    open spec fn view(&self) -> TransactionDataView {
        TransactionDataView {
            template_id: self.template_id,
            transactions: self.transactions.deep_view(),
        }
    }
}

impl DeepView for TransactionData {
    type V = TransactionDataView;

    open spec fn deep_view(&self) -> TransactionDataView {
        self@
    }
}

/// A message of the job-provider protocol.
#[derive(Clone, Debug, PartialEq, Eq)]
pub enum WorkMessage {
    ProtocolSupport { max_version: u16, min_version: u16, flags: u16 },
    ProtocolVersion { selected_version: u16, auth_key: PublicKey },
    BlockTemplate { signature: Signature, template: BlockTemplate },
    WinningNonce { nonces: WinningNonce },
    TransactionDataRequest { template_id: u64 },
    TransactionData { signature: Signature, data: TransactionData },
    CoinbasePrefixPostfix { signature: Signature, coinbase_prefix_postfix: CoinbasePrefixPostfix },
}

/// A `WorkMessage` as a mathematical value.
pub enum WorkMessageView {
    ProtocolSupport { max_version: u16, min_version: u16, flags: u16 },
    ProtocolVersion { selected_version: u16, auth_key: Seq<u8> },
    BlockTemplate { signature: Seq<u8>, template: BlockTemplateView },
    WinningNonce { nonces: WinningNonceView },
    TransactionDataRequest { template_id: u64 },
    TransactionData { signature: Seq<u8>, data: TransactionDataView },
    CoinbasePrefixPostfix {
        signature: Seq<u8>,
        coinbase_prefix_postfix: CoinbasePrefixPostfixView,
    },
}

impl View for WorkMessage {
    type V = WorkMessageView;

    open spec fn view(&self) -> WorkMessageView {
        match *self {
            WorkMessage::ProtocolSupport { max_version, min_version, flags } => {
                WorkMessageView::ProtocolSupport { max_version, min_version, flags }
            },
            WorkMessage::ProtocolVersion { selected_version, auth_key } => {
                WorkMessageView::ProtocolVersion { selected_version, auth_key: auth_key@ }
            },
            WorkMessage::BlockTemplate { signature, template } => WorkMessageView::BlockTemplate {
                signature: signature@,
                template: template@,
            },
            WorkMessage::WinningNonce { nonces } => WorkMessageView::WinningNonce {
                nonces: nonces@,
            },
            WorkMessage::TransactionDataRequest { template_id } => {
                WorkMessageView::TransactionDataRequest { template_id }
            },
            WorkMessage::TransactionData { signature, data } => WorkMessageView::TransactionData {
                signature: signature@,
                data: data@,
            },
            WorkMessage::CoinbasePrefixPostfix { signature, coinbase_prefix_postfix } => {
                WorkMessageView::CoinbasePrefixPostfix {
                    signature: signature@,
                    coinbase_prefix_postfix: coinbase_prefix_postfix@,
                }
            },
        }
    }
}

impl DeepView for WorkMessage {
    type V = WorkMessageView;

    open spec fn deep_view(&self) -> WorkMessageView {
        self@
    }
}

// ---------------------------------------------------------------------
// What can be written, and how it looks on the wire
// ---------------------------------------------------------------------

impl BlockTemplateView {
    /// Whether the template keeps the bounds of the wire format.
    pub open spec fn encodable(self) -> bool {
        &&& self.target.len() == 32
        &&& self.header_prevblock.len() == 32
        &&& self.merkle_rhss.len() <= MAX_MERKLE_RHSS
        &&& hashes_sized(self.merkle_rhss)
        &&& self.coinbase_prefix.len() <= MAX_COINBASE_PREFIX
        &&& self.appended_coinbase_outputs.len() <= 255
        &&& txouts_encodable(self.appended_coinbase_outputs)
    }

    /// The fixed fields that open the template.
    pub open spec fn header(self) -> Seq<u8> {
        u64_le(self.template_id) + self.target + u32_le(self.header_version)
            + self.header_prevblock + u32_le(self.header_time) + u32_le(self.header_nbits)
    }

    /// The template as it is signed and sent.
    pub open spec fn encoding(self) -> Seq<u8> {
        self.header() + encode_hash_list(self.merkle_rhss) + u64_le(self.coinbase_value_remaining)
            + u32_le(self.coinbase_version) + encode_bytes8(self.coinbase_prefix) + u32_le(
            self.coinbase_input_sequence,
        ) + encode_txout_list(self.appended_coinbase_outputs) + u32_le(self.coinbase_locktime)
    }
}

impl CoinbasePrefixPostfixView {
    /// Whether the addition keeps the bound of the wire format.
    pub open spec fn encodable(self) -> bool {
        self.coinbase_prefix_postfix.len() <= MAX_COINBASE_PREFIX
    }

    /// The addition as it is signed and sent.
    pub open spec fn encoding(self) -> Seq<u8> {
        u64_le(self.timestamp) + encode_bytes8(self.coinbase_prefix_postfix)
    }
}

impl WinningNonceView {
    /// Whether the solution can be written.
    pub open spec fn encodable(self) -> bool {
        tx_encodable(self.coinbase_tx)
    }

    /// The solution as it is sent.
    pub open spec fn encoding(self) -> Seq<u8> {
        u64_le(self.template_id) + u32_le(self.header_version) + u32_le(self.header_time) + u32_le(
            self.header_nonce,
        ) + encode_tx(self.coinbase_tx)
    }
}

impl TransactionDataView {
    /// Whether the transactions can be written.
    pub open spec fn encodable(self) -> bool {
        &&& self.transactions.len() <= 0xffff_ffff
        &&& txs_encodable(self.transactions)
    }

    /// The transactions as they are signed and sent.
    pub open spec fn encoding(self) -> Seq<u8> {
        u64_le(self.template_id) + u32_le(self.transactions.len() as u32) + encode_txs(
            self.transactions,
        )
    }
}

impl WorkMessageView {
    /// The byte that names the kind of message.
    pub open spec fn tag(self) -> u8 {
        match self {
            WorkMessageView::ProtocolSupport { .. } => WORK_PROTOCOL_SUPPORT,
            WorkMessageView::ProtocolVersion { .. } => WORK_PROTOCOL_VERSION,
            WorkMessageView::BlockTemplate { .. } => WORK_BLOCK_TEMPLATE,
            WorkMessageView::WinningNonce { .. } => WORK_WINNING_NONCE,
            WorkMessageView::TransactionDataRequest { .. } => WORK_TRANSACTION_DATA_REQUEST,
            WorkMessageView::TransactionData { .. } => WORK_TRANSACTION_DATA,
            WorkMessageView::CoinbasePrefixPostfix { .. } => WORK_COINBASE_PREFIX_POSTFIX,
        }
    }

    /// Whether the message keeps the bounds of the wire format.
    pub open spec fn encodable(self) -> bool {
        match self {
            WorkMessageView::ProtocolSupport { .. } => true,
            WorkMessageView::ProtocolVersion { auth_key, .. } => auth_key.len() == 33,
            WorkMessageView::BlockTemplate { signature, template } => signature.len() == 64
                && template.encodable(),
            WorkMessageView::WinningNonce { nonces } => nonces.encodable(),
            WorkMessageView::TransactionDataRequest { .. } => true,
            WorkMessageView::TransactionData { signature, data } => signature.len() == 64
                && data.encodable(),
            WorkMessageView::CoinbasePrefixPostfix { signature, coinbase_prefix_postfix } => {
                signature.len() == 64 && coinbase_prefix_postfix.encodable()
            },
        }
    }

    /// What follows the tag byte.
    pub open spec fn body(self) -> Seq<u8> {
        match self {
            WorkMessageView::ProtocolSupport { max_version, min_version, flags } => u16_le(
                max_version,
            ) + u16_le(min_version) + u16_le(flags),
            WorkMessageView::ProtocolVersion { selected_version, auth_key } => u16_le(
                selected_version,
            ) + auth_key,
            WorkMessageView::BlockTemplate { signature, template } => signature
                + template.encoding(),
            WorkMessageView::WinningNonce { nonces } => nonces.encoding(),
            WorkMessageView::TransactionDataRequest { template_id } => u64_le(template_id),
            WorkMessageView::TransactionData { signature, data } => signature + data.encoding(),
            WorkMessageView::CoinbasePrefixPostfix { signature, coinbase_prefix_postfix } => {
                signature + coinbase_prefix_postfix.encoding()
            },
        }
    }

    /// The message on the wire: the tag byte, then the body.
    pub open spec fn encoding(self) -> Seq<u8> {
        seq![self.tag()] + self.body()
    }
}

// ---------------------------------------------------------------------
// Reading, as the format defines it
// ---------------------------------------------------------------------

/// Reads a template that starts at `pos`.
pub open spec fn parse_block_template(buf: Seq<u8>, pos: int) -> Parsed<BlockTemplateView> {
    if !avail(buf, pos, 84) {
        Parsed::NeedMore
    } else {
        match parse_hash_list(buf, pos + 84, MAX_MERKLE_RHSS as int) {
            Parsed::Complete { value: merkle_rhss, next: after_rhss } => if !avail(
                buf,
                after_rhss,
                12,
            ) {
                Parsed::NeedMore
            } else {
                match parse_bytes8(buf, after_rhss + 12, MAX_COINBASE_PREFIX as int) {
                    Parsed::Complete { value: coinbase_prefix, next: after_prefix } => if !avail(
                        buf,
                        after_prefix,
                        4,
                    ) {
                        Parsed::NeedMore
                    } else {
                        match parse_txout_list(buf, after_prefix + 4) {
                            Parsed::Complete { value: outputs, next: after_outputs } => if !avail(
                                buf,
                                after_outputs,
                                4,
                            ) {
                                Parsed::NeedMore
                            } else {
                                Parsed::Complete {
                                    value: BlockTemplateView {
                                        template_id: u64_at(buf, pos),
                                        target: bytes_at(buf, pos + 8, 32),
                                        header_version: u32_at(buf, pos + 40),
                                        header_prevblock: bytes_at(buf, pos + 44, 32),
                                        header_time: u32_at(buf, pos + 76),
                                        header_nbits: u32_at(buf, pos + 80),
                                        merkle_rhss,
                                        coinbase_value_remaining: u64_at(buf, after_rhss),
                                        coinbase_version: u32_at(buf, after_rhss + 8),
                                        coinbase_prefix,
                                        coinbase_input_sequence: u32_at(buf, after_prefix),
                                        appended_coinbase_outputs: outputs,
                                        coinbase_locktime: u32_at(buf, after_outputs),
                                    },
                                    next: after_outputs + 4,
                                }
                            },
                            Parsed::NeedMore => Parsed::NeedMore,
                            Parsed::Invalid => Parsed::Invalid,
                        }
                    },
                    Parsed::NeedMore => Parsed::NeedMore,
                    Parsed::Invalid => Parsed::Invalid,
                }
            },
            Parsed::NeedMore => Parsed::NeedMore,
            Parsed::Invalid => Parsed::Invalid,
        }
    }
}

/// Reads an addition to the coinbase prefix that starts at `pos`.
pub open spec fn parse_prefix_postfix(buf: Seq<u8>, pos: int) -> Parsed<CoinbasePrefixPostfixView> {
    if !avail(buf, pos, 8) {
        Parsed::NeedMore
    } else {
        match parse_bytes8(buf, pos + 8, MAX_COINBASE_PREFIX as int) {
            Parsed::Complete { value, next } => Parsed::Complete {
                value: CoinbasePrefixPostfixView {
                    timestamp: u64_at(buf, pos),
                    coinbase_prefix_postfix: value,
                },
                next,
            },
            Parsed::NeedMore => Parsed::NeedMore,
            Parsed::Invalid => Parsed::Invalid,
        }
    }
}

/// Reads a solution that starts at `pos`.
pub open spec fn parse_winning_nonce(buf: Seq<u8>, pos: int) -> Parsed<WinningNonceView> {
    if !avail(buf, pos, 20) {
        Parsed::NeedMore
    } else {
        match parse_tx(buf, pos + 20) {
            Parsed::Complete { value, next } => Parsed::Complete {
                value: WinningNonceView {
                    template_id: u64_at(buf, pos),
                    header_version: u32_at(buf, pos + 8),
                    header_time: u32_at(buf, pos + 12),
                    header_nonce: u32_at(buf, pos + 16),
                    coinbase_tx: value,
                },
                next,
            },
            Parsed::NeedMore => Parsed::NeedMore,
            Parsed::Invalid => Parsed::Invalid,
        }
    }
}

/// Reads the transactions of a template from `pos` on. Before any
/// transaction is read the buffer must hold four bytes for each of them.
pub open spec fn parse_transaction_data(buf: Seq<u8>, pos: int) -> Parsed<TransactionDataView> {
    if !avail(buf, pos, 12) {
        Parsed::NeedMore
    } else if buf.len() < pos + 11 + 4 * u32_at(buf, pos + 8) {
        Parsed::NeedMore
    } else {
        match parse_txs(buf, pos + 12, u32_at(buf, pos + 8) as nat) {
            Parsed::Complete { value, next } => Parsed::Complete {
                value: TransactionDataView { template_id: u64_at(buf, pos), transactions: value },
                next,
            },
            Parsed::NeedMore => Parsed::NeedMore,
            Parsed::Invalid => Parsed::Invalid,
        }
    }
}

/// The least that a buffer must hold before a template message is looked
/// into: the signature and the fixed fields of the smallest template.
pub const MIN_TEMPLATE_MESSAGE: usize = 171;

/// Reads one message of the job-provider protocol from the start of `buf`.
pub open spec fn parse_work_message(buf: Seq<u8>) -> Parsed<WorkMessageView> {
    if buf.len() == 0 {
        Parsed::NeedMore
    } else if buf[0] == WORK_PROTOCOL_SUPPORT {
        if !avail(buf, 1, 6) {
            Parsed::NeedMore
        } else {
            Parsed::Complete {
                value: WorkMessageView::ProtocolSupport {
                    max_version: u16_at(buf, 1),
                    min_version: u16_at(buf, 3),
                    flags: u16_at(buf, 5),
                },
                next: 7,
            }
        }
    } else if buf[0] == WORK_PROTOCOL_VERSION {
        if !avail(buf, 1, 35) {
            Parsed::NeedMore
        } else if !pubkey_parses(bytes_at(buf, 3, 33)) {
            Parsed::Invalid
        } else {
            Parsed::Complete {
                value: WorkMessageView::ProtocolVersion {
                    selected_version: u16_at(buf, 1),
                    auth_key: bytes_at(buf, 3, 33),
                },
                next: 36,
            }
        }
    } else if buf[0] == WORK_BLOCK_TEMPLATE {
        if buf.len() < MIN_TEMPLATE_MESSAGE {
            Parsed::NeedMore
        } else if !signature_parses(bytes_at(buf, 1, 64)) {
            Parsed::Invalid
        } else {
            match parse_block_template(buf, 65) {
                Parsed::Complete { value, next } => Parsed::Complete {
                    value: WorkMessageView::BlockTemplate {
                        signature: bytes_at(buf, 1, 64),
                        template: value,
                    },
                    next,
                },
                Parsed::NeedMore => Parsed::NeedMore,
                Parsed::Invalid => Parsed::Invalid,
            }
        }
    } else if buf[0] == WORK_WINNING_NONCE {
        match parse_winning_nonce(buf, 1) {
            Parsed::Complete { value, next } => Parsed::Complete {
                value: WorkMessageView::WinningNonce { nonces: value },
                next,
            },
            Parsed::NeedMore => Parsed::NeedMore,
            Parsed::Invalid => Parsed::Invalid,
        }
    } else if buf[0] == WORK_TRANSACTION_DATA_REQUEST {
        if !avail(buf, 1, 8) {
            Parsed::NeedMore
        } else {
            Parsed::Complete {
                value: WorkMessageView::TransactionDataRequest { template_id: u64_at(buf, 1) },
                next: 9,
            }
        }
    } else if buf[0] == WORK_TRANSACTION_DATA {
        if !avail(buf, 1, 64) {
            Parsed::NeedMore
        } else if !signature_parses(bytes_at(buf, 1, 64)) {
            Parsed::Invalid
        } else {
            match parse_transaction_data(buf, 65) {
                Parsed::Complete { value, next } => Parsed::Complete {
                    value: WorkMessageView::TransactionData {
                        signature: bytes_at(buf, 1, 64),
                        data: value,
                    },
                    next,
                },
                Parsed::NeedMore => Parsed::NeedMore,
                Parsed::Invalid => Parsed::Invalid,
            }
        }
    } else if buf[0] == WORK_COINBASE_PREFIX_POSTFIX {
        if !avail(buf, 1, 64) {
            Parsed::NeedMore
        } else if !signature_parses(bytes_at(buf, 1, 64)) {
            Parsed::Invalid
        } else {
            match parse_prefix_postfix(buf, 65) {
                Parsed::Complete { value, next } => Parsed::Complete {
                    value: WorkMessageView::CoinbasePrefixPostfix {
                        signature: bytes_at(buf, 1, 64),
                        coinbase_prefix_postfix: value,
                    },
                    next,
                },
                Parsed::NeedMore => Parsed::NeedMore,
                Parsed::Invalid => Parsed::Invalid,
            }
        }
    } else {
        Parsed::Invalid
    }
}

// ---------------------------------------------------------------------
// Writing
// ---------------------------------------------------------------------

impl BlockTemplate {
    /// Whether the template keeps the bounds of the wire format.
    pub fn is_encodable(&self) -> (ok: bool)
        ensures
            ok == self@.encodable(),
    {
        proof {
            lemma_hashes_deep_view(self.merkle_rhss);
        }
        self.merkle_rhss.len() <= MAX_MERKLE_RHSS as usize && self.coinbase_prefix.len()
            <= MAX_COINBASE_PREFIX as usize && self.appended_coinbase_outputs.len() <= 255
            && outputs_encodable(&self.appended_coinbase_outputs)
    }

    /// The template as it is signed and sent.
    pub fn unsigned_bytes(&self) -> (out: Vec<u8>)
        requires
            self@.encodable(),
        ensures
            out@ == self@.encoding(),
    {
        let mut out: Vec<u8> = Vec::new();
        put_le64(&mut out, self.template_id);
        put_bytes(&mut out, self.target.as_slice());
        put_le32(&mut out, self.header_version);
        put_bytes(&mut out, self.header_prevblock.as_slice());
        put_le32(&mut out, self.header_time);
        put_le32(&mut out, self.header_nbits);
        assert(out@ =~= self@.header());
        write_hash_list(&mut out, &self.merkle_rhss);
        put_le64(&mut out, self.coinbase_value_remaining);
        put_le32(&mut out, self.coinbase_version);
        write_bytes8(&mut out, self.coinbase_prefix.as_slice());
        put_le32(&mut out, self.coinbase_input_sequence);
        write_txout_list(&mut out, &self.appended_coinbase_outputs);
        put_le32(&mut out, self.coinbase_locktime);
        out
    }

    /// Appends the template, as it is signed and sent, to `res`.
    pub fn encode_unsigned(&self, res: &mut BytesMut)
        requires
            self@.encodable(),
            buffer_bytes(*old(res)).len() + self@.encoding().len() <= usize::MAX,
        ensures
            buffer_bytes(*final(res)) == buffer_bytes(*old(res)) + self@.encoding(),
    {
        let bytes: Vec<u8> = self.unsigned_bytes();
        buffer_extend(res, bytes.as_slice());
    }

    /// A copy of this template.
    pub fn duplicate(&self) -> (copy: BlockTemplate)
        ensures
            copy@ == self@,
    {
        let merkle_rhss: Vec<[u8; 32]> = duplicate_hashes(&self.merkle_rhss);
        assert(merkle_rhss.deep_view() =~= self.merkle_rhss.deep_view());
        BlockTemplate {
            template_id: self.template_id,
            target: self.target,
            header_version: self.header_version,
            header_prevblock: self.header_prevblock,
            header_time: self.header_time,
            header_nbits: self.header_nbits,
            merkle_rhss,
            coinbase_value_remaining: self.coinbase_value_remaining,
            coinbase_version: self.coinbase_version,
            coinbase_prefix: self.coinbase_prefix.clone(),
            coinbase_input_sequence: self.coinbase_input_sequence,
            appended_coinbase_outputs: duplicate_outputs(&self.appended_coinbase_outputs),
            coinbase_locktime: self.coinbase_locktime,
        }
    }
}

impl CoinbasePrefixPostfix {
    /// Whether the addition keeps the bound of the wire format.
    pub fn is_encodable(&self) -> (ok: bool)
        ensures
            ok == self@.encodable(),
    {
        self.coinbase_prefix_postfix.len() <= MAX_COINBASE_PREFIX as usize
    }

    /// The addition as it is signed and sent.
    pub fn unsigned_bytes(&self) -> (out: Vec<u8>)
        requires
            self@.encodable(),
        ensures
            out@ == self@.encoding(),
    {
        let mut out: Vec<u8> = Vec::new();
        put_le64(&mut out, self.timestamp);
        write_bytes8(&mut out, self.coinbase_prefix_postfix.as_slice());
        assert(out@ =~= self@.encoding());
        out
    }

    /// Appends the addition, as it is signed and sent, to `res`.
    pub fn encode_unsigned(&self, res: &mut BytesMut)
        requires
            self@.encodable(),
            buffer_bytes(*old(res)).len() + self@.encoding().len() <= usize::MAX,
        ensures
            buffer_bytes(*final(res)) == buffer_bytes(*old(res)) + self@.encoding(),
    {
        let bytes: Vec<u8> = self.unsigned_bytes();
        buffer_extend(res, bytes.as_slice());
    }

    /// A copy of this addition.
    pub fn duplicate(&self) -> (copy: CoinbasePrefixPostfix)
        ensures
            copy@ == self@,
    {
        CoinbasePrefixPostfix {
            timestamp: self.timestamp,
            coinbase_prefix_postfix: self.coinbase_prefix_postfix.clone(),
        }
    }
}

impl WinningNonce {
    /// Whether the solution can be written.
    pub fn is_encodable(&self) -> (ok: bool)
        ensures
            ok == self@.encodable(),
    {
        self.coinbase_tx.is_encodable()
    }

    /// The solution as it is sent.
    pub fn to_bytes(&self) -> (out: Vec<u8>)
        requires
            self@.encodable(),
        ensures
            out@ == self@.encoding(),
    {
        let mut out: Vec<u8> = Vec::new();
        put_le64(&mut out, self.template_id);
        put_le32(&mut out, self.header_version);
        put_le32(&mut out, self.header_time);
        put_le32(&mut out, self.header_nonce);
        self.coinbase_tx.write_to(&mut out);
        assert(out@ =~= self@.encoding());
        out
    }

    /// Appends the solution, as it is sent, to `res`.
    pub fn encode(&self, res: &mut BytesMut)
        requires
            self@.encodable(),
            buffer_bytes(*old(res)).len() + self@.encoding().len() <= usize::MAX,
        ensures
            buffer_bytes(*final(res)) == buffer_bytes(*old(res)) + self@.encoding(),
    {
        let bytes: Vec<u8> = self.to_bytes();
        buffer_extend(res, bytes.as_slice());
    }

    /// A copy of this solution.
    pub fn duplicate(&self) -> (copy: WinningNonce)
        ensures
            copy@ == self@,
    {
        WinningNonce {
            template_id: self.template_id,
            header_version: self.header_version,
            header_time: self.header_time,
            header_nonce: self.header_nonce,
            coinbase_tx: self.coinbase_tx.duplicate(),
        }
    }
}

impl TransactionData {
    /// Whether the transactions can be written.
    pub fn is_encodable(&self) -> (ok: bool)
        ensures
            ok == self@.encodable(),
    {
        self.transactions.len() <= 0xffff_ffff && transactions_encodable(&self.transactions)
    }

    /// The transactions as they are signed and sent.
    pub fn unsigned_bytes(&self) -> (out: Vec<u8>)
        requires
            self@.encodable(),
        ensures
            out@ == self@.encoding(),
    {
        let mut out: Vec<u8> = Vec::new();
        let n: usize = self.transactions.len();
        put_le64(&mut out, self.template_id);
        put_le32(&mut out, n as u32);
        write_txs(&mut out, &self.transactions);
        assert(out@ =~= self@.encoding());
        out
    }

    /// Appends the transactions, as they are signed and sent, to `res`.
    pub fn encode_unsigned(&self, res: &mut BytesMut)
        requires
            self@.encodable(),
            buffer_bytes(*old(res)).len() + self@.encoding().len() <= usize::MAX,
        ensures
            buffer_bytes(*final(res)) == buffer_bytes(*old(res)) + self@.encoding(),
    {
        let bytes: Vec<u8> = self.unsigned_bytes();
        buffer_extend(res, bytes.as_slice());
    }
}

impl WorkMessage {
    /// Whether the message keeps the bounds of the wire format.
    pub fn is_encodable(&self) -> (ok: bool)
        ensures
            ok == self@.encodable(),
    {
        match self {
            WorkMessage::ProtocolSupport { .. } => true,
            WorkMessage::ProtocolVersion { .. } => true,
            WorkMessage::BlockTemplate { template, .. } => template.is_encodable(),
            WorkMessage::WinningNonce { nonces } => nonces.is_encodable(),
            WorkMessage::TransactionDataRequest { .. } => true,
            WorkMessage::TransactionData { data, .. } => data.is_encodable(),
            WorkMessage::CoinbasePrefixPostfix { coinbase_prefix_postfix, .. } => {
                coinbase_prefix_postfix.is_encodable()
            },
        }
    }

    /// The message on the wire.
    pub fn to_bytes(&self) -> (out: Vec<u8>)
        requires
            self@.encodable(),
        ensures
            out@ == self@.encoding(),
    {
        let mut out: Vec<u8> = Vec::new();
        match self {
            WorkMessage::ProtocolSupport { max_version, min_version, flags } => {
                out.push(WORK_PROTOCOL_SUPPORT);
                put_le16(&mut out, *max_version);
                put_le16(&mut out, *min_version);
                put_le16(&mut out, *flags);
            },
            WorkMessage::ProtocolVersion { selected_version, auth_key } => {
                out.push(WORK_PROTOCOL_VERSION);
                put_le16(&mut out, *selected_version);
                put_bytes(&mut out, auth_key.bytes.as_slice());
            },
            WorkMessage::BlockTemplate { signature, template } => {
                out.push(WORK_BLOCK_TEMPLATE);
                put_bytes(&mut out, signature.bytes.as_slice());
                let body: Vec<u8> = template.unsigned_bytes();
                put_bytes(&mut out, body.as_slice());
            },
            WorkMessage::WinningNonce { nonces } => {
                out.push(WORK_WINNING_NONCE);
                let body: Vec<u8> = nonces.to_bytes();
                put_bytes(&mut out, body.as_slice());
            },
            WorkMessage::TransactionDataRequest { template_id } => {
                out.push(WORK_TRANSACTION_DATA_REQUEST);
                put_le64(&mut out, *template_id);
            },
            WorkMessage::TransactionData { signature, data } => {
                out.push(WORK_TRANSACTION_DATA);
                put_bytes(&mut out, signature.bytes.as_slice());
                let body: Vec<u8> = data.unsigned_bytes();
                put_bytes(&mut out, body.as_slice());
            },
            WorkMessage::CoinbasePrefixPostfix { signature, coinbase_prefix_postfix } => {
                out.push(WORK_COINBASE_PREFIX_POSTFIX);
                put_bytes(&mut out, signature.bytes.as_slice());
                let body: Vec<u8> = coinbase_prefix_postfix.unsigned_bytes();
                put_bytes(&mut out, body.as_slice());
            },
        }
        assert(out@ =~= self@.encoding());
        out
    }
}

// ---------------------------------------------------------------------
// Reading
// ---------------------------------------------------------------------

/// Reads a template that starts at `pos`.
pub fn read_block_template(buf: &[u8], pos: usize) -> (d: Decoded<BlockTemplate>)
    ensures
        yields(d, parse_block_template(buf@, pos as int)),
{
    if !has_bytes(buf, pos, 84) {
        return Decoded::NeedMore;
    }
    let template_id: u64 = read_le64(buf, pos);
    let target: [u8; 32] = array_at::<32>(buf, pos + 8);
    let header_version: u32 = read_le32(buf, pos + 40);
    let header_prevblock: [u8; 32] = array_at::<32>(buf, pos + 44);
    let header_time: u32 = read_le32(buf, pos + 76);
    let header_nbits: u32 = read_le32(buf, pos + 80);
    let (merkle_rhss, after_rhss) = match read_hash_list(buf, pos + 84, MAX_MERKLE_RHSS) {
        Decoded::Complete(v, n) => (v, n),
        Decoded::NeedMore => {
            return Decoded::NeedMore;
        },
        Decoded::Invalid => {
            return Decoded::Invalid;
        },
    };
    if !has_bytes(buf, after_rhss, 12) {
        return Decoded::NeedMore;
    }
    let coinbase_value_remaining: u64 = read_le64(buf, after_rhss);
    let coinbase_version: u32 = read_le32(buf, after_rhss + 8);
    let (coinbase_prefix, after_prefix) = match read_bytes8(
        buf,
        after_rhss + 12,
        MAX_COINBASE_PREFIX,
    ) {
        Decoded::Complete(v, n) => (v, n),
        Decoded::NeedMore => {
            return Decoded::NeedMore;
        },
        Decoded::Invalid => {
            return Decoded::Invalid;
        },
    };
    if !has_bytes(buf, after_prefix, 4) {
        return Decoded::NeedMore;
    }
    let coinbase_input_sequence: u32 = read_le32(buf, after_prefix);
    let (appended_coinbase_outputs, after_outputs) = match read_txout_list(buf, after_prefix + 4) {
        Decoded::Complete(v, n) => (v, n),
        Decoded::NeedMore => {
            return Decoded::NeedMore;
        },
        Decoded::Invalid => {
            return Decoded::Invalid;
        },
    };
    if !has_bytes(buf, after_outputs, 4) {
        return Decoded::NeedMore;
    }
    let coinbase_locktime: u32 = read_le32(buf, after_outputs);
    proof {
        lemma_bytes_deep_view(coinbase_prefix);
    }
    Decoded::Complete(
        BlockTemplate {
            template_id,
            target,
            header_version,
            header_prevblock,
            header_time,
            header_nbits,
            merkle_rhss,
            coinbase_value_remaining,
            coinbase_version,
            coinbase_prefix,
            coinbase_input_sequence,
            appended_coinbase_outputs,
            coinbase_locktime,
        },
        after_outputs + 4,
    )
}

/// Reads an addition to the coinbase prefix that starts at `pos`.
pub fn read_prefix_postfix(buf: &[u8], pos: usize) -> (d: Decoded<CoinbasePrefixPostfix>)
    ensures
        yields(d, parse_prefix_postfix(buf@, pos as int)),
{
    if !has_bytes(buf, pos, 8) {
        return Decoded::NeedMore;
    }
    let timestamp: u64 = read_le64(buf, pos);
    match read_bytes8(buf, pos + 8, MAX_COINBASE_PREFIX) {
        Decoded::Complete(coinbase_prefix_postfix, next) => {
            proof {
                lemma_bytes_deep_view(coinbase_prefix_postfix);
            }
            Decoded::Complete(CoinbasePrefixPostfix { timestamp, coinbase_prefix_postfix }, next)
        },
        Decoded::NeedMore => Decoded::NeedMore,
        Decoded::Invalid => Decoded::Invalid,
    }
}

/// Reads a solution that starts at `pos`.
pub fn read_winning_nonce(buf: &[u8], pos: usize) -> (d: Decoded<WinningNonce>)
    ensures
        yields(d, parse_winning_nonce(buf@, pos as int)),
{
    if !has_bytes(buf, pos, 20) {
        return Decoded::NeedMore;
    }
    let template_id: u64 = read_le64(buf, pos);
    let header_version: u32 = read_le32(buf, pos + 8);
    let header_time: u32 = read_le32(buf, pos + 12);
    let header_nonce: u32 = read_le32(buf, pos + 16);
    match read_tx(buf, pos + 20) {
        Decoded::Complete(coinbase_tx, next) => Decoded::Complete(
            WinningNonce { template_id, header_version, header_time, header_nonce, coinbase_tx },
            next,
        ),
        Decoded::NeedMore => Decoded::NeedMore,
        Decoded::Invalid => Decoded::Invalid,
    }
}

/// Reads the transactions of a template from `pos` on.
pub fn read_transaction_data(buf: &[u8], pos: usize) -> (d: Decoded<TransactionData>)
    ensures
        yields(d, parse_transaction_data(buf@, pos as int)),
{
    if !has_bytes(buf, pos, 12) {
        return Decoded::NeedMore;
    }
    let template_id: u64 = read_le64(buf, pos);
    let count: u32 = read_le32(buf, pos + 8);
    let room: usize = buf.len() - pos - 11;
    if (room as u64) < 4 * (count as u64) {
        return Decoded::NeedMore;
    }
    match read_txs(buf, pos + 12, count as usize) {
        Decoded::Complete(transactions, next) => Decoded::Complete(
            TransactionData { template_id, transactions },
            next,
        ),
        Decoded::NeedMore => Decoded::NeedMore,
        Decoded::Invalid => Decoded::Invalid,
    }
}

/// Reads one message of the job-provider protocol from the start of `buf`.
pub fn read_work_message(buf: &[u8]) -> (d: Decoded<WorkMessage>)
    ensures
        yields(d, parse_work_message(buf@)),
{
    if buf.len() == 0 {
        return Decoded::NeedMore;
    }
    let tag: u8 = buf[0];
    if tag == WORK_PROTOCOL_SUPPORT {
        if !has_bytes(buf, 1, 6) {
            return Decoded::NeedMore;
        }
        Decoded::Complete(
            WorkMessage::ProtocolSupport {
                max_version: read_le16(buf, 1),
                min_version: read_le16(buf, 3),
                flags: read_le16(buf, 5),
            },
            7,
        )
    } else if tag == WORK_PROTOCOL_VERSION {
        if !has_bytes(buf, 1, 35) {
            return Decoded::NeedMore;
        }
        let selected_version: u16 = read_le16(buf, 1);
        match PublicKey::from_slice(crate::wire::slice_at(buf, 3, 33)) {
            Some(auth_key) => Decoded::Complete(
                WorkMessage::ProtocolVersion { selected_version, auth_key },
                36,
            ),
            None => Decoded::Invalid,
        }
    } else if tag == WORK_BLOCK_TEMPLATE {
        if buf.len() < MIN_TEMPLATE_MESSAGE {
            return Decoded::NeedMore;
        }
        let signature = match Signature::from_compact(crate::wire::slice_at(buf, 1, 64)) {
            Some(s) => s,
            None => {
                return Decoded::Invalid;
            },
        };
        match read_block_template(buf, 65) {
            Decoded::Complete(template, next) => Decoded::Complete(
                WorkMessage::BlockTemplate { signature, template },
                next,
            ),
            Decoded::NeedMore => Decoded::NeedMore,
            Decoded::Invalid => Decoded::Invalid,
        }
    } else if tag == WORK_WINNING_NONCE {
        match read_winning_nonce(buf, 1) {
            Decoded::Complete(nonces, next) => Decoded::Complete(
                WorkMessage::WinningNonce { nonces },
                next,
            ),
            Decoded::NeedMore => Decoded::NeedMore,
            Decoded::Invalid => Decoded::Invalid,
        }
    } else if tag == WORK_TRANSACTION_DATA_REQUEST {
        if !has_bytes(buf, 1, 8) {
            return Decoded::NeedMore;
        }
        Decoded::Complete(
            WorkMessage::TransactionDataRequest { template_id: read_le64(buf, 1) },
            9,
        )
    } else if tag == WORK_TRANSACTION_DATA {
        if !has_bytes(buf, 1, 64) {
            return Decoded::NeedMore;
        }
        let signature = match Signature::from_compact(crate::wire::slice_at(buf, 1, 64)) {
            Some(s) => s,
            None => {
                return Decoded::Invalid;
            },
        };
        match read_transaction_data(buf, 65) {
            Decoded::Complete(data, next) => Decoded::Complete(
                WorkMessage::TransactionData { signature, data },
                next,
            ),
            Decoded::NeedMore => Decoded::NeedMore,
            Decoded::Invalid => Decoded::Invalid,
        }
    } else if tag == WORK_COINBASE_PREFIX_POSTFIX {
        if !has_bytes(buf, 1, 64) {
            return Decoded::NeedMore;
        }
        let signature = match Signature::from_compact(crate::wire::slice_at(buf, 1, 64)) {
            Some(s) => s,
            None => {
                return Decoded::Invalid;
            },
        };
        match read_prefix_postfix(buf, 65) {
            Decoded::Complete(coinbase_prefix_postfix, next) => Decoded::Complete(
                WorkMessage::CoinbasePrefixPostfix { signature, coinbase_prefix_postfix },
                next,
            ),
            Decoded::NeedMore => Decoded::NeedMore,
            Decoded::Invalid => Decoded::Invalid,
        }
    } else {
        Decoded::Invalid
    }
}

/// A message that was read in full ends inside the buffer.
pub proof fn lemma_parse_work_in_bounds(buf: Seq<u8>)
    ensures
        parse_work_message(buf) matches Parsed::Complete { next, .. } ==> 0 < next <= buf.len(),
{
    if buf.len() > 0 {
        if buf[0] == WORK_BLOCK_TEMPLATE && buf.len() >= MIN_TEMPLATE_MESSAGE {
            if let Parsed::Complete { next: after_rhss, .. } = parse_hash_list(
                buf,
                149,
                MAX_MERKLE_RHSS as int,
            ) {
                if let Parsed::Complete { next: after_prefix, .. } = parse_bytes8(
                    buf,
                    after_rhss + 12,
                    MAX_COINBASE_PREFIX as int,
                ) {
                    if avail(buf, after_prefix, 5) {
                        lemma_parse_txouts_in_bounds(
                            buf,
                            after_prefix + 5,
                            buf[after_prefix + 4] as nat,
                        );
                    }
                }
            }
        } else if buf[0] == WORK_TRANSACTION_DATA && avail(buf, 65, 12) {
            lemma_parse_txs_in_bounds(buf, 77, u32_at(buf, 73) as nat);
        }
    }
}

// ---------------------------------------------------------------------
// The framer
// ---------------------------------------------------------------------

/// Writes the messages of the job-provider protocol to a byte buffer and
/// reads them from one.
pub struct WorkMsgFramer {}

impl WorkMsgFramer {
    pub fn new() -> WorkMsgFramer {
        WorkMsgFramer {  }
    }

    /// Appends `msg` to `res`. A message that breaks the bounds of the wire
    /// format, or that would not fit the buffer, is refused and `res` is
    /// left as it was.
    pub fn encode(&mut self, msg: WorkMessage, res: &mut BytesMut) -> (r: Result<(), CodecError>)
        ensures
            r is Ok <==> msg@.encodable() && buffer_bytes(*old(res)).len() + msg@.encoding().len()
                <= usize::MAX,
            r is Ok ==> buffer_bytes(*final(res)) == buffer_bytes(*old(res)) + msg@.encoding(),
            r is Err ==> buffer_bytes(*final(res)) == buffer_bytes(*old(res)),
    {
        if !msg.is_encodable() {
            return Err(CodecError);
        }
        let bytes: Vec<u8> = msg.to_bytes();
        let held: usize = buffer_as_slice(res).len();
        if bytes.len() > usize::MAX - held {
            return Err(CodecError);
        }
        buffer_extend(res, bytes.as_slice());
        Ok(())
    }

    /// Takes one message from the front of `bytes`. Where the buffer holds
    /// a whole message, the message is handed out and its bytes are dropped
    /// from the buffer; where it holds only the beginning of one, or what
    /// cannot be a message, the buffer is left as it was.
    pub fn decode(&mut self, bytes: &mut BytesMut) -> (r: Result<Option<WorkMessage>, CodecError>)
        ensures
            match parse_work_message(buffer_bytes(*old(bytes))) {
                Parsed::Complete { value, next } => r matches Ok(Some(msg)) && msg@ == value
                    && buffer_bytes(*final(bytes)) == buffer_bytes(*old(bytes)).skip(next),
                Parsed::NeedMore => r == Ok::<Option<WorkMessage>, CodecError>(None)
                    && buffer_bytes(*final(bytes)) == buffer_bytes(*old(bytes)),
                Parsed::Invalid => r is Err && buffer_bytes(*final(bytes)) == buffer_bytes(
                    *old(bytes),
                ),
            },
    {
        match read_work_message(buffer_as_slice(bytes)) {
            Decoded::Complete(msg, next) => {
                proof {
                    lemma_parse_work_in_bounds(buffer_bytes(*bytes));
                }
                buffer_advance(bytes, next);
                Ok(Some(msg))
            },
            Decoded::NeedMore => Ok(None),
            Decoded::Invalid => Err(CodecError),
        }
    }
}

} // verus!
