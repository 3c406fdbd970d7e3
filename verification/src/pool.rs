//! The pool protocol: its payloads, its messages and their wire format.
use crate::buffer::{buffer_advance, buffer_as_slice, buffer_bytes, buffer_extend};
use crate::keys::{pubkey_parses, signature_parses, PublicKey, Signature};
use crate::payload::{
    duplicate_outputs, encode_bytes16, encode_bytes8, encode_hash_list, encode_tx,
    encode_txout_list, hashes_sized, lemma_hashes_deep_view, lemma_parse_txouts_in_bounds,
    outputs_encodable, parse_bytes16, parse_bytes8, parse_hash_list, parse_tx, parse_txout_list,
    read_bytes16, read_bytes8, read_hash_list, read_tx, read_txout_list, tx_encodable,
    txouts_encodable, write_bytes16, write_bytes8, write_hash_list, write_txout_list, Transaction,
    TxOut, TxOutView,
};
use crate::wire::{
    array_at, avail, bytes_at, has_bytes, lemma_bytes_deep_view, put_bytes, put_le16, put_le32,
    put_le64, read_le16, read_le32, read_le64, slice_at, u16_at, u16_le, u32_at, u32_le, u64_at,
    u64_le, yields, CodecError, Decoded, Parsed,
};
use crate::work::{MAX_COINBASE_PREFIX, MAX_MERKLE_RHSS};
use bytes::BytesMut;
use vstd::prelude::*;

verus! {

/// The share of the reward, in thousandths, that a pool may at most leave
/// to the proxy's operator: all of it.
pub const MAX_PAYOUT_RATIO: u16 = 1000;

/// The tag bytes of the messages of this protocol.
pub const POOL_PROTOCOL_SUPPORT: u8 = 1;

pub const POOL_PROTOCOL_VERSION: u8 = 2;

pub const POOL_PAYOUT_INFO: u8 = 3;

pub const POOL_SHARE_DIFFICULTY: u8 = 4;

pub const POOL_SHARE: u8 = 5;

pub const POOL_WEAK_BLOCK: u8 = 6;

pub const POOL_WEAK_BLOCK_STATE_RESET: u8 = 7;

/// How a pool wants the reward paid out; a later `timestamp` replaces an
/// earlier one.
#[derive(Clone, Debug, PartialEq, Eq)]
pub struct PoolPayoutInfo {
    pub timestamp: u64,
    /// The operator's part, in thousandths, of what is left of the reward
    /// once the appended outputs are paid.
    pub self_payout_ratio_per_1000: u16,
    pub coinbase_postfix: Vec<u8>,
    pub remaining_payout: Vec<u8>,
    pub appended_outputs: Vec<TxOut>,
}

/// A `PoolPayoutInfo` as a mathematical value.
pub struct PoolPayoutInfoView {
    pub timestamp: u64,
    pub self_payout_ratio_per_1000: u16,
    pub coinbase_postfix: Seq<u8>,
    pub remaining_payout: Seq<u8>,
    pub appended_outputs: Seq<TxOutView>,
}

impl View for PoolPayoutInfo {
    type V = PoolPayoutInfoView;

    open spec fn view(&self) -> PoolPayoutInfoView {
        PoolPayoutInfoView {
            timestamp: self.timestamp,
            self_payout_ratio_per_1000: self.self_payout_ratio_per_1000,
            coinbase_postfix: self.coinbase_postfix@,
            remaining_payout: self.remaining_payout@,
            appended_outputs: self.appended_outputs.deep_view(),
        }
    }
}

impl DeepView for PoolPayoutInfo {
    type V = PoolPayoutInfoView;

    open spec fn deep_view(&self) -> PoolPayoutInfoView {
        self@
    }
}

/// The targets that a pool pays for.
#[derive(Clone, Copy, Debug, PartialEq, Eq)]
pub struct PoolDifficulty {
    pub share_target: [u8; 32],
    pub weak_block_target: [u8; 32],
}

/// A `PoolDifficulty` as a mathematical value.
pub struct PoolDifficultyView {
    pub share_target: Seq<u8>,
    pub weak_block_target: Seq<u8>,
}

impl View for PoolDifficulty {
    type V = PoolDifficultyView;

    open spec fn view(&self) -> PoolDifficultyView {
        PoolDifficultyView {
            share_target: self.share_target@,
            weak_block_target: self.weak_block_target@,
        }
    }
}

impl DeepView for PoolDifficulty {
    type V = PoolDifficultyView;

    open spec fn deep_view(&self) -> PoolDifficultyView {
        self@
    }
}

/// A solution that meets a pool's share target, with what the pool needs
/// to check it.
#[derive(Clone, Debug, PartialEq, Eq)]
pub struct PoolShare {
    pub header_version: u32,
    pub header_prevblock: [u8; 32],
    pub header_time: u32,
    pub header_nbits: u32,
    pub header_nonce: u32,
    pub merkle_rhss: Vec<[u8; 32]>,
    pub coinbase_tx: Transaction,
}

/// A `PoolShare` as a mathematical value.
pub struct PoolShareView {
    pub header_version: u32,
    pub header_prevblock: Seq<u8>,
    pub header_time: u32,
    pub header_nbits: u32,
    pub header_nonce: u32,
    pub merkle_rhss: Seq<Seq<u8>>,
    pub coinbase_tx: Seq<u8>,
}

impl View for PoolShare {
    type V = PoolShareView;

    open spec fn view(&self) -> PoolShareView {
        PoolShareView {
            header_version: self.header_version,
            header_prevblock: self.header_prevblock@,
            header_time: self.header_time,
            header_nbits: self.header_nbits,
            header_nonce: self.header_nonce,
            merkle_rhss: self.merkle_rhss.deep_view(),
            coinbase_tx: self.coinbase_tx@,
        }
    }
}

impl DeepView for PoolShare {
    type V = PoolShareView;

    open spec fn deep_view(&self) -> PoolShareView {
        self@
    }
}

/// One step of a weak block's sketch, relative to the sketch before it.
#[derive(Clone, Debug, PartialEq, Eq)]
pub enum WeakBlockAction {
    /// Skips the next `n` transactions of the earlier sketch.
    SkipN { n: u8 },
    /// Takes the transaction at the current place of the earlier sketch.
    IncludeTx {  },
    /// Adds a transaction that the earlier sketch did not hold.
    NewTx { tx: Transaction },
}

/// A `WeakBlockAction` as a mathematical value.
pub enum WeakBlockActionView {
    SkipN { n: u8 },
    IncludeTx,
    NewTx { tx: Seq<u8> },
}

impl View for WeakBlockAction {
    type V = WeakBlockActionView;

    open spec fn view(&self) -> WeakBlockActionView {
        match *self {
            WeakBlockAction::SkipN { n } => WeakBlockActionView::SkipN { n },
            WeakBlockAction::IncludeTx {  } => WeakBlockActionView::IncludeTx,
            WeakBlockAction::NewTx { tx } => WeakBlockActionView::NewTx { tx: tx@ },
        }
    }
}

impl DeepView for WeakBlockAction {
    type V = WeakBlockActionView;

    open spec fn deep_view(&self) -> WeakBlockActionView {
        self@
    }
}

/// A block that meets a pool's weak-block target, as a sketch relative to
/// the one sent before.
#[derive(Clone, Debug, PartialEq, Eq)]
pub struct WeakBlock {
    pub header_version: u32,
    pub header_prevblock: [u8; 32],
    pub header_time: u32,
    pub header_nbits: u32,
    pub header_nonce: u32,
    pub sketch_id: u64,
    pub prev_sketch_id: u64,
    pub txn: Vec<WeakBlockAction>,
}

/// A `WeakBlock` as a mathematical value.
pub struct WeakBlockView {
    pub header_version: u32,
    pub header_prevblock: Seq<u8>,
    pub header_time: u32,
    pub header_nbits: u32,
    pub header_nonce: u32,
    pub sketch_id: u64,
    pub prev_sketch_id: u64,
    pub txn: Seq<WeakBlockActionView>,
}

impl View for WeakBlock {
    type V = WeakBlockView;

    open spec fn view(&self) -> WeakBlockView {
        WeakBlockView {
            header_version: self.header_version,
            header_prevblock: self.header_prevblock@,
            header_time: self.header_time,
            header_nbits: self.header_nbits,
            header_nonce: self.header_nonce,
            sketch_id: self.sketch_id,
            prev_sketch_id: self.prev_sketch_id,
            txn: self.txn.deep_view(),
        }
    }
}

impl DeepView for WeakBlock {
    type V = WeakBlockView;

    open spec fn deep_view(&self) -> WeakBlockView {
        self@
    }
}

/// A message of the pool protocol.
#[derive(Clone, Debug, PartialEq, Eq)]
pub enum PoolMessage {
    ProtocolSupport { max_version: u16, min_version: u16, flags: u16 },
    ProtocolVersion { selected_version: u16, auth_key: PublicKey },
    PayoutInfo { signature: Signature, payout_info: PoolPayoutInfo },
    ShareDifficulty { difficulty: PoolDifficulty },
    Share { share: PoolShare },
    WeakBlock { sketch: WeakBlock },
    WeakBlockStateReset {  },
}

/// A `PoolMessage` as a mathematical value.
pub enum PoolMessageView {
    ProtocolSupport { max_version: u16, min_version: u16, flags: u16 },
    ProtocolVersion { selected_version: u16, auth_key: Seq<u8> },
    PayoutInfo { signature: Seq<u8>, payout_info: PoolPayoutInfoView },
    ShareDifficulty { difficulty: PoolDifficultyView },
    Share { share: PoolShareView },
    WeakBlock { sketch: WeakBlockView },
    WeakBlockStateReset,
}

impl View for PoolMessage {
    type V = PoolMessageView;

    open spec fn view(&self) -> PoolMessageView {
        match *self {
            PoolMessage::ProtocolSupport { max_version, min_version, flags } => {
                PoolMessageView::ProtocolSupport { max_version, min_version, flags }
            },
            PoolMessage::ProtocolVersion { selected_version, auth_key } => {
                PoolMessageView::ProtocolVersion { selected_version, auth_key: auth_key@ }
            },
            PoolMessage::PayoutInfo { signature, payout_info } => PoolMessageView::PayoutInfo {
                signature: signature@,
                payout_info: payout_info@,
            },
            PoolMessage::ShareDifficulty { difficulty } => PoolMessageView::ShareDifficulty {
                difficulty: difficulty@,
            },
            PoolMessage::Share { share } => PoolMessageView::Share { share: share@ },
            PoolMessage::WeakBlock { sketch } => PoolMessageView::WeakBlock { sketch: sketch@ },
            PoolMessage::WeakBlockStateReset {  } => PoolMessageView::WeakBlockStateReset,
        }
    }
}

impl DeepView for PoolMessage {
    type V = PoolMessageView;

    open spec fn deep_view(&self) -> PoolMessageView {
        self@
    }
}

// ---------------------------------------------------------------------
// What can be written, and how it looks on the wire
// ---------------------------------------------------------------------

impl PoolPayoutInfoView {
    /// Whether the payout policy keeps the bounds of the wire format.
    pub open spec fn encodable(self) -> bool {
        &&& self.self_payout_ratio_per_1000 <= MAX_PAYOUT_RATIO
        &&& self.coinbase_postfix.len() <= MAX_COINBASE_PREFIX
        &&& self.remaining_payout.len() <= 0xffff
        &&& self.appended_outputs.len() <= 255
        &&& txouts_encodable(self.appended_outputs)
    }

    /// The payout policy as it is signed and sent.
    pub open spec fn encoding(self) -> Seq<u8> {
        u64_le(self.timestamp) + u16_le(self.self_payout_ratio_per_1000) + encode_bytes8(
            self.coinbase_postfix,
        ) + encode_bytes16(self.remaining_payout) + encode_txout_list(self.appended_outputs)
    }
}

impl PoolDifficultyView {
    /// Whether both targets have their 32 bytes.
    pub open spec fn encodable(self) -> bool {
        self.share_target.len() == 32 && self.weak_block_target.len() == 32
    }

    /// The targets as they are sent.
    pub open spec fn encoding(self) -> Seq<u8> {
        self.share_target + self.weak_block_target
    }
}

impl PoolShareView {
    /// Whether the share keeps the bounds of the wire format.
    pub open spec fn encodable(self) -> bool {
        &&& self.header_prevblock.len() == 32
        &&& self.merkle_rhss.len() <= MAX_MERKLE_RHSS
        &&& hashes_sized(self.merkle_rhss)
        &&& tx_encodable(self.coinbase_tx)
    }

    /// The header fields that open the share.
    pub open spec fn header(self) -> Seq<u8> {
        u32_le(self.header_version) + self.header_prevblock + u32_le(self.header_time) + u32_le(
            self.header_nbits,
        ) + u32_le(self.header_nonce)
    }

    /// The share as it is sent.
    pub open spec fn encoding(self) -> Seq<u8> {
        self.header() + encode_hash_list(self.merkle_rhss) + encode_tx(self.coinbase_tx)
    }
}

impl WeakBlockActionView {
    /// The two bits that name the kind of step.
    pub open spec fn code(self) -> nat {
        match self {
            WeakBlockActionView::SkipN { .. } => 1,
            WeakBlockActionView::IncludeTx => 2,
            WeakBlockActionView::NewTx { .. } => 3,
        }
    }

    /// Whether the step can be written.
    pub open spec fn encodable(self) -> bool {
        match self {
            WeakBlockActionView::NewTx { tx } => tx_encodable(tx),
            _ => true,
        }
    }
}

/// Whether every step of a sketch can be written.
pub open spec fn actions_encodable(actions: Seq<WeakBlockActionView>) -> bool {
    forall|i: int| 0 <= i < actions.len() ==> (#[trigger] actions[i]).encodable()
}

/// The codes that wait to be written after `actions`: those of the steps
/// since the last byte went out, two bits each, the latest lowest.
pub open spec fn actions_pending(actions: Seq<WeakBlockActionView>) -> nat
    decreases actions.len(),
{
    if actions.len() == 0 {
        0
    } else {
        let packed = 4 * actions_pending(actions.drop_last()) + actions.last().code();
        if actions.last() is IncludeTx && packed < 64 {
            packed
        } else {
            0
        }
    }
}

/// The steps of a sketch on the wire, as far as their bytes are complete.
/// Codes are packed four to a byte; a byte goes out when it is full, or at
/// once with a step that has data behind it. The codes that do not fill a
/// byte yet are those of `actions_pending`.
pub open spec fn encode_actions(actions: Seq<WeakBlockActionView>) -> Seq<u8>
    decreases actions.len(),
{
    if actions.len() == 0 {
        Seq::empty()
    } else {
        let front = encode_actions(actions.drop_last());
        let packed = (4 * actions_pending(actions.drop_last()) + actions.last().code()) as u8;
        match actions.last() {
            WeakBlockActionView::SkipN { n } => front + seq![packed, n],
            WeakBlockActionView::IncludeTx => if packed >= 64 {
                front + seq![packed]
            } else {
                front
            },
            WeakBlockActionView::NewTx { tx } => front + seq![packed] + encode_tx(tx),
        }
    }
}

/// The byte that closes a sketch: the codes that still wait, if any does.
pub open spec fn encode_pending(actions: Seq<WeakBlockActionView>) -> Seq<u8> {
    if actions_pending(actions) == 0 {
        Seq::empty()
    } else {
        seq![actions_pending(actions) as u8]
    }
}

impl WeakBlockView {
    /// Whether the sketch can be written.
    pub open spec fn encodable(self) -> bool {
        self.header_prevblock.len() == 32 && actions_encodable(self.txn)
    }

    /// The fixed fields that open the sketch.
    pub open spec fn header(self) -> Seq<u8> {
        u32_le(self.header_version) + self.header_prevblock + u32_le(self.header_time) + u32_le(
            self.header_nbits,
        ) + u32_le(self.header_nonce) + u64_le(self.sketch_id) + u64_le(self.prev_sketch_id)
    }

    /// The sketch as it is sent: the fixed fields, then every step, the
    /// last byte holding the codes that did not fill it.
    pub open spec fn encoding(self) -> Seq<u8> {
        self.header() + encode_actions(self.txn) + encode_pending(self.txn)
    }
}

impl PoolMessageView {
    /// The byte that names the kind of message.
    pub open spec fn tag(self) -> u8 {
        match self {
            PoolMessageView::ProtocolSupport { .. } => POOL_PROTOCOL_SUPPORT,
            PoolMessageView::ProtocolVersion { .. } => POOL_PROTOCOL_VERSION,
            PoolMessageView::PayoutInfo { .. } => POOL_PAYOUT_INFO,
            PoolMessageView::ShareDifficulty { .. } => POOL_SHARE_DIFFICULTY,
            PoolMessageView::Share { .. } => POOL_SHARE,
            PoolMessageView::WeakBlock { .. } => POOL_WEAK_BLOCK,
            PoolMessageView::WeakBlockStateReset => POOL_WEAK_BLOCK_STATE_RESET,
        }
    }

    /// Whether the message keeps the bounds of the wire format.
    pub open spec fn encodable(self) -> bool {
        match self {
            PoolMessageView::ProtocolSupport { .. } => true,
            PoolMessageView::ProtocolVersion { auth_key, .. } => auth_key.len() == 33,
            PoolMessageView::PayoutInfo { signature, payout_info } => signature.len() == 64
                && payout_info.encodable(),
            PoolMessageView::ShareDifficulty { difficulty } => difficulty.encodable(),
            PoolMessageView::Share { share } => share.encodable(),
            PoolMessageView::WeakBlock { sketch } => sketch.encodable(),
            PoolMessageView::WeakBlockStateReset => true,
        }
    }

    /// What follows the tag byte.
    pub open spec fn body(self) -> Seq<u8> {
        match self {
            PoolMessageView::ProtocolSupport { max_version, min_version, flags } => u16_le(
                max_version,
            ) + u16_le(min_version) + u16_le(flags),
            PoolMessageView::ProtocolVersion { selected_version, auth_key } => u16_le(
                selected_version,
            ) + auth_key,
            PoolMessageView::PayoutInfo { signature, payout_info } => signature
                + payout_info.encoding(),
            PoolMessageView::ShareDifficulty { difficulty } => difficulty.encoding(),
            PoolMessageView::Share { share } => share.encoding(),
            PoolMessageView::WeakBlock { sketch } => sketch.encoding(),
            PoolMessageView::WeakBlockStateReset => Seq::empty(),
        }
    }

    /// The message on the wire: the tag byte, then the body.
    pub open spec fn encoding(self) -> Seq<u8> {
        seq![self.tag()] + self.body()
    }
}

// ---------------------------------------------------------------------
// Reading, as the format defines it
// ---------------------------------------------------------------------

/// Reads a payout policy that starts at `pos`. A ratio above a thousand
/// and a coinbase postfix of more than a hundred bytes are refused.
pub open spec fn parse_payout_info(buf: Seq<u8>, pos: int) -> Parsed<PoolPayoutInfoView> {
    if !avail(buf, pos, 10) {
        Parsed::NeedMore
    } else if u16_at(buf, pos + 8) > MAX_PAYOUT_RATIO {
        Parsed::Invalid
    } else {
        match parse_bytes8(buf, pos + 10, MAX_COINBASE_PREFIX as int) {
            Parsed::Complete {
                value: coinbase_postfix,
                next: after_postfix,
            } => match parse_bytes16(buf, after_postfix) {
                Parsed::Complete {
                    value: remaining_payout,
                    next: after_script,
                } => match parse_txout_list(buf, after_script) {
                    Parsed::Complete { value: appended_outputs, next } => Parsed::Complete {
                        value: PoolPayoutInfoView {
                            timestamp: u64_at(buf, pos),
                            self_payout_ratio_per_1000: u16_at(buf, pos + 8),
                            coinbase_postfix,
                            remaining_payout,
                            appended_outputs,
                        },
                        next,
                    },
                    Parsed::NeedMore => Parsed::NeedMore,
                    Parsed::Invalid => Parsed::Invalid,
                },
                Parsed::NeedMore => Parsed::NeedMore,
                Parsed::Invalid => Parsed::Invalid,
            },
            Parsed::NeedMore => Parsed::NeedMore,
            Parsed::Invalid => Parsed::Invalid,
        }
    }
}

/// Reads a share that starts at `pos`.
pub open spec fn parse_share(buf: Seq<u8>, pos: int) -> Parsed<PoolShareView> {
    if !avail(buf, pos, 48) {
        Parsed::NeedMore
    } else {
        match parse_hash_list(buf, pos + 48, MAX_MERKLE_RHSS as int) {
            Parsed::Complete { value: merkle_rhss, next: after_rhss } => match parse_tx(
                buf,
                after_rhss,
            ) {
                Parsed::Complete { value: coinbase_tx, next } => Parsed::Complete {
                    value: PoolShareView {
                        header_version: u32_at(buf, pos),
                        header_prevblock: bytes_at(buf, pos + 4, 32),
                        header_time: u32_at(buf, pos + 36),
                        header_nbits: u32_at(buf, pos + 40),
                        header_nonce: u32_at(buf, pos + 44),
                        merkle_rhss,
                        coinbase_tx,
                    },
                    next,
                },
                Parsed::NeedMore => Parsed::NeedMore,
                Parsed::Invalid => Parsed::Invalid,
            },
            Parsed::NeedMore => Parsed::NeedMore,
            Parsed::Invalid => Parsed::Invalid,
        }
    }
}

/// Reads one message of the pool protocol from the start of `buf`. A weak
/// block does not say where it ends, so none is ever read: its tag asks for
/// more, whatever follows.
pub open spec fn parse_pool_message(buf: Seq<u8>) -> Parsed<PoolMessageView> {
    if buf.len() == 0 {
        Parsed::NeedMore
    } else if buf[0] == POOL_PROTOCOL_SUPPORT {
        if !avail(buf, 1, 6) {
            Parsed::NeedMore
        } else {
            Parsed::Complete {
                value: PoolMessageView::ProtocolSupport {
                    max_version: u16_at(buf, 1),
                    min_version: u16_at(buf, 3),
                    flags: u16_at(buf, 5),
                },
                next: 7,
            }
        }
    } else if buf[0] == POOL_PROTOCOL_VERSION {
        if !avail(buf, 1, 35) {
            Parsed::NeedMore
        } else if !pubkey_parses(bytes_at(buf, 3, 33)) {
            Parsed::Invalid
        } else {
            Parsed::Complete {
                value: PoolMessageView::ProtocolVersion {
                    selected_version: u16_at(buf, 1),
                    auth_key: bytes_at(buf, 3, 33),
                },
                next: 36,
            }
        }
    } else if buf[0] == POOL_PAYOUT_INFO {
        if !avail(buf, 1, 64) {
            Parsed::NeedMore
        } else if !signature_parses(bytes_at(buf, 1, 64)) {
            Parsed::Invalid
        } else {
            match parse_payout_info(buf, 65) {
                Parsed::Complete { value, next } => Parsed::Complete {
                    value: PoolMessageView::PayoutInfo {
                        signature: bytes_at(buf, 1, 64),
                        payout_info: value,
                    },
                    next,
                },
                Parsed::NeedMore => Parsed::NeedMore,
                Parsed::Invalid => Parsed::Invalid,
            }
        }
    } else if buf[0] == POOL_SHARE_DIFFICULTY {
        if !avail(buf, 1, 64) {
            Parsed::NeedMore
        } else {
            Parsed::Complete {
                value: PoolMessageView::ShareDifficulty {
                    difficulty: PoolDifficultyView {
                        share_target: bytes_at(buf, 1, 32),
                        weak_block_target: bytes_at(buf, 33, 32),
                    },
                },
                next: 65,
            }
        }
    } else if buf[0] == POOL_SHARE {
        match parse_share(buf, 1) {
            Parsed::Complete { value, next } => Parsed::Complete {
                value: PoolMessageView::Share { share: value },
                next,
            },
            Parsed::NeedMore => Parsed::NeedMore,
            Parsed::Invalid => Parsed::Invalid,
        }
    } else if buf[0] == POOL_WEAK_BLOCK {
        Parsed::NeedMore
    } else if buf[0] == POOL_WEAK_BLOCK_STATE_RESET {
        Parsed::Complete { value: PoolMessageView::WeakBlockStateReset, next: 1 }
    } else {
        Parsed::Invalid
    }
}

// ---------------------------------------------------------------------
// Writing
// ---------------------------------------------------------------------

impl PoolPayoutInfo {
    /// Whether the payout policy keeps the bounds of the wire format.
    pub fn is_encodable(&self) -> (ok: bool)
        ensures
            ok == self@.encodable(),
    {
        self.self_payout_ratio_per_1000 <= MAX_PAYOUT_RATIO && self.coinbase_postfix.len()
            <= MAX_COINBASE_PREFIX as usize && self.remaining_payout.len() <= 0xffff
            && self.appended_outputs.len() <= 255 && outputs_encodable(&self.appended_outputs)
    }

    /// The payout policy as it is signed and sent.
    pub fn unsigned_bytes(&self) -> (out: Vec<u8>)
        requires
            self@.encodable(),
        ensures
            out@ == self@.encoding(),
    {
        let mut out: Vec<u8> = Vec::new();
        put_le64(&mut out, self.timestamp);
        put_le16(&mut out, self.self_payout_ratio_per_1000);
        write_bytes8(&mut out, self.coinbase_postfix.as_slice());
        write_bytes16(&mut out, self.remaining_payout.as_slice());
        write_txout_list(&mut out, &self.appended_outputs);
        assert(out@ =~= self@.encoding());
        out
    }

    /// Appends the payout policy, as it is signed and sent, to `res`.
    pub fn encode_unsigned(&self, res: &mut BytesMut)
        requires
            self@.encodable(),
            buffer_bytes(*old(res)).len() + self@.encoding().len() <= usize::MAX,
        ensures
            buffer_bytes(*final(res)) == buffer_bytes(*old(res)) + self@.encoding(),
    {
        let bytes: Vec<u8> = self.unsigned_bytes();
        buffer_extend(res, bytes.as_slice());
    }

    /// A copy of this payout policy.
    pub fn duplicate(&self) -> (copy: PoolPayoutInfo)
        ensures
            copy@ == self@,
    {
        PoolPayoutInfo {
            timestamp: self.timestamp,
            self_payout_ratio_per_1000: self.self_payout_ratio_per_1000,
            coinbase_postfix: self.coinbase_postfix.clone(),
            remaining_payout: self.remaining_payout.clone(),
            appended_outputs: duplicate_outputs(&self.appended_outputs),
        }
    }
}

impl PoolShare {
    /// Whether the share keeps the bounds of the wire format.
    pub fn is_encodable(&self) -> (ok: bool)
        ensures
            ok == self@.encodable(),
    {
        proof {
            lemma_hashes_deep_view(self.merkle_rhss);
        }
        self.merkle_rhss.len() <= MAX_MERKLE_RHSS as usize && self.coinbase_tx.is_encodable()
    }

    /// The share as it is sent.
    pub fn to_bytes(&self) -> (out: Vec<u8>)
        requires
            self@.encodable(),
        ensures
            out@ == self@.encoding(),
    {
        let mut out: Vec<u8> = Vec::new();
        put_le32(&mut out, self.header_version);
        put_bytes(&mut out, self.header_prevblock.as_slice());
        put_le32(&mut out, self.header_time);
        put_le32(&mut out, self.header_nbits);
        put_le32(&mut out, self.header_nonce);
        assert(out@ =~= self@.header());
        write_hash_list(&mut out, &self.merkle_rhss);
        self.coinbase_tx.write_to(&mut out);
        out
    }
}

/// Whether every step of `actions` can be written.
pub fn sketch_encodable(actions: &Vec<WeakBlockAction>) -> (ok: bool)
    ensures
        ok == actions_encodable(actions.deep_view()),
{
    let mut i: usize = 0;
    while i < actions.len()
        invariant
            i <= actions.len(),
            forall|j: int| 0 <= j < i ==> (#[trigger] actions.deep_view()[j]).encodable(),
        decreases actions.len() - i,
    {
        let ok: bool = match &actions[i] {
            WeakBlockAction::NewTx { tx } => tx.is_encodable(),
            _ => true,
        };
        if !ok {
            assert(!actions.deep_view()[i as int].encodable());
            return false;
        }
        i += 1;
    }
    true
}

/// The codes that wait after `actions` never fill a byte.
pub proof fn lemma_actions_pending_small(actions: Seq<WeakBlockActionView>)
    ensures
        actions_pending(actions) < 64,
    decreases actions.len(),
{
    if actions.len() > 0 {
        lemma_actions_pending_small(actions.drop_last());
    }
}

impl WeakBlock {
    /// Whether the sketch can be written.
    pub fn is_encodable(&self) -> (ok: bool)
        ensures
            ok == self@.encodable(),
    {
        sketch_encodable(&self.txn)
    }

    /// The sketch as it is sent.
    pub fn to_bytes(&self) -> (out: Vec<u8>)
        requires
            self@.encodable(),
        ensures
            out@ == self@.encoding(),
    {
        let mut out: Vec<u8> = Vec::new();
        put_le32(&mut out, self.header_version);
        put_bytes(&mut out, self.header_prevblock.as_slice());
        put_le32(&mut out, self.header_time);
        put_le32(&mut out, self.header_nbits);
        put_le32(&mut out, self.header_nonce);
        put_le64(&mut out, self.sketch_id);
        put_le64(&mut out, self.prev_sketch_id);
        assert(out@ =~= self@.header());
        let ghost all = self.txn.deep_view();
        let mut pending: u8 = 0;
        let mut i: usize = 0;
        assert(all.take(0) =~= Seq::empty());
        while i < self.txn.len()
            invariant
                i <= self.txn.len(),
                all == self.txn.deep_view(),
                actions_encodable(all),
                pending == actions_pending(all.take(i as int)),
                pending < 64,
                out@ == self@.header() + encode_actions(all.take(i as int)),
            decreases self.txn.len() - i,
        {
            let ghost before = all.take(i as int);
            let ghost now = all.take(i + 1);
            proof {
                assert(now.drop_last() =~= before);
                assert(now.last() == all[i as int]);
                assert(all[i as int].encodable());
                lemma_actions_pending_small(now);
            }
            match &self.txn[i] {
                WeakBlockAction::SkipN { n } => {
                    let packed: u8 = (pending << 2) | 0b01;
                    assert(packed == 4 * pending + 1) by (bit_vector)
                        requires
                            packed == (pending << 2u8) | 1u8,
                            pending < 64,
                    ;
                    out.push(packed);
                    out.push(*n);
                    pending = 0;
                    assert(out@ =~= self@.header() + encode_actions(now));
                },
                WeakBlockAction::IncludeTx {  } => {
                    let packed: u8 = (pending << 2) | 0b10;
                    assert(packed == 4 * pending + 2 && ((packed & 0b1100_0000u8) != 0u8 <==> packed
                        >= 64)) by (bit_vector)
                        requires
                            packed == (pending << 2u8) | 2u8,
                            pending < 64,
                    ;
                    if (packed & 0b1100_0000) != 0 {
                        out.push(packed);
                        pending = 0;
                    } else {
                        pending = packed;
                    }
                    assert(out@ =~= self@.header() + encode_actions(now));
                },
                WeakBlockAction::NewTx { tx } => {
                    let packed: u8 = (pending << 2) | 0b11;
                    assert(packed == 4 * pending + 3) by (bit_vector)
                        requires
                            packed == (pending << 2u8) | 3u8,
                            pending < 64,
                    ;
                    out.push(packed);
                    pending = 0;
                    tx.write_to(&mut out);
                    assert(out@ =~= self@.header() + encode_actions(now));
                },
            }
            i += 1;
        }
        assert(all.take(i as int) =~= all);
        if pending != 0 {
            out.push(pending);
        }
        assert(out@ =~= self@.encoding());
        out
    }

    /// Appends the sketch, as it is sent, to `res`.
    pub fn encode(&self, res: &mut BytesMut)
        requires
            self@.encodable(),
            buffer_bytes(*old(res)).len() + self@.encoding().len() <= usize::MAX,
        ensures
            buffer_bytes(*final(res)) == buffer_bytes(*old(res)) + self@.encoding(),
    {
        let bytes: Vec<u8> = self.to_bytes();
        buffer_extend(res, bytes.as_slice());
    }
}

impl PoolMessage {
    /// Whether the message keeps the bounds of the wire format.
    pub fn is_encodable(&self) -> (ok: bool)
        ensures
            ok == self@.encodable(),
    {
        match self {
            PoolMessage::ProtocolSupport { .. } => true,
            PoolMessage::ProtocolVersion { .. } => true,
            PoolMessage::PayoutInfo { payout_info, .. } => payout_info.is_encodable(),
            PoolMessage::ShareDifficulty { .. } => true,
            PoolMessage::Share { share } => share.is_encodable(),
            PoolMessage::WeakBlock { sketch } => sketch.is_encodable(),
            PoolMessage::WeakBlockStateReset {  } => true,
        }
    }

    /// The message on the wire.
    pub fn to_bytes(&self) -> (out: Vec<u8>)
        requires
            self@.encodable(),
        ensures
            out@ == self@.encoding(),
    {
        let mut out: Vec<u8> = Vec::new();
        match self {
            PoolMessage::ProtocolSupport { max_version, min_version, flags } => {
                out.push(POOL_PROTOCOL_SUPPORT);
                put_le16(&mut out, *max_version);
                put_le16(&mut out, *min_version);
                put_le16(&mut out, *flags);
            },
            PoolMessage::ProtocolVersion { selected_version, auth_key } => {
                out.push(POOL_PROTOCOL_VERSION);
                put_le16(&mut out, *selected_version);
                put_bytes(&mut out, auth_key.bytes.as_slice());
            },
            PoolMessage::PayoutInfo { signature, payout_info } => {
                out.push(POOL_PAYOUT_INFO);
                put_bytes(&mut out, signature.bytes.as_slice());
                let body: Vec<u8> = payout_info.unsigned_bytes();
                put_bytes(&mut out, body.as_slice());
            },
            PoolMessage::ShareDifficulty { difficulty } => {
                out.push(POOL_SHARE_DIFFICULTY);
                put_bytes(&mut out, difficulty.share_target.as_slice());
                put_bytes(&mut out, difficulty.weak_block_target.as_slice());
            },
            PoolMessage::Share { share } => {
                out.push(POOL_SHARE);
                let body: Vec<u8> = share.to_bytes();
                put_bytes(&mut out, body.as_slice());
            },
            PoolMessage::WeakBlock { sketch } => {
                out.push(POOL_WEAK_BLOCK);
                let body: Vec<u8> = sketch.to_bytes();
                put_bytes(&mut out, body.as_slice());
            },
            PoolMessage::WeakBlockStateReset {  } => {
                out.push(POOL_WEAK_BLOCK_STATE_RESET);
            },
        }
        assert(out@ =~= self@.encoding());
        out
    }
}

// ---------------------------------------------------------------------
// Reading
// ---------------------------------------------------------------------

/// Reads a payout policy that starts at `pos`.
pub fn read_payout_info(buf: &[u8], pos: usize) -> (d: Decoded<PoolPayoutInfo>)
    ensures
        yields(d, parse_payout_info(buf@, pos as int)),
{
    if !has_bytes(buf, pos, 10) {
        return Decoded::NeedMore;
    }
    let timestamp: u64 = read_le64(buf, pos);
    let self_payout_ratio_per_1000: u16 = read_le16(buf, pos + 8);
    if self_payout_ratio_per_1000 > MAX_PAYOUT_RATIO {
        return Decoded::Invalid;
    }
    let (coinbase_postfix, after_postfix) = match read_bytes8(buf, pos + 10, MAX_COINBASE_PREFIX) {
        Decoded::Complete(v, n) => (v, n),
        Decoded::NeedMore => {
            return Decoded::NeedMore;
        },
        Decoded::Invalid => {
            return Decoded::Invalid;
        },
    };
    let (remaining_payout, after_script) = match read_bytes16(buf, after_postfix) {
        Decoded::Complete(v, n) => (v, n),
        Decoded::NeedMore => {
            return Decoded::NeedMore;
        },
        Decoded::Invalid => {
            return Decoded::Invalid;
        },
    };
    match read_txout_list(buf, after_script) {
        Decoded::Complete(appended_outputs, next) => {
            proof {
                lemma_bytes_deep_view(coinbase_postfix);
                lemma_bytes_deep_view(remaining_payout);
            }
            Decoded::Complete(
                PoolPayoutInfo {
                    timestamp,
                    self_payout_ratio_per_1000,
                    coinbase_postfix,
                    remaining_payout,
                    appended_outputs,
                },
                next,
            )
        },
        Decoded::NeedMore => Decoded::NeedMore,
        Decoded::Invalid => Decoded::Invalid,
    }
}

/// Reads a share that starts at `pos`.
pub fn read_share(buf: &[u8], pos: usize) -> (d: Decoded<PoolShare>)
    ensures
        yields(d, parse_share(buf@, pos as int)),
{
    if !has_bytes(buf, pos, 48) {
        return Decoded::NeedMore;
    }
    let header_version: u32 = read_le32(buf, pos);
    let header_prevblock: [u8; 32] = array_at::<32>(buf, pos + 4);
    let header_time: u32 = read_le32(buf, pos + 36);
    let header_nbits: u32 = read_le32(buf, pos + 40);
    let header_nonce: u32 = read_le32(buf, pos + 44);
    let (merkle_rhss, after_rhss) = match read_hash_list(buf, pos + 48, MAX_MERKLE_RHSS) {
        Decoded::Complete(v, n) => (v, n),
        Decoded::NeedMore => {
            return Decoded::NeedMore;
        },
        Decoded::Invalid => {
            return Decoded::Invalid;
        },
    };
    match read_tx(buf, after_rhss) {
        Decoded::Complete(coinbase_tx, next) => Decoded::Complete(
            PoolShare {
                header_version,
                header_prevblock,
                header_time,
                header_nbits,
                header_nonce,
                merkle_rhss,
                coinbase_tx,
            },
            next,
        ),
        Decoded::NeedMore => Decoded::NeedMore,
        Decoded::Invalid => Decoded::Invalid,
    }
}

/// Reads one message of the pool protocol from the start of `buf`.
pub fn read_pool_message(buf: &[u8]) -> (d: Decoded<PoolMessage>)
    ensures
        yields(d, parse_pool_message(buf@)),
{
    if buf.len() == 0 {
        return Decoded::NeedMore;
    }
    let tag: u8 = buf[0];
    if tag == POOL_PROTOCOL_SUPPORT {
        if !has_bytes(buf, 1, 6) {
            return Decoded::NeedMore;
        }
        Decoded::Complete(
            PoolMessage::ProtocolSupport {
                max_version: read_le16(buf, 1),
                min_version: read_le16(buf, 3),
                flags: read_le16(buf, 5),
            },
            7,
        )
    } else if tag == POOL_PROTOCOL_VERSION {
        if !has_bytes(buf, 1, 35) {
            return Decoded::NeedMore;
        }
        let selected_version: u16 = read_le16(buf, 1);
        match PublicKey::from_slice(slice_at(buf, 3, 33)) {
            Some(auth_key) => Decoded::Complete(
                PoolMessage::ProtocolVersion { selected_version, auth_key },
                36,
            ),
            None => Decoded::Invalid,
        }
    } else if tag == POOL_PAYOUT_INFO {
        if !has_bytes(buf, 1, 64) {
            return Decoded::NeedMore;
        }
        let signature = match Signature::from_compact(slice_at(buf, 1, 64)) {
            Some(s) => s,
            None => {
                return Decoded::Invalid;
            },
        };
        match read_payout_info(buf, 65) {
            Decoded::Complete(payout_info, next) => Decoded::Complete(
                PoolMessage::PayoutInfo { signature, payout_info },
                next,
            ),
            Decoded::NeedMore => Decoded::NeedMore,
            Decoded::Invalid => Decoded::Invalid,
        }
    } else if tag == POOL_SHARE_DIFFICULTY {
        if !has_bytes(buf, 1, 64) {
            return Decoded::NeedMore;
        }
        let share_target: [u8; 32] = array_at::<32>(buf, 1);
        let weak_block_target: [u8; 32] = array_at::<32>(buf, 33);
        Decoded::Complete(
            PoolMessage::ShareDifficulty {
                difficulty: PoolDifficulty { share_target, weak_block_target },
            },
            65,
        )
    } else if tag == POOL_SHARE {
        match read_share(buf, 1) {
            Decoded::Complete(share, next) => Decoded::Complete(PoolMessage::Share { share }, next),
            Decoded::NeedMore => Decoded::NeedMore,
            Decoded::Invalid => Decoded::Invalid,
        }
    } else if tag == POOL_WEAK_BLOCK {
        Decoded::NeedMore
    } else if tag == POOL_WEAK_BLOCK_STATE_RESET {
        Decoded::Complete(PoolMessage::WeakBlockStateReset {  }, 1)
    } else {
        Decoded::Invalid
    }
}

/// A message that was read in full ends inside the buffer.
pub proof fn lemma_parse_pool_in_bounds(buf: Seq<u8>)
    ensures
        parse_pool_message(buf) matches Parsed::Complete { next, .. } ==> 0 < next <= buf.len(),
{
    if buf.len() > 0 && buf[0] == POOL_PAYOUT_INFO && avail(buf, 1, 64) && avail(buf, 65, 10) {
        if let Parsed::Complete { next: after_postfix, .. } = parse_bytes8(
            buf,
            75,
            MAX_COINBASE_PREFIX as int,
        ) {
            if let Parsed::Complete { next: after_script, .. } = parse_bytes16(buf, after_postfix) {
                if avail(buf, after_script, 1) {
                    lemma_parse_txouts_in_bounds(buf, after_script + 1, buf[after_script] as nat);
                }
            }
        }
    }
}

// ---------------------------------------------------------------------
// The framer
// ---------------------------------------------------------------------

/// Writes the messages of the pool protocol to a byte buffer and reads
/// them from one.
pub struct PoolMsgFramer {}

impl PoolMsgFramer {
    pub fn new() -> PoolMsgFramer {
        PoolMsgFramer {  }
    }

    /// Appends `msg` to `res`. A message that breaks the bounds of the wire
    /// format, or that would not fit the buffer, is refused and `res` is
    /// left as it was.
    pub fn encode(&mut self, msg: PoolMessage, res: &mut BytesMut) -> (r: Result<(), CodecError>)
        ensures
            r is Ok <==> msg@.encodable() && buffer_bytes(*old(res)).len() + msg@.encoding().len()
                <= usize::MAX,
            r is Ok ==> buffer_bytes(*final(res)) == buffer_bytes(*old(res)) + msg@.encoding(),
            r is Err ==> buffer_bytes(*final(res)) == buffer_bytes(*old(res)),
    {
        if !msg.is_encodable() {
            return Err(CodecError);
        }
        let bytes: Vec<u8> = msg.to_bytes();
        let held: usize = buffer_as_slice(res).len();
        if bytes.len() > usize::MAX - held {
            return Err(CodecError);
        }
        buffer_extend(res, bytes.as_slice());
        Ok(())
    }

    /// Takes one message from the front of `bytes`. Where the buffer holds
    /// a whole message, the message is handed out and its bytes are dropped
    /// from the buffer; where it holds only the beginning of one, or what
    /// cannot be a message, the buffer is left as it was.
    pub fn decode(&mut self, bytes: &mut BytesMut) -> (r: Result<Option<PoolMessage>, CodecError>)
        ensures
            match parse_pool_message(buffer_bytes(*old(bytes))) {
                Parsed::Complete { value, next } => r matches Ok(Some(msg)) && msg@ == value
                    && buffer_bytes(*final(bytes)) == buffer_bytes(*old(bytes)).skip(next),
                Parsed::NeedMore => r == Ok::<Option<PoolMessage>, CodecError>(None)
                    && buffer_bytes(*final(bytes)) == buffer_bytes(*old(bytes)),
                Parsed::Invalid => r is Err && buffer_bytes(*final(bytes)) == buffer_bytes(
                    *old(bytes),
                ),
            },
    {
        match read_pool_message(buffer_as_slice(bytes)) {
            Decoded::Complete(msg, next) => {
                proof {
                    lemma_parse_pool_in_bounds(buffer_bytes(*bytes));
                }
                buffer_advance(bytes, next);
                Ok(Some(msg))
            },
            Decoded::NeedMore => Ok(None),
            Decoded::Invalid => Err(CodecError),
        }
    }
}

} // verus!
