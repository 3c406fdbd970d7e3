//! The rules by which a pool tells its clients apart and checks the shares
//! they send: which client a coinbase belongs to, whom a coinbase pays, and
//! which block a share stands for.
use crate::keys::{bytes_equal, sha256, sha256_digest, HASH_INPUT_LIMIT};
use crate::payload::{TxOut, TxOutView};
use crate::pool::{PoolShare, PoolShareView};
use crate::target::{does_hash_meet_target, meets_target};
use crate::wire::{
    lemma_u32_round_trip, lemma_u64_round_trip, put_bytes, put_le32, put_le64, slice_at, u32_le,
    u64_from_le, u64_le,
};
use vstd::prelude::*;

verus! {

pub use crate::wire::slice_to_le64;

/// The most bytes that a server id may hold.
pub const MAX_SERVER_ID: usize = 36;

/// Whether a client that speaks the versions from `min_version` to
/// `max_version` speaks version 1, the one that the pool speaks.
pub fn speaks_version_one(max_version: u16, min_version: u16) -> (ok: bool)
    ensures
        ok == (min_version <= 1 <= max_version),
{
    !(min_version > 1 || max_version < 1)
}

/// The target that a share has to meet: difficulty 65536.
pub fn share_target() -> (target: [u8; 32])
    ensures
        forall|i: int| 0 <= i < 32 ==> target@[i] == if i == 24 || i == 25 {
            0xffu8
        } else {
            0u8
        },
{
    let mut target = [0u8; 32];
    target[24] = 0xff;
    target[25] = 0xff;
    target
}

/// The eight bytes of `v`, least significant first.
pub fn le64_to_array(v: u64) -> (bytes: [u8; 8])
    ensures
        bytes@ == u64_le(v),
{
    let mut out: Vec<u8> = Vec::new();
    put_le64(&mut out, v);
    proof {
        lemma_u64_round_trip(v);
    }
    crate::wire::array_at::<8>(out.as_slice(), 0)
}

/// What a client is to put at the end of its coinbase: its id in eight
/// bytes, then the server's id.
pub open spec fn coinbase_postfix(client_id: u64, server_id: Seq<u8>) -> Seq<u8> {
    u64_le(client_id) + server_id
}

/// The client that a coinbase names: the eight bytes before the server's
/// id, if the coinbase ends with that id.
pub open spec fn client_of(coinbase: Seq<u8>, server_id: Seq<u8>) -> Option<u64> {
    let n = coinbase.len() as int;
    let s = server_id.len() as int;
    if n < s + 8 || coinbase.subrange(n - s, n) != server_id {
        None
    } else {
        Some(u64_from_le(coinbase.subrange(n - s - 8, n - s)))
    }
}

/// What a client is to put at the end of its coinbase.
pub fn client_coinbase_postfix(client_id: u64, server_id: &[u8]) -> (postfix: Vec<u8>)
    ensures
        postfix@ == coinbase_postfix(client_id, server_id@),
{
    let mut postfix: Vec<u8> = Vec::new();
    put_le64(&mut postfix, client_id);
    put_bytes(&mut postfix, server_id);
    postfix
}

/// The client that a coinbase names, if it ends as this server asks.
pub fn share_client_id(coinbase: &[u8], server_id: &[u8]) -> (client: Option<u64>)
    ensures
        client == client_of(coinbase@, server_id@),
{
    let n: usize = coinbase.len();
    let s: usize = server_id.len();
    if n < 8 || n - 8 < s {
        return None;
    }
    if !bytes_equal(slice_at(coinbase, n - s, s), server_id) {
        return None;
    }
    Some(slice_to_le64(slice_at(coinbase, n - s - 8, 8)))
}

/// A coinbase that ends with the postfix of a client names that client,
/// whatever stands before the postfix.
pub proof fn lemma_postfix_names_client(before: Seq<u8>, client_id: u64, server_id: Seq<u8>)
    ensures
        client_of(before + coinbase_postfix(client_id, server_id), server_id) == Some(client_id),
{
    lemma_u64_round_trip(client_id);
    let coinbase = before + coinbase_postfix(client_id, server_id);
    let n = coinbase.len() as int;
    let s = server_id.len() as int;
    assert(coinbase.subrange(n - s, n) =~= server_id);
    assert(coinbase.subrange(n - s - 8, n - s) =~= u64_le(client_id));
}

/// Whether a coinbase pays as the pool asks: its first output goes to the
/// pool's script, and no other output carries anything.
pub open spec fn pays_pool(outputs: Seq<TxOutView>, payout_script: Seq<u8>) -> bool {
    &&& outputs.len() >= 1
    &&& outputs[0].script_pubkey == payout_script
    &&& forall|i: int| 1 <= i < outputs.len() ==> (#[trigger] outputs[i]).value == 0
}

/// Whether a coinbase pays as the pool asks.
pub fn coinbase_pays_pool(outputs: &Vec<TxOut>, payout_script: &[u8]) -> (ok: bool)
    ensures
        ok == pays_pool(outputs.deep_view(), payout_script@),
{
    if outputs.len() < 1 {
        return false;
    }
    if !bytes_equal(outputs[0].script_pubkey.as_slice(), payout_script) {
        assert(outputs.deep_view()[0].script_pubkey == outputs@[0].script_pubkey@);
        return false;
    }
    assert(outputs.deep_view()[0].script_pubkey == outputs@[0].script_pubkey@);
    let mut i: usize = 1;
    while i < outputs.len()
        invariant
            1 <= i <= outputs.len(),
            forall|j: int| 1 <= j < i ==> (#[trigger] outputs.deep_view()[j]).value == 0,
        decreases outputs.len() - i,
    {
        if outputs[i].value != 0 {
            assert(outputs.deep_view()[i as int].value != 0);
            return false;
        }
        i += 1;
    }
    true
}

/// SHA-256 applied twice.
pub open spec fn sha256d(data: Seq<u8>) -> Seq<u8> {
    sha256_digest(sha256_digest(data))
}

/// SHA-256 applied twice.
pub fn double_sha256(data: &[u8]) -> (digest: [u8; 32])
    requires
        data@.len() < HASH_INPUT_LIMIT,
    ensures
        digest@ == sha256d(data@),
{
    let once: [u8; 32] = sha256(data);
    sha256(once.as_slice())
}

/// The Merkle root that the path `rhss` leads to from `leaf`: at each step
/// the node so far is hashed together with its right-hand partner.
pub open spec fn merkle_root_of(leaf: Seq<u8>, rhss: Seq<Seq<u8>>) -> Seq<u8>
    decreases rhss.len(),
{
    if rhss.len() == 0 {
        leaf
    } else {
        sha256d(merkle_root_of(leaf, rhss.drop_last()) + rhss.last())
    }
}

/// The Merkle root that the path `rhss` leads to from `leaf`.
pub fn merkle_root(leaf: [u8; 32], rhss: &Vec<[u8; 32]>) -> (root: [u8; 32])
    ensures
        root@ == merkle_root_of(leaf@, rhss.deep_view()),
{
    let ghost path = rhss.deep_view();
    proof {
        crate::payload::lemma_hashes_deep_view(*rhss);
    }
    let mut node: [u8; 32] = leaf;
    let mut i: usize = 0;
    assert(path.take(0) =~= Seq::empty());
    while i < rhss.len()
        invariant
            i <= rhss.len(),
            path == rhss.deep_view(),
            path == crate::payload::hashes_view(rhss@),
            node@ == merkle_root_of(leaf@, path.take(i as int)),
        decreases rhss.len() - i,
    {
        let mut both: Vec<u8> = Vec::new();
        put_bytes(&mut both, node.as_slice());
        put_bytes(&mut both, rhss[i].as_slice());
        proof {
            assert(path.take(i + 1).drop_last() =~= path.take(i as int));
            assert(path.take(i + 1).last() == rhss@[i as int]@);
            assert(both@ =~= node@ + rhss@[i as int]@);
        }
        node = double_sha256(both.as_slice());
        i += 1;
    }
    assert(path.take(i as int) =~= path);
    node
}

/// The 80 bytes of the block header that a share stands for.
pub open spec fn header_bytes(share: PoolShareView, merkle_root: Seq<u8>) -> Seq<u8> {
    u32_le(share.header_version) + share.header_prevblock + merkle_root + u32_le(
        share.header_time,
    ) + u32_le(share.header_nbits) + u32_le(share.header_nonce)
}

/// The hash of the block that a share stands for, given the id of its
/// coinbase transaction.
pub open spec fn share_hash(share: PoolShareView, coinbase_txid: Seq<u8>) -> Seq<u8> {
    sha256d(header_bytes(share, merkle_root_of(coinbase_txid, share.merkle_rhss)))
}

/// The hash of the block that a share stands for, given the id of its
/// coinbase transaction.
pub fn share_block_hash(share: &PoolShare, coinbase_txid: [u8; 32]) -> (hash: [u8; 32])
    ensures
        hash@ == share_hash(share@, coinbase_txid@),
{
    let root: [u8; 32] = merkle_root(coinbase_txid, &share.merkle_rhss);
    let mut header: Vec<u8> = Vec::new();
    put_le32(&mut header, share.header_version);
    put_bytes(&mut header, share.header_prevblock.as_slice());
    put_bytes(&mut header, root.as_slice());
    put_le32(&mut header, share.header_time);
    put_le32(&mut header, share.header_nbits);
    put_le32(&mut header, share.header_nonce);
    proof {
        lemma_u32_round_trip(share.header_version);
        lemma_u32_round_trip(share.header_time);
        lemma_u32_round_trip(share.header_nbits);
        lemma_u32_round_trip(share.header_nonce);
    }
    assert(header@ =~= header_bytes(share@, root@));
    double_sha256(header.as_slice())
}

/// What a pool makes of a share.
#[derive(Clone, Copy, Debug, PartialEq, Eq)]
pub enum ShareVerdict {
    /// The share is good, and this client found it.
    Valid { client_id: u64 },
    /// The coinbase has not exactly one input, or no output.
    BadCoinbase,
    /// The coinbase does not end as the pool asks.
    MissingPostfix,
    /// The coinbase does not pay as the pool asks.
    WrongPayout,
    /// The block's hash does not meet the share target.
    MissedTarget { client_id: u64 },
}

/// What a pool makes of a share, as the rules say: the coinbase must have
/// one input and pay the pool, its script must name the client, and the
/// block's hash must meet the target.
pub open spec fn verdict_on(
    share: PoolShareView,
    coinbase_txid: Seq<u8>,
    input_count: int,
    coinbase_script: Seq<u8>,
    outputs: Seq<TxOutView>,
    server_id: Seq<u8>,
    payout_script: Seq<u8>,
    target: Seq<u8>,
) -> ShareVerdict {
    if input_count != 1 || outputs.len() < 1 {
        ShareVerdict::BadCoinbase
    } else {
        match client_of(coinbase_script, server_id) {
            None => ShareVerdict::MissingPostfix,
            Some(client_id) => if !pays_pool(outputs, payout_script) {
                ShareVerdict::WrongPayout
            } else if meets_target(share_hash(share, coinbase_txid), target) {
                ShareVerdict::Valid { client_id }
            } else {
                ShareVerdict::MissedTarget { client_id }
            },
        }
    }
}

/// Judges a share. `coinbase_txid`, `input_count`, `coinbase_script` and
/// `outputs` are what the share's coinbase transaction decodes to: its id,
/// the number of its inputs, the script of its first input and its outputs.
pub fn check_share(
    share: &PoolShare,
    coinbase_txid: [u8; 32],
    input_count: usize,
    coinbase_script: &[u8],
    outputs: &Vec<TxOut>,
    server_id: &[u8],
    payout_script: &[u8],
    target: &[u8; 32],
) -> (verdict: ShareVerdict)
    ensures
        verdict == verdict_on(
            share@,
            coinbase_txid@,
            input_count as int,
            coinbase_script@,
            outputs.deep_view(),
            server_id@,
            payout_script@,
            target@,
        ),
{
    if input_count != 1 || outputs.len() < 1 {
        return ShareVerdict::BadCoinbase;
    }
    let client_id: u64 = match share_client_id(coinbase_script, server_id) {
        Some(id) => id,
        None => {
            return ShareVerdict::MissingPostfix;
        },
    };
    if !coinbase_pays_pool(outputs, payout_script) {
        return ShareVerdict::WrongPayout;
    }
    let hash: [u8; 32] = share_block_hash(share, coinbase_txid);
    if does_hash_meet_target(hash.as_slice(), target.as_slice()) {
        ShareVerdict::Valid { client_id }
    } else {
        ShareVerdict::MissedTarget { client_id }
    }
}

} // verus!
