//! What holds of the wire format of a weak block's sketch: every step shows
//! in the bytes, so that sketches with different steps are written
//! differently.
use crate::payload::encode_tx;
use crate::pool::{
    actions_encodable, actions_pending, encode_actions, encode_pending, WeakBlockActionView,
    WeakBlockView,
};
use crate::wire::{lemma_same_parts, lemma_u32_round_trip, lemma_u64_round_trip, u32_le, u64_le};
use vstd::prelude::*;

verus! {

/// Whether `pending` is something that can wait to be written: the codes of
/// no, one, two or three steps that take a transaction of the earlier
/// sketch.
pub open spec fn waiting_codes(pending: nat) -> bool {
    pending == 0 || pending == 2 || pending == 10 || pending == 42
}

/// The bytes that `actions` add to a sketch in whose last byte the codes
/// `pending` wait: the same bytes as `encode_actions` and `encode_pending`
/// give, told from the first step on.
pub open spec fn encode_steps_from(actions: Seq<WeakBlockActionView>, pending: nat) -> Seq<u8>
    decreases actions.len(),
{
    if actions.len() == 0 {
        if pending == 0 {
            Seq::empty()
        } else {
            seq![pending as u8]
        }
    } else {
        let packed = (4 * pending + actions.first().code()) as u8;
        let rest = actions.drop_first();
        match actions.first() {
            WeakBlockActionView::SkipN { n } => seq![packed, n] + encode_steps_from(rest, 0),
            WeakBlockActionView::IncludeTx => if packed >= 64 {
                seq![packed] + encode_steps_from(rest, 0)
            } else {
                encode_steps_from(rest, packed as nat)
            },
            WeakBlockActionView::NewTx { tx } => seq![packed] + encode_tx(tx) + encode_steps_from(
                rest,
                0,
            ),
        }
    }
}

/// What waits after any steps is the codes of at most three steps that
/// take a transaction of the earlier sketch.
pub proof fn lemma_pending_is_waiting_codes(actions: Seq<WeakBlockActionView>)
    ensures
        waiting_codes(actions_pending(actions)),
    decreases actions.len(),
{
    if actions.len() > 0 {
        lemma_pending_is_waiting_codes(actions.drop_last());
    }
}

/// The bytes of a sketch's steps can be told from the first step on: what
/// `front` and then `rest` are written as is what `front` is written as,
/// then what `rest` adds to it.
pub proof fn lemma_steps_from_front(
    front: Seq<WeakBlockActionView>,
    rest: Seq<WeakBlockActionView>,
)
    ensures
        encode_actions(front + rest) + encode_pending(front + rest) == encode_actions(front)
            + encode_steps_from(rest, actions_pending(front)),
    decreases rest.len(),
{
    lemma_pending_is_waiting_codes(front);
    if rest.len() == 0 {
        assert(front + rest =~= front);
    } else {
        let step = rest.first();
        let longer = front.push(step);
        let tail = rest.drop_first();
        assert(front + rest =~= longer + tail);
        assert(longer.drop_last() =~= front);
        assert(longer.last() == step);
        lemma_steps_from_front(longer, tail);
        let pending = actions_pending(front);
        let packed = (4 * pending + step.code()) as u8;
        let after = encode_steps_from(tail, actions_pending(longer));
        match step {
            WeakBlockActionView::SkipN { n } => {
                assert(encode_actions(longer) + after =~= encode_actions(front) + (seq![packed, n]
                    + after));
            },
            WeakBlockActionView::IncludeTx => {
                if packed >= 64 {
                    assert(encode_actions(longer) + after =~= encode_actions(front) + (seq![packed]
                        + after));
                }
            },
            WeakBlockActionView::NewTx { tx } => {
                assert(encode_actions(longer) + after =~= encode_actions(front) + (seq![packed]
                    + encode_tx(tx) + after));
            },
        }
    }
}

/// Where codes wait, what follows starts with a byte that is either those
/// codes alone or holds at least one code more.
proof fn lemma_steps_first_byte(actions: Seq<WeakBlockActionView>, pending: nat)
    requires
        pending == 2 || pending == 10 || pending == 42,
    ensures
        encode_steps_from(actions, pending).len() >= 1,
        encode_steps_from(actions, pending)[0] == pending || encode_steps_from(actions, pending)[0]
            >= 4 * pending + 1,
    decreases actions.len(),
{
    if actions.len() > 0 && actions.first() is IncludeTx && pending < 42 {
        lemma_steps_first_byte(actions.drop_first(), 4 * pending + 2);
    }
}

/// The first byte that steps add tells the kind of the first step, and is
/// more than the codes that waited.
proof fn lemma_step_head(actions: Seq<WeakBlockActionView>, pending: nat)
    requires
        actions.len() > 0,
        waiting_codes(pending),
    ensures
        encode_steps_from(actions, pending).len() >= 1,
        encode_steps_from(actions, pending)[0] > pending,
        match actions.first() {
            WeakBlockActionView::SkipN { .. } => encode_steps_from(actions, pending)[0] == 4
                * pending + 1,
            WeakBlockActionView::IncludeTx => encode_steps_from(actions, pending)[0] == 4 * pending
                + 2 || encode_steps_from(actions, pending)[0] >= 16 * pending + 9,
            WeakBlockActionView::NewTx { .. } => encode_steps_from(actions, pending)[0] == 4
                * pending + 3,
        },
{
    if actions.first() is IncludeTx && pending < 42 {
        lemma_steps_first_byte(actions.drop_first(), 4 * pending + 2);
    }
}

/// Steps that add the same bytes to the same waiting codes are the same
/// steps.
pub proof fn lemma_steps_show(
    a: Seq<WeakBlockActionView>,
    b: Seq<WeakBlockActionView>,
    pending: nat,
)
    requires
        actions_encodable(a),
        actions_encodable(b),
        waiting_codes(pending),
        encode_steps_from(a, pending) == encode_steps_from(b, pending),
    ensures
        a == b,
    decreases a.len(),
{
    if a.len() == 0 {
        if b.len() > 0 {
            lemma_step_head(b, pending);
        }
        assert(a =~= b);
    } else if b.len() == 0 {
        lemma_step_head(a, pending);
    } else {
        lemma_step_head(a, pending);
        lemma_step_head(b, pending);
        let ra = a.drop_first();
        let rb = b.drop_first();
        assert(actions_encodable(ra)) by {
            assert forall|i: int| 0 <= i < ra.len() implies (#[trigger] ra[i]).encodable() by {
                assert(ra[i] == a[i + 1]);
            }
        }
        assert(actions_encodable(rb)) by {
            assert forall|i: int| 0 <= i < rb.len() implies (#[trigger] rb[i]).encodable() by {
                assert(rb[i] == b[i + 1]);
            }
        }
        assert(a[0].encodable() && b[0].encodable());
        match a.first() {
            WeakBlockActionView::SkipN { n } => {
                let m = b.first()->SkipN_n;
                let packed = (4 * pending + 1) as u8;
                let sa = encode_steps_from(ra, 0);
                let sb = encode_steps_from(rb, 0);
                lemma_same_parts(seq![packed, n], sa, seq![packed, m], sb);
                assert(seq![packed, n][1] == seq![packed, m][1]);
                lemma_steps_show(ra, rb, 0);
            },
            WeakBlockActionView::IncludeTx => {
                let packed = (4 * pending + 2) as u8;
                if packed >= 64 {
                    let sa = encode_steps_from(ra, 0);
                    let sb = encode_steps_from(rb, 0);
                    lemma_same_parts(seq![packed], sa, seq![packed], sb);
                    lemma_steps_show(ra, rb, 0);
                } else {
                    lemma_steps_show(ra, rb, packed as nat);
                }
            },
            WeakBlockActionView::NewTx { tx } => {
                let other = b.first()->NewTx_tx;
                let packed = (4 * pending + 3) as u8;
                let sa = encode_steps_from(ra, 0);
                let sb = encode_steps_from(rb, 0);
                let la = u32_le(tx.len() as u32);
                let lb = u32_le(other.len() as u32);
                lemma_u32_round_trip(tx.len() as u32);
                lemma_u32_round_trip(other.len() as u32);
                assert(encode_steps_from(a, pending) =~= seq![packed] + (la + (tx + sa)));
                assert(encode_steps_from(b, pending) =~= seq![packed] + (lb + (other + sb)));
                lemma_same_parts(seq![packed], la + (tx + sa), seq![packed], lb + (other + sb));
                lemma_same_parts(la, tx + sa, lb, other + sb);
                lemma_same_parts(tx, sa, other, sb);
                lemma_steps_show(ra, rb, 0);
            },
        }
        assert(a =~= seq![a.first()] + ra);
        assert(b =~= seq![b.first()] + rb);
    }
}

/// The steps of two sketches whose steps are written the same are the
/// same.
pub proof fn lemma_written_steps_show(a: Seq<WeakBlockActionView>, b: Seq<WeakBlockActionView>)
    requires
        actions_encodable(a),
        actions_encodable(b),
        encode_actions(a) + encode_pending(a) == encode_actions(b) + encode_pending(b),
    ensures
        a == b,
{
    let none = Seq::<WeakBlockActionView>::empty();
    lemma_steps_from_front(none, a);
    lemma_steps_from_front(none, b);
    assert(none + a =~= a);
    assert(none + b =~= b);
    assert(encode_actions(none) + encode_steps_from(a, 0) =~= encode_steps_from(a, 0));
    assert(encode_actions(none) + encode_steps_from(b, 0) =~= encode_steps_from(b, 0));
    lemma_steps_show(a, b, 0);
}

/// Sketches with the same fixed fields and different steps are written
/// differently: no step, be it the last, is left out of the bytes.
pub proof fn lemma_sketch_steps_show(a: WeakBlockView, b: WeakBlockView)
    requires
        a.encodable(),
        b.encodable(),
        a.header_version == b.header_version,
        a.header_prevblock == b.header_prevblock,
        a.header_time == b.header_time,
        a.header_nbits == b.header_nbits,
        a.header_nonce == b.header_nonce,
        a.sketch_id == b.sketch_id,
        a.prev_sketch_id == b.prev_sketch_id,
        a.txn != b.txn,
    ensures
        a.encoding() != b.encoding(),
{
    if a.encoding() == b.encoding() {
        let sa = encode_actions(a.txn) + encode_pending(a.txn);
        let sb = encode_actions(b.txn) + encode_pending(b.txn);
        assert(a.encoding() =~= a.header() + sa);
        assert(b.encoding() =~= b.header() + sb);
        lemma_same_parts(a.header(), sa, b.header(), sb);
        lemma_written_steps_show(a.txn, b.txn);
    }
}

/// A sketch can be told from its bytes: two sketches that are written the
/// same are the same, in their fixed fields and in every step.
pub proof fn lemma_sketch_encoding_unique(a: WeakBlockView, b: WeakBlockView)
    requires
        a.encodable(),
        b.encodable(),
        a.encoding() == b.encoding(),
    ensures
        a == b,
{
    lemma_u32_round_trip(a.header_version);
    lemma_u32_round_trip(b.header_version);
    lemma_u32_round_trip(a.header_time);
    lemma_u32_round_trip(b.header_time);
    lemma_u32_round_trip(a.header_nbits);
    lemma_u32_round_trip(b.header_nbits);
    lemma_u32_round_trip(a.header_nonce);
    lemma_u32_round_trip(b.header_nonce);
    lemma_u64_round_trip(a.sketch_id);
    lemma_u64_round_trip(b.sketch_id);
    lemma_u64_round_trip(a.prev_sketch_id);
    lemma_u64_round_trip(b.prev_sketch_id);
    let sa = encode_actions(a.txn) + encode_pending(a.txn);
    let sb = encode_actions(b.txn) + encode_pending(b.txn);
    assert(a.encoding() =~= a.header() + sa);
    assert(b.encoding() =~= b.header() + sb);
    lemma_same_parts(a.header(), sa, b.header(), sb);
    lemma_written_steps_show(a.txn, b.txn);
    let a0 = u32_le(a.header_version);
    let a1 = a0 + a.header_prevblock;
    let a2 = a1 + u32_le(a.header_time);
    let a3 = a2 + u32_le(a.header_nbits);
    let a4 = a3 + u32_le(a.header_nonce);
    let a5 = a4 + u64_le(a.sketch_id);
    let b0 = u32_le(b.header_version);
    let b1 = b0 + b.header_prevblock;
    let b2 = b1 + u32_le(b.header_time);
    let b3 = b2 + u32_le(b.header_nbits);
    let b4 = b3 + u32_le(b.header_nonce);
    let b5 = b4 + u64_le(b.sketch_id);
    lemma_same_parts(a5, u64_le(a.prev_sketch_id), b5, u64_le(b.prev_sketch_id));
    lemma_same_parts(a4, u64_le(a.sketch_id), b4, u64_le(b.sketch_id));
    lemma_same_parts(a3, u32_le(a.header_nonce), b3, u32_le(b.header_nonce));
    lemma_same_parts(a2, u32_le(a.header_nbits), b2, u32_le(b.header_nbits));
    lemma_same_parts(a1, u32_le(a.header_time), b1, u32_le(b.header_time));
    lemma_same_parts(a0, a.header_prevblock, b0, b.header_prevblock);
}

} // verus!
