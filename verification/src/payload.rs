//! The pieces that several messages are made of: length-prefixed byte
//! strings, transaction outputs, raw transactions and lists of hashes.
use crate::wire::{
    agrees, array_at, avail, bytes_at, expected, has_bytes, lemma_agrees_first, lemma_agrees_split,
    lemma_agrees_whole, lemma_array_deep_view, lemma_bytes_deep_view, lemma_bytes_stand,
    lemma_stands_join, lemma_u16_round_trip, lemma_u16_stands, lemma_u32_round_trip,
    lemma_u32_stands, lemma_u64_round_trip, lemma_u64_stands, put_bytes, put_le16, put_le32,
    put_le64, read_le16, read_le32, read_le64, stands, u16_at, u16_le, u32_at, u32_le, u64_at,
    u64_le, vec_at, yields, Decoded, Parsed,
};
use vstd::prelude::*;

verus! {

/// One output of a transaction: an amount in satoshi and the script that
/// locks it.
#[derive(Clone, Debug, PartialEq, Eq)]
pub struct TxOut {
    pub value: u64,
    pub script_pubkey: Vec<u8>,
}

/// A `TxOut` as a mathematical value.
pub struct TxOutView {
    pub value: u64,
    pub script_pubkey: Seq<u8>,
}

impl View for TxOut {
    type V = TxOutView;

    open spec fn view(&self) -> TxOutView {
        TxOutView { value: self.value, script_pubkey: self.script_pubkey@ }
    }
}

impl DeepView for TxOut {
    type V = TxOutView;

    open spec fn deep_view(&self) -> TxOutView {
        self@
    }
}

/// A transaction in its consensus serialisation.
#[derive(Clone, Debug, PartialEq, Eq)]
pub struct Transaction {
    pub raw: Vec<u8>,
}

impl View for Transaction {
    type V = Seq<u8>;

    open spec fn view(&self) -> Seq<u8> {
        self.raw@
    }
}

impl DeepView for Transaction {
    type V = Seq<u8>;

    open spec fn deep_view(&self) -> Seq<u8> {
        self@
    }
}

/// Whether `raw` starts with the consensus serialisation of a transaction.
pub uninterp spec fn transaction_parses(raw: Seq<u8>) -> bool;

/// `deserialize` of bitcoin's `network::serialize`, asked for a
/// `Transaction`: whether the bytes decode as one.
#[verifier::external_body]
pub(crate) fn bitcoin_transaction_parses(raw: &[u8]) -> (ok: bool)
    ensures
        ok == transaction_parses(raw@),
{
    bitcoin::network::serialize::deserialize::<bitcoin::blockdata::transaction::Transaction>(raw)
        .is_ok()
}

impl TxOut {
    /// A copy of this output.
    pub fn duplicate(&self) -> (copy: TxOut)
        ensures
            copy@ == self@,
    {
        TxOut { value: self.value, script_pubkey: self.script_pubkey.clone() }
    }
}

impl Transaction {
    /// The transaction that `raw` serialises, if it is one.
    pub fn from_raw(raw: Vec<u8>) -> (tx: Option<Transaction>)
        ensures
            tx is Some <==> transaction_parses(raw@),
            tx is Some ==> tx.unwrap()@ == raw@,
    {
        if bitcoin_transaction_parses(raw.as_slice()) {
            Some(Transaction { raw })
        } else {
            None
        }
    }

    /// A copy of this transaction.
    pub fn duplicate(&self) -> (copy: Transaction)
        ensures
            copy@ == self@,
    {
        Transaction { raw: self.raw.clone() }
    }
}

/// A copy of a list of outputs.
pub fn duplicate_outputs(outs: &Vec<TxOut>) -> (copy: Vec<TxOut>)
    ensures
        copy.deep_view() == outs.deep_view(),
{
    let mut copy: Vec<TxOut> = Vec::new();
    let mut i: usize = 0;
    while i < outs.len()
        invariant
            i <= outs.len(),
            copy.len() == i,
            forall|j: int| 0 <= j < i ==> copy@[j]@ == outs@[j]@,
        decreases outs.len() - i,
    {
        copy.push(outs[i].duplicate());
        i += 1;
    }
    assert(copy.deep_view() =~= outs.deep_view());
    copy
}

/// A copy of a list of hashes.
pub fn duplicate_hashes(hashes: &Vec<[u8; 32]>) -> (copy: Vec<[u8; 32]>)
    ensures
        copy@ == hashes@,
{
    let mut copy: Vec<[u8; 32]> = Vec::new();
    let mut i: usize = 0;
    while i < hashes.len()
        invariant
            i <= hashes.len(),
            copy.len() == i,
            forall|j: int| 0 <= j < i ==> copy@[j] == hashes@[j],
        decreases hashes.len() - i,
    {
        copy.push(hashes[i]);
        i += 1;
    }
    assert(copy@ =~= hashes@);
    copy
}

// ---------------------------------------------------------------------
// Byte strings behind a one-byte length
// ---------------------------------------------------------------------

/// A byte string behind its length in one byte.
pub open spec fn encode_bytes8(b: Seq<u8>) -> Seq<u8> {
    seq![b.len() as u8] + b
}

/// Reads a byte string behind its one-byte length, which may be at most
/// `max`.
pub open spec fn parse_bytes8(buf: Seq<u8>, pos: int, max: int) -> Parsed<Seq<u8>> {
    if !avail(buf, pos, 1) {
        Parsed::NeedMore
    } else if buf[pos] > max {
        Parsed::Invalid
    } else if !avail(buf, pos + 1, buf[pos] as int) {
        Parsed::NeedMore
    } else {
        Parsed::Complete {
            value: bytes_at(buf, pos + 1, buf[pos] as int),
            next: pos + 1 + buf[pos],
        }
    }
}

/// A string of at most `max` bytes reads back from wherever its encoding
/// stands, and a cut-off encoding asks for more.
pub proof fn lemma_parse_bytes8(buf: Seq<u8>, pos: int, max: int, b: Seq<u8>)
    requires
        b.len() <= max <= 255,
        agrees(buf, pos, encode_bytes8(b)),
    ensures
        parse_bytes8(buf, pos, max) == expected(buf, pos, encode_bytes8(b), b),
{
    let enc = encode_bytes8(b);
    lemma_agrees_split(buf, pos, seq![b.len() as u8], b);
    if avail(buf, pos, 1) {
        lemma_agrees_first(buf, pos, enc);
        if avail(buf, pos + 1, b.len() as int) {
            lemma_agrees_whole(buf, pos + 1, b);
        }
    }
}

/// Appends `b` behind its one-byte length.
pub fn write_bytes8(out: &mut Vec<u8>, b: &[u8])
    requires
        b@.len() <= 255,
    ensures
        final(out)@ == old(out)@ + encode_bytes8(b@),
{
    let n: usize = b.len();
    out.push(n as u8);
    put_bytes(out, b);
    assert(out@ =~= old(out)@ + encode_bytes8(b@));
}

/// Reads a byte string behind its one-byte length, which may be at most
/// `max`.
pub fn read_bytes8(buf: &[u8], pos: usize, max: u8) -> (d: Decoded<Vec<u8>>)
    ensures
        yields(d, parse_bytes8(buf@, pos as int, max as int)),
{
    if !has_bytes(buf, pos, 1) {
        return Decoded::NeedMore;
    }
    let n: u8 = buf[pos];
    if n > max {
        return Decoded::Invalid;
    }
    if !has_bytes(buf, pos + 1, n as usize) {
        return Decoded::NeedMore;
    }
    let value: Vec<u8> = vec_at(buf, pos + 1, n as usize);
    proof {
        lemma_bytes_deep_view(value);
    }
    Decoded::Complete(value, pos + 1 + n as usize)
}

// ---------------------------------------------------------------------
// Byte strings behind a two-byte length
// ---------------------------------------------------------------------

/// A byte string behind its length in two bytes.
pub open spec fn encode_bytes16(b: Seq<u8>) -> Seq<u8> {
    u16_le(b.len() as u16) + b
}

/// Reads a byte string behind its two-byte length.
pub open spec fn parse_bytes16(buf: Seq<u8>, pos: int) -> Parsed<Seq<u8>> {
    if !avail(buf, pos, 2) {
        Parsed::NeedMore
    } else if !avail(buf, pos + 2, u16_at(buf, pos) as int) {
        Parsed::NeedMore
    } else {
        Parsed::Complete {
            value: bytes_at(buf, pos + 2, u16_at(buf, pos) as int),
            next: pos + 2 + u16_at(buf, pos),
        }
    }
}

/// A string of at most 65535 bytes reads back from wherever its encoding
/// stands, and a cut-off encoding asks for more.
pub proof fn lemma_parse_bytes16(buf: Seq<u8>, pos: int, b: Seq<u8>)
    requires
        b.len() <= 0xffff,
        agrees(buf, pos, encode_bytes16(b)),
    ensures
        parse_bytes16(buf, pos) == expected(buf, pos, encode_bytes16(b), b),
{
    let n = b.len() as u16;
    lemma_u16_round_trip(n);
    lemma_agrees_split(buf, pos, u16_le(n), b);
    if avail(buf, pos, 2) {
        lemma_agrees_whole(buf, pos, u16_le(n));
        if avail(buf, pos + 2, b.len() as int) {
            lemma_agrees_whole(buf, pos + 2, b);
        }
    }
}

/// Appends `b` behind its two-byte length.
pub fn write_bytes16(out: &mut Vec<u8>, b: &[u8])
    requires
        b@.len() <= 0xffff,
    ensures
        final(out)@ == old(out)@ + encode_bytes16(b@),
{
    let n: usize = b.len();
    put_le16(out, n as u16);
    put_bytes(out, b);
    assert(out@ =~= old(out)@ + encode_bytes16(b@));
}

/// Reads a byte string behind its two-byte length.
pub fn read_bytes16(buf: &[u8], pos: usize) -> (d: Decoded<Vec<u8>>)
    ensures
        yields(d, parse_bytes16(buf@, pos as int)),
{
    if !has_bytes(buf, pos, 2) {
        return Decoded::NeedMore;
    }
    let n: u16 = read_le16(buf, pos);
    if !has_bytes(buf, pos + 2, n as usize) {
        return Decoded::NeedMore;
    }
    let value: Vec<u8> = vec_at(buf, pos + 2, n as usize);
    proof {
        lemma_bytes_deep_view(value);
    }
    Decoded::Complete(value, pos + 2 + n as usize)
}

// ---------------------------------------------------------------------
// Transaction outputs
// ---------------------------------------------------------------------

/// Whether an output can be written: its script's length fits two bytes.
pub open spec fn txout_encodable(o: TxOutView) -> bool {
    o.script_pubkey.len() <= 0xffff
}

/// Whether every output of a list can be written.
pub open spec fn txouts_encodable(outs: Seq<TxOutView>) -> bool {
    forall|i: int| 0 <= i < outs.len() ==> txout_encodable(#[trigger] outs[i])
}

/// An output on the wire: the amount, then the script behind its length.
pub open spec fn encode_txout(o: TxOutView) -> Seq<u8> {
    u64_le(o.value) + encode_bytes16(o.script_pubkey)
}

/// Outputs on the wire, one behind the other.
pub open spec fn encode_txouts(outs: Seq<TxOutView>) -> Seq<u8>
    decreases outs.len(),
{
    if outs.len() == 0 {
        Seq::empty()
    } else {
        encode_txouts(outs.drop_last()) + encode_txout(outs.last())
    }
}

/// Outputs on the wire behind their number in one byte.
pub open spec fn encode_txout_list(outs: Seq<TxOutView>) -> Seq<u8> {
    seq![outs.len() as u8] + encode_txouts(outs)
}

/// Reads one output.
pub open spec fn parse_txout(buf: Seq<u8>, pos: int) -> Parsed<TxOutView> {
    if !avail(buf, pos, 8) {
        Parsed::NeedMore
    } else {
        match parse_bytes16(buf, pos + 8) {
            Parsed::Complete { value, next } => Parsed::Complete {
                value: TxOutView { value: u64_at(buf, pos), script_pubkey: value },
                next,
            },
            Parsed::NeedMore => Parsed::NeedMore,
            Parsed::Invalid => Parsed::Invalid,
        }
    }
}

/// Reads `n` outputs, one behind the other.
pub open spec fn parse_txouts(buf: Seq<u8>, pos: int, n: nat) -> Parsed<Seq<TxOutView>>
    decreases n,
{
    if n == 0 {
        Parsed::Complete { value: Seq::empty(), next: pos }
    } else {
        match parse_txouts(buf, pos, (n - 1) as nat) {
            Parsed::Complete { value, next } => match parse_txout(buf, next) {
                Parsed::Complete { value: last, next: end } => Parsed::Complete {
                    value: value.push(last),
                    next: end,
                },
                Parsed::NeedMore => Parsed::NeedMore,
                Parsed::Invalid => Parsed::Invalid,
            },
            Parsed::NeedMore => Parsed::NeedMore,
            Parsed::Invalid => Parsed::Invalid,
        }
    }
}

/// Reads outputs behind their number in one byte.
pub open spec fn parse_txout_list(buf: Seq<u8>, pos: int) -> Parsed<Seq<TxOutView>> {
    if !avail(buf, pos, 1) {
        Parsed::NeedMore
    } else {
        parse_txouts(buf, pos + 1, buf[pos] as nat)
    }
}

/// An output reads back from wherever its encoding stands, and a cut-off
/// encoding asks for more.
pub proof fn lemma_parse_txout(buf: Seq<u8>, pos: int, o: TxOutView)
    requires
        txout_encodable(o),
        agrees(buf, pos, encode_txout(o)),
    ensures
        parse_txout(buf, pos) == expected(buf, pos, encode_txout(o), o),
{
    lemma_u64_round_trip(o.value);
    lemma_agrees_split(buf, pos, u64_le(o.value), encode_bytes16(o.script_pubkey));
    if avail(buf, pos, 8) {
        lemma_agrees_whole(buf, pos, u64_le(o.value));
        lemma_parse_bytes16(buf, pos + 8, o.script_pubkey);
    }
}

/// Once reading a list has stopped short, asking for more of it stops in
/// the same way.
pub proof fn lemma_parse_txouts_stuck(buf: Seq<u8>, pos: int, i: nat, n: nat)
    requires
        i <= n,
        !(parse_txouts(buf, pos, i) is Complete),
    ensures
        parse_txouts(buf, pos, n) == parse_txouts(buf, pos, i),
    decreases n,
{
    if i < n {
        lemma_parse_txouts_stuck(buf, pos, i, (n - 1) as nat);
    }
}

/// A list of outputs reads back from wherever its encoding stands, and a
/// cut-off encoding asks for more.
pub proof fn lemma_parse_txouts(buf: Seq<u8>, pos: int, outs: Seq<TxOutView>)
    requires
        txouts_encodable(outs),
        agrees(buf, pos, encode_txouts(outs)),
        0 <= pos <= buf.len(),
    ensures
        parse_txouts(buf, pos, outs.len()) == expected(buf, pos, encode_txouts(outs), outs),
    decreases outs.len(),
{
    if outs.len() == 0 {
        assert(outs =~= Seq::empty());
    } else {
        let front = outs.drop_last();
        let last = outs.last();
        let head = encode_txouts(front);
        let tail = encode_txout(last);
        assert(encode_txouts(outs) == head + tail);
        assert(txouts_encodable(front)) by {
            assert forall|i: int| 0 <= i < front.len() implies txout_encodable(
                #[trigger] front[i],
            ) by {
                assert(front[i] == outs[i]);
            }
        }
        assert(txout_encodable(last));
        lemma_agrees_split(buf, pos, head, tail);
        lemma_parse_txouts(buf, pos, front);
        let n = outs.len();
        assert(front.len() == n - 1);
        if pos + head.len() <= buf.len() {
            assert(parse_txouts(buf, pos, (n - 1) as nat) == (Parsed::Complete {
                value: front,
                next: pos + head.len(),
            }));
            lemma_parse_txout(buf, pos + head.len(), last);
            assert(front.push(last) =~= outs);
            if pos + head.len() + tail.len() <= buf.len() {
                assert(parse_txout(buf, pos + head.len()) == (Parsed::Complete {
                    value: last,
                    next: pos + head.len() + tail.len(),
                }));
                assert(parse_txouts(buf, pos, n) == (Parsed::Complete {
                    value: outs,
                    next: pos + head.len() + tail.len(),
                }));
            } else {
                assert(parse_txout(buf, pos + head.len()) == Parsed::<TxOutView>::NeedMore);
                assert(parse_txouts(buf, pos, n) == Parsed::<Seq<TxOutView>>::NeedMore);
            }
        } else {
            assert(parse_txouts(buf, pos, (n - 1) as nat) == Parsed::<Seq<TxOutView>>::NeedMore);
        }
    }
}

/// A list of at most 255 outputs reads back from behind its count.
pub proof fn lemma_parse_txout_list(buf: Seq<u8>, pos: int, outs: Seq<TxOutView>)
    requires
        outs.len() <= 255,
        txouts_encodable(outs),
        agrees(buf, pos, encode_txout_list(outs)),
    ensures
        parse_txout_list(buf, pos) == expected(buf, pos, encode_txout_list(outs), outs),
{
    lemma_agrees_split(buf, pos, seq![outs.len() as u8], encode_txouts(outs));
    if avail(buf, pos, 1) {
        lemma_agrees_first(buf, pos, encode_txout_list(outs));
        lemma_parse_txouts(buf, pos + 1, outs);
    }
}

impl TxOut {
    /// Whether this output can be written.
    pub fn is_encodable(&self) -> (ok: bool)
        ensures
            ok == txout_encodable(self@),
    {
        self.script_pubkey.len() <= 0xffff
    }

    /// Appends this output to `out`.
    pub fn write_to(&self, out: &mut Vec<u8>)
        requires
            txout_encodable(self@),
        ensures
            final(out)@ == old(out)@ + encode_txout(self@),
    {
        put_le64(out, self.value);
        write_bytes16(out, self.script_pubkey.as_slice());
        assert(out@ =~= old(out)@ + encode_txout(self@));
    }
}

/// Whether every output of `outs` can be written.
pub fn outputs_encodable(outs: &Vec<TxOut>) -> (ok: bool)
    ensures
        ok == txouts_encodable(outs.deep_view()),
{
    let mut i: usize = 0;
    while i < outs.len()
        invariant
            i <= outs.len(),
            forall|j: int| 0 <= j < i ==> txout_encodable(#[trigger] outs.deep_view()[j]),
        decreases outs.len() - i,
    {
        if !outs[i].is_encodable() {
            assert(!txout_encodable(outs.deep_view()[i as int]));
            return false;
        }
        i += 1;
    }
    true
}

/// Appends the outputs to `out`, one behind the other.
pub fn write_txouts(out: &mut Vec<u8>, outs: &Vec<TxOut>)
    requires
        txouts_encodable(outs.deep_view()),
    ensures
        final(out)@ == old(out)@ + encode_txouts(outs.deep_view()),
{
    let ghost all = outs.deep_view();
    let mut i: usize = 0;
    assert(all.take(0) =~= Seq::empty());
    while i < outs.len()
        invariant
            i <= outs.len(),
            all == outs.deep_view(),
            txouts_encodable(all),
            out@ == old(out)@ + encode_txouts(all.take(i as int)),
        decreases outs.len() - i,
    {
        assert(txout_encodable(all[i as int]));
        outs[i].write_to(out);
        proof {
            assert(all.take(i + 1).drop_last() =~= all.take(i as int));
            assert(out@ =~= old(out)@ + encode_txouts(all.take(i + 1)));
        }
        i += 1;
    }
    assert(all.take(i as int) =~= all);
}

/// Appends the outputs to `out` behind their number in one byte.
pub fn write_txout_list(out: &mut Vec<u8>, outs: &Vec<TxOut>)
    requires
        outs.len() <= 255,
        txouts_encodable(outs.deep_view()),
    ensures
        final(out)@ == old(out)@ + encode_txout_list(outs.deep_view()),
{
    let n: usize = outs.len();
    out.push(n as u8);
    write_txouts(out, outs);
    assert(out@ =~= old(out)@ + encode_txout_list(outs.deep_view()));
}

/// Reads one output.
pub fn read_txout(buf: &[u8], pos: usize) -> (d: Decoded<TxOut>)
    ensures
        yields(d, parse_txout(buf@, pos as int)),
{
    if !has_bytes(buf, pos, 8) {
        return Decoded::NeedMore;
    }
    let value: u64 = read_le64(buf, pos);
    match read_bytes16(buf, pos + 8) {
        Decoded::Complete(script, next) => {
            proof {
                lemma_bytes_deep_view(script);
            }
            Decoded::Complete(TxOut { value, script_pubkey: script }, next)
        },
        Decoded::NeedMore => Decoded::NeedMore,
        Decoded::Invalid => Decoded::Invalid,
    }
}

/// Reads `n` outputs, one behind the other.
pub fn read_txouts(buf: &[u8], pos: usize, n: usize) -> (d: Decoded<Vec<TxOut>>)
    ensures
        yields(d, parse_txouts(buf@, pos as int, n as nat)),
{
    let mut outs: Vec<TxOut> = Vec::new();
    let mut at: usize = pos;
    let mut i: usize = 0;
    assert(outs.deep_view() =~= Seq::empty());
    while i < n
        invariant
            i <= n,
            parse_txouts(buf@, pos as int, i as nat) == (Parsed::Complete {
                value: outs.deep_view(),
                next: at as int,
            }),
        decreases n - i,
    {
        let ghost before = outs.deep_view();
        match read_txout(buf, at) {
            Decoded::Complete(o, next) => {
                outs.push(o);
                at = next;
                assert(outs.deep_view() =~= before.push(o@));
            },
            Decoded::NeedMore => {
                proof {
                    lemma_parse_txouts_stuck(buf@, pos as int, (i + 1) as nat, n as nat);
                }
                return Decoded::NeedMore;
            },
            Decoded::Invalid => {
                proof {
                    lemma_parse_txouts_stuck(buf@, pos as int, (i + 1) as nat, n as nat);
                }
                return Decoded::Invalid;
            },
        }
        i += 1;
    }
    Decoded::Complete(outs, at)
}

/// Reads outputs behind their number in one byte.
pub fn read_txout_list(buf: &[u8], pos: usize) -> (d: Decoded<Vec<TxOut>>)
    ensures
        yields(d, parse_txout_list(buf@, pos as int)),
{
    if !has_bytes(buf, pos, 1) {
        return Decoded::NeedMore;
    }
    let n: u8 = buf[pos];
    read_txouts(buf, pos + 1, n as usize)
}

// ---------------------------------------------------------------------
// Raw transactions
// ---------------------------------------------------------------------

/// Whether a transaction can be written: its length fits four bytes.
pub open spec fn tx_encodable(raw: Seq<u8>) -> bool {
    raw.len() <= 0xffff_ffff
}

/// Whether every transaction of a list can be written.
pub open spec fn txs_encodable(txs: Seq<Seq<u8>>) -> bool {
    forall|i: int| 0 <= i < txs.len() ==> tx_encodable(#[trigger] txs[i])
}

/// Whether every entry of a list is the serialisation of a transaction.
pub open spec fn txs_parse(txs: Seq<Seq<u8>>) -> bool {
    forall|i: int| 0 <= i < txs.len() ==> transaction_parses(#[trigger] txs[i])
}

/// A transaction on the wire: its serialisation behind its length in four
/// bytes.
pub open spec fn encode_tx(raw: Seq<u8>) -> Seq<u8> {
    u32_le(raw.len() as u32) + raw
}

/// Transactions on the wire, one behind the other.
pub open spec fn encode_txs(txs: Seq<Seq<u8>>) -> Seq<u8>
    decreases txs.len(),
{
    if txs.len() == 0 {
        Seq::empty()
    } else {
        encode_txs(txs.drop_last()) + encode_tx(txs.last())
    }
}

/// Reads one transaction; bytes that are no transaction are refused.
pub open spec fn parse_tx(buf: Seq<u8>, pos: int) -> Parsed<Seq<u8>> {
    if !avail(buf, pos, 4) {
        Parsed::NeedMore
    } else if !avail(buf, pos + 4, u32_at(buf, pos) as int) {
        Parsed::NeedMore
    } else if !transaction_parses(bytes_at(buf, pos + 4, u32_at(buf, pos) as int)) {
        Parsed::Invalid
    } else {
        Parsed::Complete {
            value: bytes_at(buf, pos + 4, u32_at(buf, pos) as int),
            next: pos + 4 + u32_at(buf, pos),
        }
    }
}

/// Reads `n` transactions, one behind the other.
pub open spec fn parse_txs(buf: Seq<u8>, pos: int, n: nat) -> Parsed<Seq<Seq<u8>>>
    decreases n,
{
    if n == 0 {
        Parsed::Complete { value: Seq::empty(), next: pos }
    } else {
        match parse_txs(buf, pos, (n - 1) as nat) {
            Parsed::Complete { value, next } => match parse_tx(buf, next) {
                Parsed::Complete { value: last, next: end } => Parsed::Complete {
                    value: value.push(last),
                    next: end,
                },
                Parsed::NeedMore => Parsed::NeedMore,
                Parsed::Invalid => Parsed::Invalid,
            },
            Parsed::NeedMore => Parsed::NeedMore,
            Parsed::Invalid => Parsed::Invalid,
        }
    }
}

/// A transaction reads back from wherever its encoding stands, and a
/// cut-off encoding asks for more.
pub proof fn lemma_parse_tx(buf: Seq<u8>, pos: int, raw: Seq<u8>)
    requires
        tx_encodable(raw),
        agrees(buf, pos, encode_tx(raw)),
    ensures
        transaction_parses(raw) ==> parse_tx(buf, pos) == expected(buf, pos, encode_tx(raw), raw),
{
    let n = raw.len() as u32;
    lemma_u32_round_trip(n);
    lemma_agrees_split(buf, pos, u32_le(n), raw);
    if avail(buf, pos, 4) {
        lemma_agrees_whole(buf, pos, u32_le(n));
        if avail(buf, pos + 4, raw.len() as int) {
            lemma_agrees_whole(buf, pos + 4, raw);
        }
    }
}

/// Once reading a list has stopped short, asking for more of it stops in
/// the same way.
pub proof fn lemma_parse_txs_stuck(buf: Seq<u8>, pos: int, i: nat, n: nat)
    requires
        i <= n,
        !(parse_txs(buf, pos, i) is Complete),
    ensures
        parse_txs(buf, pos, n) == parse_txs(buf, pos, i),
    decreases n,
{
    if i < n {
        lemma_parse_txs_stuck(buf, pos, i, (n - 1) as nat);
    }
}

/// A list of transactions reads back from wherever its encoding stands, and
/// a cut-off encoding asks for more.
pub proof fn lemma_parse_txs(buf: Seq<u8>, pos: int, txs: Seq<Seq<u8>>)
    requires
        txs_encodable(txs),
        agrees(buf, pos, encode_txs(txs)),
        0 <= pos <= buf.len(),
    ensures
        txs_parse(txs) ==> parse_txs(buf, pos, txs.len()) == expected(
            buf,
            pos,
            encode_txs(txs),
            txs,
        ),
    decreases txs.len(),
{
    if txs.len() == 0 {
        assert(txs =~= Seq::empty());
    } else if txs_parse(txs) {
        let front = txs.drop_last();
        let last = txs.last();
        let head = encode_txs(front);
        let tail = encode_tx(last);
        assert(encode_txs(txs) == head + tail);
        assert(txs_encodable(front) && txs_parse(front)) by {
            assert forall|i: int| 0 <= i < front.len() implies tx_encodable(#[trigger] front[i])
                && transaction_parses(front[i]) by {
                assert(front[i] == txs[i]);
            }
        }
        assert(tx_encodable(last) && transaction_parses(last));
        lemma_agrees_split(buf, pos, head, tail);
        lemma_parse_txs(buf, pos, front);
        let n = txs.len();
        assert(front.len() == n - 1);
        if pos + head.len() <= buf.len() {
            assert(parse_txs(buf, pos, (n - 1) as nat) == (Parsed::Complete {
                value: front,
                next: pos + head.len(),
            }));
            lemma_parse_tx(buf, pos + head.len(), last);
            assert(front.push(last) =~= txs);
            if pos + head.len() + tail.len() <= buf.len() {
                assert(parse_tx(buf, pos + head.len()) == (Parsed::Complete {
                    value: last,
                    next: pos + head.len() + tail.len(),
                }));
                assert(parse_txs(buf, pos, n) == (Parsed::Complete {
                    value: txs,
                    next: pos + head.len() + tail.len(),
                }));
            } else {
                assert(parse_tx(buf, pos + head.len()) == Parsed::<Seq<u8>>::NeedMore);
                assert(parse_txs(buf, pos, n) == Parsed::<Seq<Seq<u8>>>::NeedMore);
            }
        } else {
            assert(parse_txs(buf, pos, (n - 1) as nat) == Parsed::<Seq<Seq<u8>>>::NeedMore);
        }
    }
}

/// The least that `n` transactions take on the wire: four bytes each.
pub proof fn lemma_encode_txs_len(txs: Seq<Seq<u8>>)
    ensures
        encode_txs(txs).len() >= 4 * txs.len(),
    decreases txs.len(),
{
    if txs.len() > 0 {
        lemma_encode_txs_len(txs.drop_last());
        lemma_u32_round_trip(txs.last().len() as u32);
    }
}

impl Transaction {
    /// Whether this transaction can be written.
    pub fn is_encodable(&self) -> (ok: bool)
        ensures
            ok == tx_encodable(self@),
    {
        self.raw.len() <= 0xffff_ffff
    }

    /// Appends this transaction to `out`, behind its length.
    pub fn write_to(&self, out: &mut Vec<u8>)
        requires
            tx_encodable(self@),
        ensures
            final(out)@ == old(out)@ + encode_tx(self@),
    {
        let n: usize = self.raw.len();
        put_le32(out, n as u32);
        put_bytes(out, self.raw.as_slice());
        assert(out@ =~= old(out)@ + encode_tx(self@));
    }
}

/// Whether every transaction of `txs` can be written.
pub fn transactions_encodable(txs: &Vec<Transaction>) -> (ok: bool)
    ensures
        ok == txs_encodable(txs.deep_view()),
{
    let mut i: usize = 0;
    while i < txs.len()
        invariant
            i <= txs.len(),
            forall|j: int| 0 <= j < i ==> tx_encodable(#[trigger] txs.deep_view()[j]),
        decreases txs.len() - i,
    {
        if !txs[i].is_encodable() {
            assert(!tx_encodable(txs.deep_view()[i as int]));
            return false;
        }
        i += 1;
    }
    true
}

/// Appends the transactions to `out`, one behind the other.
pub fn write_txs(out: &mut Vec<u8>, txs: &Vec<Transaction>)
    requires
        txs_encodable(txs.deep_view()),
    ensures
        final(out)@ == old(out)@ + encode_txs(txs.deep_view()),
{
    let ghost all = txs.deep_view();
    let mut i: usize = 0;
    assert(all.take(0) =~= Seq::empty());
    while i < txs.len()
        invariant
            i <= txs.len(),
            all == txs.deep_view(),
            txs_encodable(all),
            out@ == old(out)@ + encode_txs(all.take(i as int)),
        decreases txs.len() - i,
    {
        assert(tx_encodable(all[i as int]));
        txs[i].write_to(out);
        proof {
            assert(all.take(i + 1).drop_last() =~= all.take(i as int));
            assert(out@ =~= old(out)@ + encode_txs(all.take(i + 1)));
        }
        i += 1;
    }
    assert(all.take(i as int) =~= all);
}

/// Reads one transaction; bytes that are no transaction are refused.
pub fn read_tx(buf: &[u8], pos: usize) -> (d: Decoded<Transaction>)
    ensures
        yields(d, parse_tx(buf@, pos as int)),
{
    if !has_bytes(buf, pos, 4) {
        return Decoded::NeedMore;
    }
    let n: u32 = read_le32(buf, pos);
    if !has_bytes(buf, pos + 4, n as usize) {
        return Decoded::NeedMore;
    }
    let raw: Vec<u8> = vec_at(buf, pos + 4, n as usize);
    match Transaction::from_raw(raw) {
        Some(tx) => Decoded::Complete(tx, pos + 4 + n as usize),
        None => Decoded::Invalid,
    }
}

/// Reads `n` transactions, one behind the other.
pub fn read_txs(buf: &[u8], pos: usize, n: usize) -> (d: Decoded<Vec<Transaction>>)
    ensures
        yields(d, parse_txs(buf@, pos as int, n as nat)),
{
    let mut txs: Vec<Transaction> = Vec::new();
    let mut at: usize = pos;
    let mut i: usize = 0;
    assert(txs.deep_view() =~= Seq::empty());
    while i < n
        invariant
            i <= n,
            parse_txs(buf@, pos as int, i as nat) == (Parsed::Complete {
                value: txs.deep_view(),
                next: at as int,
            }),
        decreases n - i,
    {
        let ghost before = txs.deep_view();
        match read_tx(buf, at) {
            Decoded::Complete(tx, next) => {
                txs.push(tx);
                at = next;
                assert(txs.deep_view() =~= before.push(tx@));
            },
            Decoded::NeedMore => {
                proof {
                    lemma_parse_txs_stuck(buf@, pos as int, (i + 1) as nat, n as nat);
                }
                return Decoded::NeedMore;
            },
            Decoded::Invalid => {
                proof {
                    lemma_parse_txs_stuck(buf@, pos as int, (i + 1) as nat, n as nat);
                }
                return Decoded::Invalid;
            },
        }
        i += 1;
    }
    Decoded::Complete(txs, at)
}

// ---------------------------------------------------------------------
// Lists of 32-byte hashes
// ---------------------------------------------------------------------

/// Whether every entry of a list is 32 bytes long.
pub open spec fn hashes_sized(hashes: Seq<Seq<u8>>) -> bool {
    forall|i: int| 0 <= i < hashes.len() ==> (#[trigger] hashes[i]).len() == 32
}

/// Hashes on the wire, one behind the other.
pub open spec fn encode_hashes(hashes: Seq<Seq<u8>>) -> Seq<u8>
    decreases hashes.len(),
{
    if hashes.len() == 0 {
        Seq::empty()
    } else {
        encode_hashes(hashes.drop_last()) + hashes.last()
    }
}

/// Hashes on the wire behind their number in one byte.
pub open spec fn encode_hash_list(hashes: Seq<Seq<u8>>) -> Seq<u8> {
    seq![hashes.len() as u8] + encode_hashes(hashes)
}

/// The `n` hashes that stand one behind the other from `pos` on.
pub open spec fn hashes_at(buf: Seq<u8>, pos: int, n: int) -> Seq<Seq<u8>> {
    Seq::new(n as nat, |i: int| bytes_at(buf, pos + 32 * i, 32))
}

/// Reads hashes behind their number in one byte, which may be at most `max`.
pub open spec fn parse_hash_list(buf: Seq<u8>, pos: int, max: int) -> Parsed<Seq<Seq<u8>>> {
    if !avail(buf, pos, 1) {
        Parsed::NeedMore
    } else if buf[pos] > max {
        Parsed::Invalid
    } else if !avail(buf, pos + 1, 32 * buf[pos]) {
        Parsed::NeedMore
    } else {
        Parsed::Complete {
            value: hashes_at(buf, pos + 1, buf[pos] as int),
            next: pos + 1 + 32 * buf[pos],
        }
    }
}

/// Hashes take 32 bytes each, and stand in a buffer that holds their
/// encoding one behind the other.
pub proof fn lemma_encode_hashes(buf: Seq<u8>, pos: int, hashes: Seq<Seq<u8>>)
    requires
        hashes_sized(hashes),
        agrees(buf, pos, encode_hashes(hashes)),
    ensures
        encode_hashes(hashes).len() == 32 * hashes.len(),
        avail(buf, pos, 32 * (hashes.len() as int)) ==> hashes_at(buf, pos, hashes.len() as int)
            == hashes,
    decreases hashes.len(),
{
    if hashes.len() == 0 {
        assert(hashes_at(buf, pos, 0) =~= hashes);
    } else {
        let front = hashes.drop_last();
        let last = hashes.last();
        assert(hashes_sized(front)) by {
            assert forall|i: int| 0 <= i < front.len() implies (#[trigger] front[i]).len()
                == 32 by {
                assert(front[i] == hashes[i]);
            }
        }
        lemma_agrees_split(buf, pos, encode_hashes(front), last);
        lemma_encode_hashes(buf, pos, front);
        if avail(buf, pos, 32 * (hashes.len() as int)) {
            lemma_agrees_whole(buf, pos + 32 * front.len(), last);
            let got = hashes_at(buf, pos, hashes.len() as int);
            assert forall|i: int| 0 <= i < hashes.len() implies got[i] == hashes[i] by {
                if i < front.len() {
                    assert(hashes_at(buf, pos, front.len() as int)[i] == front[i]);
                }
            }
            assert(got =~= hashes);
        }
    }
}

/// A list of at most `max` hashes reads back from behind its count, and a
/// cut-off encoding asks for more.
pub proof fn lemma_parse_hash_list(buf: Seq<u8>, pos: int, max: int, hashes: Seq<Seq<u8>>)
    requires
        hashes.len() <= max <= 255,
        hashes_sized(hashes),
        agrees(buf, pos, encode_hash_list(hashes)),
    ensures
        parse_hash_list(buf, pos, max) == expected(buf, pos, encode_hash_list(hashes), hashes),
{
    lemma_agrees_split(buf, pos, seq![hashes.len() as u8], encode_hashes(hashes));
    lemma_encode_hashes(buf, pos + 1, hashes);
    if avail(buf, pos, 1) {
        lemma_agrees_first(buf, pos, encode_hash_list(hashes));
    }
}

/// The hashes of a list as byte strings.
pub open spec fn hashes_view(hashes: Seq<[u8; 32]>) -> Seq<Seq<u8>> {
    Seq::new(hashes.len(), |i: int| hashes[i]@)
}

/// A list of hashes is, as a value, the list of their bytes.
pub proof fn lemma_hashes_deep_view(hashes: Vec<[u8; 32]>)
    ensures
        hashes.deep_view() == hashes_view(hashes@),
        hashes_sized(hashes.deep_view()),
{
    assert forall|i: int| 0 <= i < hashes@.len() implies hashes.deep_view()[i] == hashes@[i]@ by {
        lemma_array_deep_view(hashes@[i]);
    }
    assert(hashes.deep_view() =~= hashes_view(hashes@));
}

/// Appends the hashes to `out` behind their number in one byte.
pub fn write_hash_list(out: &mut Vec<u8>, hashes: &Vec<[u8; 32]>)
    requires
        hashes.len() <= 255,
    ensures
        final(out)@ == old(out)@ + encode_hash_list(hashes.deep_view()),
{
    let ghost all = hashes.deep_view();
    proof {
        lemma_hashes_deep_view(*hashes);
    }
    let n: usize = hashes.len();
    out.push(n as u8);
    let ghost start = out@;
    let mut i: usize = 0;
    assert(all.take(0) =~= Seq::empty());
    while i < hashes.len()
        invariant
            i <= hashes.len(),
            all == hashes.deep_view(),
            all == hashes_view(hashes@),
            out@ == start + encode_hashes(all.take(i as int)),
        decreases hashes.len() - i,
    {
        put_bytes(out, hashes[i].as_slice());
        proof {
            assert(all.take(i + 1).drop_last() =~= all.take(i as int));
            assert(all.take(i + 1).last() == hashes@[i as int]@);
            assert(out@ =~= start + encode_hashes(all.take(i + 1)));
        }
        i += 1;
    }
    assert(all.take(i as int) =~= all);
    assert(out@ =~= old(out)@ + encode_hash_list(all));
}

/// Reads hashes behind their number in one byte, which may be at most `max`.
pub fn read_hash_list(buf: &[u8], pos: usize, max: u8) -> (d: Decoded<Vec<[u8; 32]>>)
    ensures
        yields(d, parse_hash_list(buf@, pos as int, max as int)),
{
    if !has_bytes(buf, pos, 1) {
        return Decoded::NeedMore;
    }
    let n: u8 = buf[pos];
    if n > max {
        return Decoded::Invalid;
    }
    if !has_bytes(buf, pos + 1, 32 * (n as usize)) {
        return Decoded::NeedMore;
    }
    let mut hashes: Vec<[u8; 32]> = Vec::new();
    let mut i: usize = 0;
    while i < n as usize
        invariant
            i <= n,
            avail(buf@, pos + 1, 32 * n),
            pos + 1 + 32 * n <= usize::MAX,
            hashes.len() == i,
            forall|j: int| 0 <= j < i ==> hashes@[j]@ == bytes_at(buf@, pos + 1 + 32 * j, 32),
        decreases n - i,
    {
        let h: [u8; 32] = array_at::<32>(buf, pos + 1 + 32 * i);
        hashes.push(h);
        i += 1;
    }
    proof {
        lemma_hashes_deep_view(hashes);
        assert(hashes.deep_view() =~= hashes_at(buf@, pos + 1, n as int));
    }
    Decoded::Complete(hashes, pos + 1 + 32 * (n as usize))
}

// ---------------------------------------------------------------------
// What is read lies inside the buffer
// ---------------------------------------------------------------------

/// A list of outputs that was read in full ends inside the buffer.
pub proof fn lemma_parse_txouts_in_bounds(buf: Seq<u8>, pos: int, n: nat)
    requires
        0 <= pos <= buf.len(),
    ensures
        parse_txouts(buf, pos, n) matches Parsed::Complete { next, .. } ==> pos <= next
            <= buf.len(),
    decreases n,
{
    if n > 0 {
        lemma_parse_txouts_in_bounds(buf, pos, (n - 1) as nat);
    }
}

/// A list of transactions that was read in full ends inside the buffer.
pub proof fn lemma_parse_txs_in_bounds(buf: Seq<u8>, pos: int, n: nat)
    requires
        0 <= pos <= buf.len(),
    ensures
        parse_txs(buf, pos, n) matches Parsed::Complete { next, .. } ==> pos <= next <= buf.len(),
    decreases n,
{
    if n > 0 {
        lemma_parse_txs_in_bounds(buf, pos, (n - 1) as nat);
    }
}

// ---------------------------------------------------------------------
// What is read was written
// ---------------------------------------------------------------------

/// A byte string that was read in full stands in the buffer as it is
/// written, and keeps the bound.
pub proof fn lemma_bytes8_read_is_written(buf: Seq<u8>, pos: int, max: int)
    requires
        max <= 255,
    ensures
        parse_bytes8(buf, pos, max) matches Parsed::Complete { value, next } ==> value.len()
            <= max && stands(buf, pos, next, encode_bytes8(value)),
{
    if let Parsed::Complete { value, next } = parse_bytes8(buf, pos, max) {
        lemma_bytes_stand(buf, pos, 1);
        lemma_bytes_stand(buf, pos + 1, value.len() as int);
        assert(bytes_at(buf, pos, 1) =~= seq![value.len() as u8]);
        lemma_stands_join(buf, pos, pos + 1, next, seq![value.len() as u8], value);
    }
}

/// A byte string that was read in full stands in the buffer as it is
/// written.
pub proof fn lemma_bytes16_read_is_written(buf: Seq<u8>, pos: int)
    ensures
        parse_bytes16(buf, pos) matches Parsed::Complete { value, next } ==> value.len() <= 0xffff
            && stands(buf, pos, next, encode_bytes16(value)),
{
    if let Parsed::Complete { value, next } = parse_bytes16(buf, pos) {
        lemma_u16_stands(buf, pos);
        lemma_bytes_stand(buf, pos + 2, value.len() as int);
        lemma_stands_join(buf, pos, pos + 2, next, u16_le(u16_at(buf, pos)), value);
    }
}

/// An output that was read in full stands in the buffer as it is written.
pub proof fn lemma_txout_read_is_written(buf: Seq<u8>, pos: int)
    ensures
        parse_txout(buf, pos) matches Parsed::Complete { value, next } ==> txout_encodable(value)
            && stands(buf, pos, next, encode_txout(value)),
{
    if let Parsed::Complete { value, next } = parse_txout(buf, pos) {
        lemma_u64_stands(buf, pos);
        lemma_bytes16_read_is_written(buf, pos + 8);
        lemma_stands_join(
            buf,
            pos,
            pos + 8,
            next,
            u64_le(value.value),
            encode_bytes16(value.script_pubkey),
        );
    }
}

/// Outputs that were read in full stand in the buffer as they are written.
pub proof fn lemma_txouts_read_are_written(buf: Seq<u8>, pos: int, n: nat)
    requires
        0 <= pos <= buf.len(),
    ensures
        parse_txouts(buf, pos, n) matches Parsed::Complete { value, next } ==> value.len() == n
            && txouts_encodable(value) && stands(buf, pos, next, encode_txouts(value)),
    decreases n,
{
    if n == 0 {
        lemma_bytes_stand(buf, pos, 0);
        assert(bytes_at(buf, pos, 0) =~= Seq::<u8>::empty());
    } else {
        lemma_txouts_read_are_written(buf, pos, (n - 1) as nat);
        if let Parsed::Complete { value: front, next: mid } = parse_txouts(
            buf,
            pos,
            (n - 1) as nat,
        ) {
            lemma_txout_read_is_written(buf, mid);
            if let Parsed::Complete { value: last, next } = parse_txout(buf, mid) {
                let all = front.push(last);
                assert(all.drop_last() =~= front);
                lemma_stands_join(buf, pos, mid, next, encode_txouts(front), encode_txout(last));
                assert forall|i: int| 0 <= i < all.len() implies txout_encodable(
                    #[trigger] all[i],
                ) by {
                    if i < front.len() {
                        assert(all[i] == front[i]);
                    }
                }
            }
        }
    }
}

/// A list of outputs that was read in full stands in the buffer as it is
/// written, behind its count.
pub proof fn lemma_txout_list_read_is_written(buf: Seq<u8>, pos: int)
    ensures
        parse_txout_list(buf, pos) matches Parsed::Complete { value, next } ==> value.len() <= 255
            && txouts_encodable(value) && stands(buf, pos, next, encode_txout_list(value)),
{
    if let Parsed::Complete { value, next } = parse_txout_list(buf, pos) {
        lemma_txouts_read_are_written(buf, pos + 1, buf[pos] as nat);
        lemma_bytes_stand(buf, pos, 1);
        assert(bytes_at(buf, pos, 1) =~= seq![value.len() as u8]);
        lemma_stands_join(
            buf,
            pos,
            pos + 1,
            next,
            seq![value.len() as u8],
            encode_txouts(value),
        );
    }
}

/// A transaction that was read in full is one, and stands in the buffer as
/// it is written.
pub proof fn lemma_tx_read_is_written(buf: Seq<u8>, pos: int)
    ensures
        parse_tx(buf, pos) matches Parsed::Complete { value, next } ==> tx_encodable(value)
            && transaction_parses(value) && stands(buf, pos, next, encode_tx(value)),
{
    if let Parsed::Complete { value, next } = parse_tx(buf, pos) {
        lemma_u32_stands(buf, pos);
        lemma_bytes_stand(buf, pos + 4, value.len() as int);
        lemma_stands_join(buf, pos, pos + 4, next, u32_le(u32_at(buf, pos)), value);
    }
}

/// Transactions that were read in full are transactions, and stand in the
/// buffer as they are written.
pub proof fn lemma_txs_read_are_written(buf: Seq<u8>, pos: int, n: nat)
    requires
        0 <= pos <= buf.len(),
    ensures
        parse_txs(buf, pos, n) matches Parsed::Complete { value, next } ==> value.len() == n
            && txs_encodable(value) && txs_parse(value) && stands(
            buf,
            pos,
            next,
            encode_txs(value),
        ),
    decreases n,
{
    if n == 0 {
        lemma_bytes_stand(buf, pos, 0);
        assert(bytes_at(buf, pos, 0) =~= Seq::<u8>::empty());
    } else {
        lemma_txs_read_are_written(buf, pos, (n - 1) as nat);
        if let Parsed::Complete { value: front, next: mid } = parse_txs(buf, pos, (n - 1) as nat) {
            lemma_tx_read_is_written(buf, mid);
            if let Parsed::Complete { value: last, next } = parse_tx(buf, mid) {
                let all = front.push(last);
                assert(all.drop_last() =~= front);
                lemma_stands_join(buf, pos, mid, next, encode_txs(front), encode_tx(last));
                assert forall|i: int| 0 <= i < all.len() implies tx_encodable(#[trigger] all[i])
                    && transaction_parses(all[i]) by {
                    if i < front.len() {
                        assert(all[i] == front[i]);
                    }
                }
            }
        }
    }
}

/// Hashes that stand one behind the other are what their encoding says.
pub proof fn lemma_hashes_stand(buf: Seq<u8>, pos: int, n: nat)
    requires
        avail(buf, pos, 32 * (n as int)),
    ensures
        hashes_sized(hashes_at(buf, pos, n as int)),
        stands(buf, pos, pos + 32 * n, encode_hashes(hashes_at(buf, pos, n as int))),
    decreases n,
{
    let all = hashes_at(buf, pos, n as int);
    if n == 0 {
        lemma_bytes_stand(buf, pos, 0);
        assert(bytes_at(buf, pos, 0) =~= Seq::<u8>::empty());
    } else {
        lemma_hashes_stand(buf, pos, (n - 1) as nat);
        assert(all.drop_last() =~= hashes_at(buf, pos, n - 1));
        lemma_bytes_stand(buf, pos + 32 * (n - 1), 32);
        lemma_stands_join(
            buf,
            pos,
            pos + 32 * (n - 1),
            pos + 32 * n,
            encode_hashes(all.drop_last()),
            all.last(),
        );
    }
}

/// A list of hashes that was read in full stands in the buffer as it is
/// written, and keeps the bound.
pub proof fn lemma_hash_list_read_is_written(buf: Seq<u8>, pos: int, max: int)
    requires
        max <= 255,
    ensures
        parse_hash_list(buf, pos, max) matches Parsed::Complete { value, next } ==> value.len()
            <= max && hashes_sized(value) && stands(buf, pos, next, encode_hash_list(value)),
{
    if let Parsed::Complete { value, next } = parse_hash_list(buf, pos, max) {
        lemma_hashes_stand(buf, pos + 1, buf[pos] as nat);
        lemma_bytes_stand(buf, pos, 1);
        assert(bytes_at(buf, pos, 1) =~= seq![value.len() as u8]);
        lemma_stands_join(
            buf,
            pos,
            pos + 1,
            next,
            seq![value.len() as u8],
            encode_hashes(value),
        );
    }
}

} // verus!
