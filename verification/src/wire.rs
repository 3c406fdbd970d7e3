//! Little-endian primitives and the reading discipline shared by both
//! protocols: nothing is consumed until a whole message is known to be there.
use vstd::prelude::*;
use vstd::slice::slice_subrange;

verus! {

/// The two bytes of `x`, least significant first.
#[verifier::opaque]
pub open spec fn u16_le(x: u16) -> Seq<u8> {
    seq![(x % 256) as u8, (x / 256) as u8]
}

/// The four bytes of `x`, least significant first.
#[verifier::opaque]
pub open spec fn u32_le(x: u32) -> Seq<u8> {
    seq![
        (x % 256) as u8,
        ((x / 0x100) % 256) as u8,
        ((x / 0x1_0000) % 256) as u8,
        (x / 0x100_0000) as u8,
    ]
}

/// The eight bytes of `x`, least significant first.
#[verifier::opaque]
pub open spec fn u64_le(x: u64) -> Seq<u8> {
    seq![
        (x % 256) as u8,
        ((x / 0x100) % 256) as u8,
        ((x / 0x1_0000) % 256) as u8,
        ((x / 0x100_0000) % 256) as u8,
        ((x / 0x1_0000_0000) % 256) as u8,
        ((x / 0x100_0000_0000) % 256) as u8,
        ((x / 0x1_0000_0000_0000) % 256) as u8,
        (x / 0x100_0000_0000_0000) as u8,
    ]
}

/// The number spelled by the first two bytes of `s`, least significant first.
#[verifier::opaque]
pub open spec fn u16_from_le(s: Seq<u8>) -> u16
    recommends
        s.len() >= 2,
{
    (s[0] + 0x100 * s[1]) as u16
}

/// The number spelled by the first four bytes of `s`, least significant first.
#[verifier::opaque]
pub open spec fn u32_from_le(s: Seq<u8>) -> u32
    recommends
        s.len() >= 4,
{
    (s[0] + 0x100 * s[1] + 0x1_0000 * s[2] + 0x100_0000 * s[3]) as u32
}

/// The number spelled by the first eight bytes of `s`, least significant first.
#[verifier::opaque]
pub open spec fn u64_from_le(s: Seq<u8>) -> u64
    recommends
        s.len() >= 8,
{
    (s[0] + 0x100 * s[1] + 0x1_0000 * s[2] + 0x100_0000 * s[3] + 0x1_0000_0000 * s[4]
        + 0x100_0000_0000 * s[5] + 0x1_0000_0000_0000 * s[6] + 0x100_0000_0000_0000 * s[7]) as u64
}

/// Reading back what `u16_le` wrote gives the number that was written.
pub proof fn lemma_u16_round_trip(x: u16)
    ensures
        u16_le(x).len() == 2,
        u16_from_le(u16_le(x)) == x,
{
    reveal(u16_le);
    reveal(u16_from_le);
}

/// Reading back what `u32_le` wrote gives the number that was written.
pub proof fn lemma_u32_round_trip(x: u32)
    ensures
        u32_le(x).len() == 4,
        u32_from_le(u32_le(x)) == x,
{
    reveal(u32_le);
    reveal(u32_from_le);
}

/// Reading back what `u64_le` wrote gives the number that was written.
pub proof fn lemma_u64_round_trip(x: u64)
    ensures
        u64_le(x).len() == 8,
        u64_from_le(u64_le(x)) == x,
{
    reveal(u64_le);
    reveal(u64_from_le);
    assert(x == (x % 256) + 0x100 * ((x / 0x100) % 256) + 0x1_0000 * ((x / 0x1_0000) % 256)
        + 0x100_0000 * ((x / 0x100_0000) % 256) + 0x1_0000_0000 * ((x / 0x1_0000_0000) % 256)
        + 0x100_0000_0000 * ((x / 0x100_0000_0000) % 256) + 0x1_0000_0000_0000 * ((x
        / 0x1_0000_0000_0000) % 256) + 0x100_0000_0000_0000 * (x / 0x100_0000_0000_0000))
        by (bit_vector);
    assert(x / 0x100_0000_0000_0000 < 256) by (bit_vector);
}

/// Reads a little-endian `u16` from the first two bytes of `v`.
pub fn slice_to_le16(v: &[u8]) -> (r: u16)
    requires
        v@.len() >= 2,
    ensures
        r == u16_from_le(v@),
{
    proof {
        reveal(u16_from_le);
    }
    let b0: u16 = v[0] as u16;
    let b1: u16 = v[1] as u16;
    assert((b1 << 8u16) | b0 == b0 + 0x100 * b1) by (bit_vector)
        requires
            b0 < 256,
            b1 < 256,
    ;
    (b1 << 8) | b0
}

/// Reads a little-endian `u32` from the first four bytes of `v`.
pub fn slice_to_le32(v: &[u8]) -> (r: u32)
    requires
        v@.len() >= 4,
    ensures
        r == u32_from_le(v@),
{
    proof {
        reveal(u32_from_le);
    }
    let b0: u32 = v[0] as u32;
    let b1: u32 = v[1] as u32;
    let b2: u32 = v[2] as u32;
    let b3: u32 = v[3] as u32;
    assert((b3 << 24u32) | (b2 << 16u32) | (b1 << 8u32) | b0 == b0 + 0x100 * b1 + 0x1_0000 * b2
        + 0x100_0000 * b3) by (bit_vector)
        requires
            b0 < 256,
            b1 < 256,
            b2 < 256,
            b3 < 256,
    ;
    (b3 << 24) | (b2 << 16) | (b1 << 8) | b0
}

/// Reads a little-endian `u64` from the first eight bytes of `v`.
pub fn slice_to_le64(v: &[u8]) -> (r: u64)
    requires
        v@.len() >= 8,
    ensures
        r == u64_from_le(v@),
{
    proof {
        reveal(u64_from_le);
    }
    let b0: u64 = v[0] as u64;
    let b1: u64 = v[1] as u64;
    let b2: u64 = v[2] as u64;
    let b3: u64 = v[3] as u64;
    let b4: u64 = v[4] as u64;
    let b5: u64 = v[5] as u64;
    let b6: u64 = v[6] as u64;
    let b7: u64 = v[7] as u64;
    assert((b7 << 56u64) | (b6 << 48u64) | (b5 << 40u64) | (b4 << 32u64) | (b3 << 24u64) | (b2
        << 16u64) | (b1 << 8u64) | b0 == b0 + 0x100 * b1 + 0x1_0000 * b2 + 0x100_0000 * b3
        + 0x1_0000_0000 * b4 + 0x100_0000_0000 * b5 + 0x1_0000_0000_0000 * b6
        + 0x100_0000_0000_0000 * b7) by (bit_vector)
        requires
            b0 < 256,
            b1 < 256,
            b2 < 256,
            b3 < 256,
            b4 < 256,
            b5 < 256,
            b6 < 256,
            b7 < 256,
    ;
    (b7 << 56) | (b6 << 48) | (b5 << 40) | (b4 << 32) | (b3 << 24) | (b2 << 16) | (b1 << 8) | b0
}

/// Appends `x` to `out`, least significant byte first.
pub fn put_le16(out: &mut Vec<u8>, x: u16)
    ensures
        final(out)@ == old(out)@ + u16_le(x),
{
    proof {
        reveal(u16_le);
    }
    out.push((x % 256) as u8);
    out.push((x / 256) as u8);
    assert(out@ =~= old(out)@ + u16_le(x));
}

/// Appends `x` to `out`, least significant byte first.
pub fn put_le32(out: &mut Vec<u8>, x: u32)
    ensures
        final(out)@ == old(out)@ + u32_le(x),
{
    proof {
        reveal(u32_le);
    }
    out.push((x % 256) as u8);
    out.push(((x / 0x100) % 256) as u8);
    out.push(((x / 0x1_0000) % 256) as u8);
    out.push((x / 0x100_0000) as u8);
    assert(out@ =~= old(out)@ + u32_le(x));
}

/// Appends `x` to `out`, least significant byte first.
pub fn put_le64(out: &mut Vec<u8>, x: u64)
    ensures
        final(out)@ == old(out)@ + u64_le(x),
{
    proof {
        reveal(u64_le);
    }
    out.push((x % 256) as u8);
    out.push(((x / 0x100) % 256) as u8);
    out.push(((x / 0x1_0000) % 256) as u8);
    out.push(((x / 0x100_0000) % 256) as u8);
    out.push(((x / 0x1_0000_0000) % 256) as u8);
    out.push(((x / 0x100_0000_0000) % 256) as u8);
    out.push(((x / 0x1_0000_0000_0000) % 256) as u8);
    out.push((x / 0x100_0000_0000_0000) as u8);
    assert(out@ =~= old(out)@ + u64_le(x));
}

/// Appends the bytes of `data` to `out`.
pub fn put_bytes(out: &mut Vec<u8>, data: &[u8])
    ensures
        final(out)@ == old(out)@ + data@,
{
    out.extend_from_slice(data);
}

/// Bytes that cannot be a message, or a message that cannot be written.
#[derive(Debug, PartialEq, Eq)]
pub struct CodecError;

impl CodecError {
    /// What went wrong, in words.
    pub fn description(&self) -> (words: &'static str)
        ensures
            words@ == "Bad data"@,
    {
        "Bad data"
    }
}

/// What reading a value out of a buffer comes to.
pub enum Parsed<T> {
    /// The value is there in full; `next` is the position just behind it.
    Complete { value: T, next: int },
    /// The buffer ends before the value does.
    NeedMore,
    /// The bytes cannot be the start of any value.
    Invalid,
}

/// What an executable reader hands back: the value and the position
/// behind it, or why there is none.
#[derive(Debug, PartialEq, Eq)]
pub enum Decoded<T> {
    Complete(T, usize),
    NeedMore,
    Invalid,
}

/// Whether the reader's answer `d` is the answer `p` that the format gives.
pub open spec fn yields<T: DeepView>(d: Decoded<T>, p: Parsed<T::V>) -> bool {
    match p {
        Parsed::Complete { value, next } => d matches Decoded::Complete(v, n) && v.deep_view()
            == value && n == next,
        Parsed::NeedMore => d is NeedMore,
        Parsed::Invalid => d is Invalid,
    }
}

/// What a value encoded as `enc` parses to in a buffer that agrees with
/// `enc` from `pos` on: the value where all of `enc` is there, a wait for
/// more where it is not.
pub open spec fn expected<T>(buf: Seq<u8>, pos: int, enc: Seq<u8>, value: T) -> Parsed<T> {
    if pos + enc.len() <= buf.len() {
        Parsed::Complete { value, next: pos + enc.len() }
    } else {
        Parsed::NeedMore
    }
}

/// Whether `n` bytes are there from `pos` on.
pub open spec fn avail(buf: Seq<u8>, pos: int, n: int) -> bool {
    0 <= pos && 0 <= n && pos + n <= buf.len()
}

/// The `n` bytes from `pos` on.
pub open spec fn bytes_at(buf: Seq<u8>, pos: int, n: int) -> Seq<u8> {
    buf.subrange(pos, pos + n)
}

/// The `u16` that starts at `pos`.
pub open spec fn u16_at(buf: Seq<u8>, pos: int) -> u16 {
    u16_from_le(bytes_at(buf, pos, 2))
}

/// The `u32` that starts at `pos`.
pub open spec fn u32_at(buf: Seq<u8>, pos: int) -> u32 {
    u32_from_le(bytes_at(buf, pos, 4))
}

/// The `u64` that starts at `pos`.
pub open spec fn u64_at(buf: Seq<u8>, pos: int) -> u64 {
    u64_from_le(bytes_at(buf, pos, 8))
}

/// Whether `n` bytes are there from `pos` on.
pub fn has_bytes(buf: &[u8], pos: usize, n: usize) -> (r: bool)
    ensures
        r == avail(buf@, pos as int, n as int),
        r ==> pos + n <= usize::MAX,
{
    let len: usize = buf.len();
    pos <= len && n <= len - pos
}

/// A vector of bytes is, as a value, the bytes it holds.
pub proof fn lemma_bytes_deep_view(v: Vec<u8>)
    ensures
        v.deep_view() == v@,
{
    assert(v.deep_view() =~= v@);
}

/// The `n` bytes from `pos` on, borrowed.
pub fn slice_at(buf: &[u8], pos: usize, n: usize) -> (r: &[u8])
    requires
        avail(buf@, pos as int, n as int),
    ensures
        r@ == bytes_at(buf@, pos as int, n as int),
{
    let len: usize = buf.len();
    assert(pos + n <= len);
    slice_subrange(buf, pos, pos + n)
}

/// The `n` bytes from `pos` on, copied.
pub fn vec_at(buf: &[u8], pos: usize, n: usize) -> (r: Vec<u8>)
    requires
        avail(buf@, pos as int, n as int),
    ensures
        r@ == bytes_at(buf@, pos as int, n as int),
{
    let mut out: Vec<u8> = Vec::new();
    out.extend_from_slice(slice_at(buf, pos, n));
    out
}

/// The `N` bytes from `pos` on, as an array.
pub fn array_at<const N: usize>(buf: &[u8], pos: usize) -> (r: [u8; N])
    requires
        avail(buf@, pos as int, N as int),
    ensures
        r@ == bytes_at(buf@, pos as int, N as int),
{
    let mut out = [0u8; N];
    let len: usize = buf.len();
    let mut i: usize = 0;
    while i < N
        invariant
            i <= N,
            pos + N <= len,
            len == buf@.len(),
            forall|j: int| 0 <= j < i ==> out@[j] == buf@[pos + j],
        decreases N - i,
    {
        out[i] = buf[pos + i];
        i += 1;
    }
    assert(out@ =~= bytes_at(buf@, pos as int, N as int));
    out
}

/// An array of bytes is, as a value, the bytes it holds.
pub proof fn lemma_array_deep_view<const N: usize>(a: [u8; N])
    ensures
        a.deep_view() == a@,
{
    assert(a.deep_view() =~= a@);
}

/// The `u16` that starts at `pos`.
pub fn read_le16(buf: &[u8], pos: usize) -> (r: u16)
    requires
        avail(buf@, pos as int, 2),
    ensures
        r == u16_at(buf@, pos as int),
{
    slice_to_le16(slice_at(buf, pos, 2))
}

/// The `u32` that starts at `pos`.
pub fn read_le32(buf: &[u8], pos: usize) -> (r: u32)
    requires
        avail(buf@, pos as int, 4),
    ensures
        r == u32_at(buf@, pos as int),
{
    slice_to_le32(slice_at(buf, pos, 4))
}

/// The `u64` that starts at `pos`.
pub fn read_le64(buf: &[u8], pos: usize) -> (r: u64)
    requires
        avail(buf@, pos as int, 8),
    ensures
        r == u64_at(buf@, pos as int),
{
    slice_to_le64(slice_at(buf, pos, 8))
}

/// Whether `buf`, from `pos` on, holds the bytes of `enc` as far as `buf`
/// reaches: all of them, or a beginning of them.
#[verifier::opaque]
pub open spec fn agrees(buf: Seq<u8>, pos: int, enc: Seq<u8>) -> bool {
    &&& 0 <= pos
    &&& forall|i: int|
        0 <= i < enc.len() && pos + i < buf.len() ==> buf[pos + i] == #[trigger] enc[i]
}

/// Agreement with a concatenation is agreement with each part in its place.
pub proof fn lemma_agrees_split(buf: Seq<u8>, pos: int, a: Seq<u8>, b: Seq<u8>)
    requires
        agrees(buf, pos, a + b),
    ensures
        agrees(buf, pos, a),
        agrees(buf, pos + a.len(), b),
        0 <= pos,
{
    reveal(agrees);
    assert forall|i: int| 0 <= i < a.len() && pos + i < buf.len() implies buf[pos + i]
        == #[trigger] a[i] by {
        assert((a + b)[i] == a[i]);
    }
    assert forall|i: int| 0 <= i < b.len() && pos + a.len() + i < buf.len() implies buf[pos
        + a.len() + i] == #[trigger] b[i] by {
        assert((a + b)[a.len() + i] == b[i]);
    }
}

/// Where `buf` reaches to the end of `enc`, it holds exactly `enc` there.
pub proof fn lemma_agrees_whole(buf: Seq<u8>, pos: int, enc: Seq<u8>)
    requires
        agrees(buf, pos, enc),
        pos + enc.len() <= buf.len(),
    ensures
        bytes_at(buf, pos, enc.len() as int) == enc,
{
    reveal(agrees);
    assert forall|i: int| 0 <= i < enc.len() implies bytes_at(buf, pos, enc.len() as int)[i]
        == enc[i] by {
        assert(buf[pos + i] == enc[i]);
    }
    assert(bytes_at(buf, pos, enc.len() as int) =~= enc);
}

/// Every buffer that starts with `enc` agrees with it, and so does every
/// beginning of `enc`.
pub proof fn lemma_agrees_prefix(enc: Seq<u8>, rest: Seq<u8>, k: int)
    requires
        0 <= k <= enc.len(),
    ensures
        agrees(enc + rest, 0, enc),
        agrees(enc.subrange(0, k), 0, enc),
{
    reveal(agrees);
}

/// Where `buf` reaches the first byte of `enc`, it holds that byte.
pub proof fn lemma_agrees_first(buf: Seq<u8>, pos: int, enc: Seq<u8>)
    requires
        agrees(buf, pos, enc),
        enc.len() > 0,
        pos < buf.len(),
    ensures
        buf[pos] == enc[0],
{
    reveal(agrees);
    assert(buf[pos + 0] == enc[0]);
}

/// A `u16` reads back from where its bytes stand.
pub proof fn lemma_read_u16(buf: Seq<u8>, pos: int, x: u16)
    requires
        agrees(buf, pos, u16_le(x)),
        avail(buf, pos, 2),
    ensures
        u16_at(buf, pos) == x,
{
    lemma_u16_round_trip(x);
    lemma_agrees_whole(buf, pos, u16_le(x));
}

/// A `u32` reads back from where its bytes stand.
pub proof fn lemma_read_u32(buf: Seq<u8>, pos: int, x: u32)
    requires
        agrees(buf, pos, u32_le(x)),
        avail(buf, pos, 4),
    ensures
        u32_at(buf, pos) == x,
{
    lemma_u32_round_trip(x);
    lemma_agrees_whole(buf, pos, u32_le(x));
}

/// A `u64` reads back from where its bytes stand.
pub proof fn lemma_read_u64(buf: Seq<u8>, pos: int, x: u64)
    requires
        agrees(buf, pos, u64_le(x)),
        avail(buf, pos, 8),
    ensures
        u64_at(buf, pos) == x,
{
    lemma_u64_round_trip(x);
    lemma_agrees_whole(buf, pos, u64_le(x));
}

/// Two bytes are the two bytes of the number they spell.
pub proof fn lemma_u16_bytes_of_value(s: Seq<u8>)
    requires
        s.len() == 2,
    ensures
        u16_le(u16_from_le(s)) == s,
{
    reveal(u16_le);
    reveal(u16_from_le);
    let x = u16_from_le(s);
    assert(u16_le(x) =~= s);
}

/// Four bytes are the four bytes of the number they spell.
pub proof fn lemma_u32_bytes_of_value(s: Seq<u8>)
    requires
        s.len() == 4,
    ensures
        u32_le(u32_from_le(s)) == s,
{
    reveal(u32_le);
    reveal(u32_from_le);
    let x = u32_from_le(s);
    let b0 = s[0] as u32;
    let b1 = s[1] as u32;
    let b2 = s[2] as u32;
    let b3 = s[3] as u32;
    assert(x % 256 == b0 && (x / 0x100) % 256 == b1 && (x / 0x1_0000) % 256 == b2 && x
        / 0x100_0000 == b3) by (bit_vector)
        requires
            b0 < 256,
            b1 < 256,
            b2 < 256,
            b3 < 256,
            x == b0 + 0x100 * b1 + 0x1_0000 * b2 + 0x100_0000 * b3,
    ;
    assert(u32_le(x) =~= s);
}

/// Eight bytes are the eight bytes of the number they spell.
pub proof fn lemma_u64_bytes_of_value(s: Seq<u8>)
    requires
        s.len() == 8,
    ensures
        u64_le(u64_from_le(s)) == s,
{
    reveal(u64_le);
    reveal(u64_from_le);
    let x = u64_from_le(s);
    let b0 = s[0] as u64;
    let b1 = s[1] as u64;
    let b2 = s[2] as u64;
    let b3 = s[3] as u64;
    let b4 = s[4] as u64;
    let b5 = s[5] as u64;
    let b6 = s[6] as u64;
    let b7 = s[7] as u64;
    assert(x % 256 == b0 && (x / 0x100) % 256 == b1 && (x / 0x1_0000) % 256 == b2 && (x
        / 0x100_0000) % 256 == b3 && (x / 0x1_0000_0000) % 256 == b4 && (x / 0x100_0000_0000)
        % 256 == b5 && (x / 0x1_0000_0000_0000) % 256 == b6 && x / 0x100_0000_0000_0000 == b7)
        by (bit_vector)
        requires
            b0 < 256,
            b1 < 256,
            b2 < 256,
            b3 < 256,
            b4 < 256,
            b5 < 256,
            b6 < 256,
            b7 < 256,
            x == b0 + 0x100 * b1 + 0x1_0000 * b2 + 0x100_0000 * b3 + 0x1_0000_0000 * b4
                + 0x100_0000_0000 * b5 + 0x1_0000_0000_0000 * b6 + 0x100_0000_0000_0000 * b7,
    ;
    assert(u64_le(x) =~= s);
}

/// The bytes between two places are those up to a place in between, then
/// those from there on.
pub proof fn lemma_bytes_at_split(buf: Seq<u8>, pos: int, n: int, m: int)
    requires
        avail(buf, pos, n + m),
        0 <= n,
        0 <= m,
    ensures
        bytes_at(buf, pos, n + m) == bytes_at(buf, pos, n) + bytes_at(buf, pos + n, m),
{
    assert(bytes_at(buf, pos, n + m) =~= bytes_at(buf, pos, n) + bytes_at(buf, pos + n, m));
}

/// Whether `enc` stands in `buf` from `pos` up to `next`.
#[verifier::opaque]
pub open spec fn stands(buf: Seq<u8>, pos: int, next: int, enc: Seq<u8>) -> bool {
    &&& 0 <= pos
    &&& next == pos + enc.len()
    &&& next <= buf.len()
    &&& bytes_at(buf, pos, enc.len() as int) == enc
}

/// What stands in a buffer ends inside it, and is the buffer's bytes
/// between its two ends.
pub proof fn lemma_stands_means(buf: Seq<u8>, pos: int, next: int, enc: Seq<u8>)
    requires
        stands(buf, pos, next, enc),
    ensures
        0 <= pos <= next <= buf.len(),
        next == pos + enc.len(),
        buf.subrange(pos, next) == enc,
{
    reveal(stands);
}

/// The bytes of a buffer stand where they are.
pub proof fn lemma_bytes_stand(buf: Seq<u8>, pos: int, n: int)
    requires
        avail(buf, pos, n),
    ensures
        stands(buf, pos, pos + n, bytes_at(buf, pos, n)),
{
    reveal(stands);
}

/// What stands behind what stands, stands together with it.
pub proof fn lemma_stands_join(buf: Seq<u8>, pos: int, mid: int, next: int, a: Seq<u8>, b: Seq<u8>)
    requires
        stands(buf, pos, mid, a),
        stands(buf, mid, next, b),
    ensures
        stands(buf, pos, next, a + b),
{
    reveal(stands);
    assert(bytes_at(buf, pos, (a + b).len() as int) =~= a + b);
}

/// Where two bytes are, the number they spell stands written.
pub proof fn lemma_u16_stands(buf: Seq<u8>, pos: int)
    requires
        avail(buf, pos, 2),
    ensures
        stands(buf, pos, pos + 2, u16_le(u16_at(buf, pos))),
{
    reveal(stands);
    lemma_u16_bytes_of_value(bytes_at(buf, pos, 2));
}

/// Where four bytes are, the number they spell stands written.
pub proof fn lemma_u32_stands(buf: Seq<u8>, pos: int)
    requires
        avail(buf, pos, 4),
    ensures
        stands(buf, pos, pos + 4, u32_le(u32_at(buf, pos))),
{
    reveal(stands);
    lemma_u32_bytes_of_value(bytes_at(buf, pos, 4));
}

/// Where eight bytes are, the number they spell stands written.
pub proof fn lemma_u64_stands(buf: Seq<u8>, pos: int)
    requires
        avail(buf, pos, 8),
    ensures
        stands(buf, pos, pos + 8, u64_le(u64_at(buf, pos))),
{
    reveal(stands);
    lemma_u64_bytes_of_value(bytes_at(buf, pos, 8));
}

/// A buffer agrees with what stands in it.
pub proof fn lemma_stands_agrees(buf: Seq<u8>, pos: int, next: int, enc: Seq<u8>)
    requires
        stands(buf, pos, next, enc),
    ensures
        agrees(buf, pos, enc),
        pos + enc.len() <= buf.len(),
{
    reveal(stands);
    reveal(agrees);
    assert forall|i: int| 0 <= i < enc.len() && pos + i < buf.len() implies buf[pos + i]
        == #[trigger] enc[i] by {
        assert(bytes_at(buf, pos, enc.len() as int)[i] == buf[pos + i]);
    }
}

/// Two byte strings that are the same, and whose beginnings are of one
/// length, have the same beginning and the same rest.
pub proof fn lemma_same_parts(a: Seq<u8>, x: Seq<u8>, b: Seq<u8>, y: Seq<u8>)
    requires
        a + x == b + y,
        a.len() == b.len(),
    ensures
        a == b,
        x == y,
{
    let whole = a + x;
    assert(a =~= whole.subrange(0, a.len() as int));
    assert(b =~= (b + y).subrange(0, b.len() as int));
    assert(x =~= whole.subrange(a.len() as int, whole.len() as int));
    assert(y =~= (b + y).subrange(b.len() as int, (b + y).len() as int));
}

} // verus!
