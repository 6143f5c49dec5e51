//! Bit strings, and how they are cut into bytes and into five-bit codes.
//!
//! A bit string is a `Seq<bool>`. Within a byte or a code, the bit that comes
//! first in the string is the most significant one.

use vstd::prelude::*;

verus! {

/// Bit `p` of `w`, counted from the least significant.
pub open spec fn bit(w: u16, p: u16) -> bool {
    (w >> p) & 1 == 1
}

/// Bit `i` of the byte `b`, counted from the most significant.
pub open spec fn byte_bit(b: u8, i: int) -> bool {
    bit(b as u16, (7 - i) as u16)
}

/// Bit `i` of the code `k`, counted from the most significant of its five.
pub open spec fn code_bit(k: u8, i: int) -> bool {
    bit(k as u16, (4 - i) as u16)
}

/// The byte whose bits, from the most significant down, are `b0` to `b7`.
pub open spec fn byte_of(
    b0: bool,
    b1: bool,
    b2: bool,
    b3: bool,
    b4: bool,
    b5: bool,
    b6: bool,
    b7: bool,
) -> u8 {
    ((if b0 { 128int } else { 0 }) + (if b1 { 64int } else { 0 }) + (if b2 { 32int } else { 0 })
        + (if b3 { 16int } else { 0 }) + (if b4 { 8int } else { 0 }) + (if b5 { 4int } else { 0 })
        + (if b6 { 2int } else { 0 }) + (if b7 { 1int } else { 0 })) as u8
}

/// The code whose bits, from the most significant down, are `b0` to `b4`.
pub open spec fn code_of_bits(b0: bool, b1: bool, b2: bool, b3: bool, b4: bool) -> u8 {
    ((if b0 { 16int } else { 0 }) + (if b1 { 8int } else { 0 }) + (if b2 { 4int } else { 0 }) + (
    if b3 { 2int } else { 0 }) + (if b4 { 1int } else { 0 })) as u8
}

/// Bit `i` of a bit string, read as unset past its end.
pub open spec fn stream_bit(bits: Seq<bool>, i: int) -> bool {
    0 <= i < bits.len() && bits[i]
}

/// The bits of `bytes`, byte after byte, each from its most significant bit.
pub open spec fn bytes_bits(bytes: Seq<u8>) -> Seq<bool> {
    Seq::new(8 * bytes.len(), |i: int| byte_bit(bytes[i / 8], i % 8))
}

/// The bits of `codes`, code after code, five bits each from the most
/// significant.
pub open spec fn codes_bits(codes: Seq<u8>) -> Seq<bool> {
    Seq::new(5 * codes.len(), |i: int| code_bit(codes[i / 5], i % 5))
}

/// Byte `j` of a packed bit string: bits `8 * j` to `8 * j + 7`, with unset
/// bits where the string has ended.
pub open spec fn packed_byte(bits: Seq<bool>, j: int) -> u8 {
    byte_of(
        stream_bit(bits, 8 * j),
        stream_bit(bits, 8 * j + 1),
        stream_bit(bits, 8 * j + 2),
        stream_bit(bits, 8 * j + 3),
        stream_bit(bits, 8 * j + 4),
        stream_bit(bits, 8 * j + 5),
        stream_bit(bits, 8 * j + 6),
        stream_bit(bits, 8 * j + 7),
    )
}

/// The bytes that hold a bit string: as many as it takes, the last one filled
/// up with unset bits.
pub open spec fn pack_bits(bits: Seq<bool>) -> Seq<u8> {
    Seq::new(((bits.len() + 7) / 8) as nat, |j: int| packed_byte(bits, j))
}

/// Code `j` of a bit string: bits `5 * j` to `5 * j + 4`.
pub open spec fn group_code(bits: Seq<bool>, j: int) -> u8 {
    code_of_bits(
        stream_bit(bits, 5 * j),
        stream_bit(bits, 5 * j + 1),
        stream_bit(bits, 5 * j + 2),
        stream_bit(bits, 5 * j + 3),
        stream_bit(bits, 5 * j + 4),
    )
}

/// The codes that a bit string holds: one for each full group of five bits.
/// Up to four bits at the end belong to no group and are left out.
pub open spec fn group_bits(bits: Seq<bool>) -> Seq<u8> {
    Seq::new((bits.len() / 5) as nat, |j: int| group_code(bits, j))
}

/// How many unset bits packing adds to a string of `len` bits.
pub open spec fn padding(len: nat) -> nat {
    ((8 - len % 8) % 8) as nat
}

/// A string of `n` unset bits.
pub open spec fn zero_bits(n: nat) -> Seq<bool> {
    Seq::new(n, |i: int| false)
}

/// Bit `k` of the `n` bits that wait in `w`: the bit that entered first is the
/// highest of them.
pub open spec fn pending_bit(w: u16, n: int, k: int) -> bool {
    bit(w, (n - 1 - k) as u16)
}

/// The `n` low bits of `w` are the bits of `stream` from `start` on, and `w`
/// has no other bit set.
pub open spec fn holds_bits(w: u16, n: int, stream: Seq<bool>, start: int) -> bool {
    &&& 0 <= n < 16
    &&& w >> (n as u16) == 0
    &&& forall|k: int| 0 <= k < n ==> #[trigger] pending_bit(w, n, k) == stream_bit(stream, start + k)
}

/// A byte is made of its eight bits.
proof fn lemma_byte_parts(x: u8)
    by (bit_vector)
    ensures
        x == byte_of(
            bit(x as u16, 7),
            bit(x as u16, 6),
            bit(x as u16, 5),
            bit(x as u16, 4),
            bit(x as u16, 3),
            bit(x as u16, 2),
            bit(x as u16, 1),
            bit(x as u16, 0),
        ),
{
}

/// A code is made of its five bits.
proof fn lemma_code_parts(k: u8)
    by (bit_vector)
    requires
        k < 32,
    ensures
        k == code_of_bits(
            bit(k as u16, 4),
            bit(k as u16, 3),
            bit(k as u16, 2),
            bit(k as u16, 1),
            bit(k as u16, 0),
        ),
{
}

/// The bits of a byte made of eight bits are those eight.
proof fn lemma_bits_of_byte(
    b0: bool,
    b1: bool,
    b2: bool,
    b3: bool,
    b4: bool,
    b5: bool,
    b6: bool,
    b7: bool,
)
    by (bit_vector)
    ensures
        bit(byte_of(b0, b1, b2, b3, b4, b5, b6, b7) as u16, 7) == b0,
        bit(byte_of(b0, b1, b2, b3, b4, b5, b6, b7) as u16, 6) == b1,
        bit(byte_of(b0, b1, b2, b3, b4, b5, b6, b7) as u16, 5) == b2,
        bit(byte_of(b0, b1, b2, b3, b4, b5, b6, b7) as u16, 4) == b3,
        bit(byte_of(b0, b1, b2, b3, b4, b5, b6, b7) as u16, 3) == b4,
        bit(byte_of(b0, b1, b2, b3, b4, b5, b6, b7) as u16, 2) == b5,
        bit(byte_of(b0, b1, b2, b3, b4, b5, b6, b7) as u16, 1) == b6,
        bit(byte_of(b0, b1, b2, b3, b4, b5, b6, b7) as u16, 0) == b7,
{
}

/// After `w` has moved up by `m` places and `c` has come in below, the low
/// `m` bits are those of `c` and the bits above are those of `w`.
proof fn lemma_push_bit(w: u16, n: u16, c: u16, m: u16, p: u16)
    by (bit_vector)
    requires
        n <= 8,
        m <= 8,
        w >> n == 0,
        c >> m == 0,
        p < 16,
    ensures
        bit((w << m) | c, p) == (if p < m {
            bit(c, p)
        } else {
            bit(w, (p - m) as u16)
        }),
        ((w << m) | c) >> ((n + m) as u16) == 0,
{
}

/// The top `m` of the `n` bits of `w`, moved down to the bottom.
proof fn lemma_top_bit(w: u16, n: u16, m: u16, p: u16)
    by (bit_vector)
    requires
        m <= n < 16,
        w >> n == 0,
        p < 16,
    ensures
        bit(w >> ((n - m) as u16), p) == (p < m && bit(w, (n - m + p) as u16)),
        (w >> ((n - m) as u16)) >> m == 0,
{
}

/// Masking keeps the low `r` bits of `w` and clears the others.
proof fn lemma_low_bit(w: u16, r: u16, p: u16)
    by (bit_vector)
    requires
        r < 16,
        p < 16,
    ensures
        (1u16 << r) >= 1,
        bit(w & (((1u16 << r) - 1) as u16), p) == (p < r && bit(w, p)),
        (w & (((1u16 << r) - 1) as u16)) >> r == 0,
{
}

/// The `n` bits of `w`, moved up so that they are the top bits of a byte.
proof fn lemma_last_bit(w: u16, n: u16, p: u16)
    by (bit_vector)
    requires
        0 < n < 8,
        w >> n == 0,
        p < 8,
    ensures
        (w << ((8 - n) as u16)) < 256,
        bit(w << ((8 - n) as u16), p) == (p >= 8 - n && bit(w, (p - (8 - n)) as u16)),
{
}

/// Narrowing a word of at most eight bits to a byte loses nothing.
pub proof fn lemma_fits_byte(v: u16)
    by (bit_vector)
    requires
        v >> 8 == 0,
    ensures
        v < 256,
        (v as u8) as u16 == v,
{
}

/// A word of at most five bits is a code, and masking it changes nothing.
pub proof fn lemma_fits_code(v: u16)
    by (bit_vector)
    requires
        v >> 5 == 0,
    ensures
        v < 32,
        v & 0x1F == v,
{
}

/// A byte widened to a word has eight bits at most, and a code five.
proof fn lemma_wide(x: u8)
    by (bit_vector)
    ensures
        (x as u16) >> 8 == 0,
        x < 32 ==> (x as u16) >> 5 == 0,
{
}

/// Nothing waits in an empty word.
pub proof fn lemma_holds_none(stream: Seq<bool>, start: int)
    ensures
        holds_bits(0, 0, stream, start),
{
    assert(0u16 >> 0u16 == 0) by (bit_vector);
}

/// Pushing the `m` bits of `c` in below the `n` bits that wait in `w` gives a
/// word in which `n + m` bits wait.
pub proof fn lemma_holds_push(w: u16, n: int, stream: Seq<bool>, start: int, c: u16, m: int)
    requires
        holds_bits(w, n, stream, start),
        n <= 8,
        0 <= m <= 8,
        n + m < 16,
        c >> (m as u16) == 0,
        forall|k: int| 0 <= k < m ==> #[trigger] pending_bit(c, m, k) == stream_bit(stream, start + n + k),
    ensures
        holds_bits((w << (m as u16)) | c, n + m, stream, start),
{
    let v = (w << (m as u16)) | c;
    lemma_push_bit(w, n as u16, c, m as u16, 0);
    assert(((n as u16) + (m as u16)) as u16 == (n + m) as u16);
    assert(v >> ((n + m) as u16) == 0);
    assert forall|k: int| 0 <= k < n + m implies #[trigger] pending_bit(v, n + m, k) == stream_bit(
        stream,
        start + k,
    ) by {
        let p = (n + m - 1 - k) as u16;
        lemma_push_bit(w, n as u16, c, m as u16, p);
        if k < n {
            assert(pending_bit(w, n, k) == stream_bit(stream, start + k));
            assert((p - m) as u16 == (n - 1 - k) as u16);
        } else {
            assert(pending_bit(c, m, k - n) == stream_bit(stream, start + n + (k - n)));
            assert(p == (m - 1 - (k - n)) as u16);
        }
    }
}

/// The `m` bits that have waited longest in `w` are its top ones; taking them
/// out leaves the other `n - m`.
pub proof fn lemma_holds_take(w: u16, n: int, m: int, stream: Seq<bool>, start: int)
    requires
        holds_bits(w, n, stream, start),
        0 <= m <= n,
    ensures
        (w >> ((n - m) as u16)) >> (m as u16) == 0,
        forall|k: int|
            0 <= k < m ==> #[trigger] pending_bit(w >> ((n - m) as u16), m, k) == stream_bit(
                stream,
                start + k,
            ),
        (1u16 << ((n - m) as u16)) >= 1,
        holds_bits(w & (((1u16 << ((n - m) as u16)) - 1) as u16), n - m, stream, start + m),
{
    let top = w >> ((n - m) as u16);
    lemma_top_bit(w, n as u16, m as u16, 0);
    assert forall|k: int| 0 <= k < m implies #[trigger] pending_bit(top, m, k) == stream_bit(
        stream,
        start + k,
    ) by {
        let p = (m - 1 - k) as u16;
        lemma_top_bit(w, n as u16, m as u16, p);
        assert(pending_bit(w, n, k) == stream_bit(stream, start + k));
        assert((n - m + p) as u16 == (n - 1 - k) as u16);
    }
    let r = (n - m) as u16;
    let rest = w & (((1u16 << r) - 1) as u16);
    lemma_low_bit(w, r, 0);
    assert forall|k: int| 0 <= k < n - m implies #[trigger] pending_bit(rest, n - m, k)
        == stream_bit(stream, start + m + k) by {
        let p = (n - m - 1 - k) as u16;
        lemma_low_bit(w, r, p);
        assert(pending_bit(w, n, m + k) == stream_bit(stream, start + m + k));
        assert(p == (n - 1 - (m + k)) as u16);
    }
}

/// A byte whose eight bits are those of `stream` from `8 * j` on is byte `j`
/// of the packed stream.
pub proof fn lemma_byte_matches(x: u8, stream: Seq<bool>, j: int)
    requires
        forall|k: int| 0 <= k < 8 ==> #[trigger] pending_bit(x as u16, 8, k) == stream_bit(stream, 8 * j + k),
    ensures
        x == packed_byte(stream, j),
{
    lemma_byte_parts(x);
    assert(pending_bit(x as u16, 8, 0) == stream_bit(stream, 8 * j + 0));
    assert(pending_bit(x as u16, 8, 1) == stream_bit(stream, 8 * j + 1));
    assert(pending_bit(x as u16, 8, 2) == stream_bit(stream, 8 * j + 2));
    assert(pending_bit(x as u16, 8, 3) == stream_bit(stream, 8 * j + 3));
    assert(pending_bit(x as u16, 8, 4) == stream_bit(stream, 8 * j + 4));
    assert(pending_bit(x as u16, 8, 5) == stream_bit(stream, 8 * j + 5));
    assert(pending_bit(x as u16, 8, 6) == stream_bit(stream, 8 * j + 6));
    assert(pending_bit(x as u16, 8, 7) == stream_bit(stream, 8 * j + 7));
}

/// A code whose five bits are those of `stream` from `5 * j` on is code `j`
/// of the stream.
pub proof fn lemma_code_matches(x: u8, stream: Seq<bool>, j: int)
    requires
        x < 32,
        forall|k: int| 0 <= k < 5 ==> #[trigger] pending_bit(x as u16, 5, k) == stream_bit(stream, 5 * j + k),
    ensures
        x == group_code(stream, j),
{
    lemma_code_parts(x);
    assert(pending_bit(x as u16, 5, 0) == stream_bit(stream, 5 * j + 0));
    assert(pending_bit(x as u16, 5, 1) == stream_bit(stream, 5 * j + 1));
    assert(pending_bit(x as u16, 5, 2) == stream_bit(stream, 5 * j + 2));
    assert(pending_bit(x as u16, 5, 3) == stream_bit(stream, 5 * j + 3));
    assert(pending_bit(x as u16, 5, 4) == stream_bit(stream, 5 * j + 4));
}

/// The bits of code `i` are bits `5 * i` to `5 * i + 4` of the codes' bit
/// string.
pub proof fn lemma_code_in_stream(codes: Seq<u8>, i: int)
    requires
        0 <= i < codes.len(),
        codes[i] < 32,
    ensures
        (codes[i] as u16) >> 5 == 0,
        forall|k: int|
            0 <= k < 5 ==> #[trigger] pending_bit(codes[i] as u16, 5, k) == stream_bit(
                codes_bits(codes),
                5 * i + k,
            ),
{
    lemma_wide(codes[i]);
    assert forall|k: int| 0 <= k < 5 implies #[trigger] pending_bit(codes[i] as u16, 5, k)
        == stream_bit(codes_bits(codes), 5 * i + k) by {
        assert((5 * i + k) / 5 == i);
        assert((5 * i + k) % 5 == k);
    }
}

/// The bits of byte `i` are bits `8 * i` to `8 * i + 7` of the bytes' bit
/// string.
pub proof fn lemma_byte_in_stream(bytes: Seq<u8>, i: int)
    requires
        0 <= i < bytes.len(),
    ensures
        (bytes[i] as u16) >> 8 == 0,
        forall|k: int|
            0 <= k < 8 ==> #[trigger] pending_bit(bytes[i] as u16, 8, k) == stream_bit(
                bytes_bits(bytes),
                8 * i + k,
            ),
{
    lemma_wide(bytes[i]);
    assert forall|k: int| 0 <= k < 8 implies #[trigger] pending_bit(bytes[i] as u16, 8, k)
        == stream_bit(bytes_bits(bytes), 8 * i + k) by {
        assert((8 * i + k) / 8 == i);
        assert((8 * i + k) % 8 == k);
    }
}

/// The last byte of a packed stream: the `n` bits that wait, moved up to the
/// top of the byte.
pub proof fn lemma_holds_last(w: u16, n: int, stream: Seq<bool>, j: int)
    requires
        holds_bits(w, n, stream, 8 * j),
        0 < n < 8,
        stream.len() == 8 * j + n,
    ensures
        (w << ((8 - n) as u16)) < 256,
        (w << ((8 - n) as u16)) as u8 == packed_byte(stream, j),
{
    let v = w << ((8 - n) as u16);
    lemma_last_bit(w, n as u16, 0);
    let x = v as u8;
    assert(x as u16 == v);
    assert forall|k: int| 0 <= k < 8 implies #[trigger] pending_bit(x as u16, 8, k) == stream_bit(
        stream,
        8 * j + k,
    ) by {
        let p = (7 - k) as u16;
        lemma_last_bit(w, n as u16, p);
        if k < n {
            assert(pending_bit(w, n, k) == stream_bit(stream, 8 * j + k));
            assert((p - (8 - n)) as u16 == (n - 1 - k) as u16);
        }
    }
    lemma_byte_matches(x, stream, j);
}

/// Bit `r` of a byte made of eight bits is the bit that was put there.
proof fn lemma_bit_of_byte(
    b0: bool,
    b1: bool,
    b2: bool,
    b3: bool,
    b4: bool,
    b5: bool,
    b6: bool,
    b7: bool,
    r: int,
)
    requires
        0 <= r < 8,
    ensures
        byte_bit(byte_of(b0, b1, b2, b3, b4, b5, b6, b7), r) == (if r == 0 {
            b0
        } else if r == 1 {
            b1
        } else if r == 2 {
            b2
        } else if r == 3 {
            b3
        } else if r == 4 {
            b4
        } else if r == 5 {
            b5
        } else if r == 6 {
            b6
        } else {
            b7
        }),
{
    lemma_bits_of_byte(b0, b1, b2, b3, b4, b5, b6, b7);
}

/// The bits of a packed bit string are the string itself, followed by the
/// unset bits that filled the last byte.
pub proof fn lemma_unpack_pack(bits: Seq<bool>)
    ensures
        bytes_bits(pack_bits(bits)) == bits + zero_bits(padding(bits.len())),
        padding(bits.len()) < 8,
{
    let packed = pack_bits(bits);
    let left = bytes_bits(packed);
    let right = bits + zero_bits(padding(bits.len()));
    assert(left.len() == right.len());
    assert forall|i: int| 0 <= i < left.len() implies left[i] == right[i] by {
        let j = i / 8;
        let r = i % 8;
        assert(packed[j] == packed_byte(bits, j));
        lemma_bit_of_byte(
            stream_bit(bits, 8 * j),
            stream_bit(bits, 8 * j + 1),
            stream_bit(bits, 8 * j + 2),
            stream_bit(bits, 8 * j + 3),
            stream_bit(bits, 8 * j + 4),
            stream_bit(bits, 8 * j + 5),
            stream_bit(bits, 8 * j + 6),
            stream_bit(bits, 8 * j + 7),
            r,
        );
        assert(left[i] == stream_bit(bits, 8 * j + r));
    }
    assert(left =~= right);
}

/// Cutting the bits of a sequence of codes into groups of five gives the
/// codes back, whatever stands behind them: each group of five unset bits
/// there gives one more code, which is zero.
pub proof fn lemma_group_codes(codes: Seq<u8>, extra: nat)
    requires
        forall|i: int| 0 <= i < codes.len() ==> codes[i] < 32,
    ensures
        group_bits(codes_bits(codes) + zero_bits(extra)) == codes + Seq::new(
            extra / 5,
            |j: int| 0u8,
        ),
{
    let stream = codes_bits(codes) + zero_bits(extra);
    let left = group_bits(stream);
    let right = codes + Seq::new(extra / 5, |j: int| 0u8);
    assert(left.len() == right.len());
    assert forall|j: int| 0 <= j < left.len() implies left[j] == right[j] by {
        if j < codes.len() {
            lemma_code_in_stream(codes, j);
            assert forall|k: int| 0 <= k < 5 implies #[trigger] pending_bit(codes[j] as u16, 5, k)
                == stream_bit(stream, 5 * j + k) by {
                assert(stream[5 * j + k] == codes_bits(codes)[5 * j + k]);
            }
            lemma_code_matches(codes[j], stream, j);
        } else {
            assert(!stream_bit(stream, 5 * j));
            assert(!stream_bit(stream, 5 * j + 1));
            assert(!stream_bit(stream, 5 * j + 2));
            assert(!stream_bit(stream, 5 * j + 3));
            assert(!stream_bit(stream, 5 * j + 4));
            assert(code_of_bits(false, false, false, false, false) == 0);
        }
    }
    assert(left =~= right);
}

} // verus!
