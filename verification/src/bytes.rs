//! Byte-level primitives: little-endian 32-bit integers, fixed byte
//! signatures, and fixed-count integer blocks, with their encodings.
//!
//! Every decoder in this crate states its contract through the spec-level
//! encodings defined here: on success, the bytes it consumed are exactly the
//! encoding of the value it returned.

use vstd::prelude::*;
use crate::error::Fof9Error;

verus! {

/// The little-endian 4-byte encoding of a 32-bit unsigned integer.
pub open spec fn u32_le_bytes(v: u32) -> Seq<u8> {
    seq![
        (v % 256) as u8,
        ((v / 256) % 256) as u8,
        ((v / 65536) % 256) as u8,
        ((v / 16777216) % 256) as u8,
    ]
}

/// The integer denoted by four little-endian bytes.
pub open spec fn u32_of_le_bytes(b0: u8, b1: u8, b2: u8, b3: u8) -> u32 {
    (b0 + b1 * 256 + b2 * 65536 + b3 * 16777216) as u32
}

/// The two functions above are mutually inverse.
pub proof fn lemma_u32_le_roundtrip(b0: u8, b1: u8, b2: u8, b3: u8)
    ensures
        u32_le_bytes(u32_of_le_bytes(b0, b1, b2, b3)) =~= seq![b0, b1, b2, b3],
{
    let v: int = b0 + b1 * 256 + b2 * 65536 + b3 * 16777216;
    assert(0 <= v < 0x100000000);
    assert(v % 256 == b0 && (v / 256) % 256 == b1 && (v / 65536) % 256 == b2 && (v / 16777216)
        % 256 == b3) by (nonlinear_arith)
        requires
            b0 < 256 && b1 < 256 && b2 < 256 && b3 < 256,
            v == b0 + b1 * 256 + b2 * 65536 + b3 * 16777216,
    ;
}

/// The encoding of an integer determines the integer.
pub proof fn lemma_u32_le_injective(v: u32)
    ensures
        u32_of_le_bytes(
            u32_le_bytes(v)[0],
            u32_le_bytes(v)[1],
            u32_le_bytes(v)[2],
            u32_le_bytes(v)[3],
        ) == v,
{
    assert((v % 256) + ((v / 256) % 256) * 256 + ((v / 65536) % 256) * 65536 + ((v / 16777216)
        % 256) * 16777216 == v) by (nonlinear_arith)
        requires
            v < 0x100000000,
    ;
}

/// The concatenated encodings of a sequence of values, one `enc` each.
pub open spec fn encode_list<T>(items: Seq<T>, enc: spec_fn(T) -> Seq<u8>) -> Seq<u8>
    decreases items.len(),
{
    if items.len() == 0 {
        Seq::empty()
    } else {
        encode_list(items.drop_last(), enc) + enc(items.last())
    }
}

/// Appending one item appends its encoding.
pub proof fn lemma_encode_list_push<T>(items: Seq<T>, enc: spec_fn(T) -> Seq<u8>, x: T)
    ensures
        encode_list(items.push(x), enc) == encode_list(items, enc) + enc(x),
{
    let pushed = items.push(x);
    assert(pushed.drop_last() =~= items);
    assert(pushed.last() == x);
}

/// The concatenated little-endian encodings of a sequence of integers.
pub open spec fn u32s_bytes(s: Seq<u32>) -> Seq<u8> {
    encode_list(s, |x: u32| u32_le_bytes(x))
}

/// The 32-bit word stored at `pos`, read at the spec level.
pub open spec fn u32_of_prefix(bytes: Seq<u8>, pos: int) -> u32 {
    u32_of_le_bytes(bytes[pos], bytes[pos + 1], bytes[pos + 2], bytes[pos + 3])
}

/// Sequence concatenation reassociates.
pub proof fn lemma_add_assoc(x: Seq<u8>, y: Seq<u8>, z: Seq<u8>)
    ensures
        x + (y + z) == (x + y) + z,
{
    assert(x + (y + z) =~= (x + y) + z);
}

/// A byte range splits at any midpoint into the two adjacent ranges.
pub proof fn lemma_split(s: Seq<u8>, a: int, b: int, c: int)
    requires
        0 <= a <= b <= c <= s.len(),
    ensures
        s.subrange(a, c) =~= s.subrange(a, b) + s.subrange(b, c),
{
}

/// Reads one little-endian 32-bit unsigned integer.
pub fn read_u32(bytes: &Vec<u8>, pos: usize) -> (r: Result<(u32, usize), Fof9Error>)
    ensures
        r is Ok <==> pos + 4 <= bytes@.len(),
        r matches Ok((v, end)) ==> end == pos + 4 && bytes@.subrange(pos as int, end as int)
            =~= u32_le_bytes(v) && v == u32_of_prefix(bytes@, pos as int),
        r matches Err(e) ==> e == (Fof9Error::TruncatedInput { pos }),
{
    let n = bytes.len();
    if pos > n || n - pos < 4 {
        return Err(Fof9Error::TruncatedInput { pos });
    }
    let b0 = bytes[pos];
    let b1 = bytes[pos + 1];
    let b2 = bytes[pos + 2];
    let b3 = bytes[pos + 3];
    let v: u32 = b0 as u32 + (b1 as u32) * 256 + (b2 as u32) * 65536 + (b3 as u32) * 16777216;
    proof {
        lemma_u32_le_roundtrip(b0, b1, b2, b3);
    }
    Ok((v, pos + 4))
}

/// Reads one little-endian 32-bit signed integer (two's complement).
pub fn read_i32(bytes: &Vec<u8>, pos: usize) -> (r: Result<(i32, usize), Fof9Error>)
    ensures
        r is Ok <==> pos + 4 <= bytes@.len(),
        r matches Ok((v, end)) ==> end == pos + 4 && bytes@.subrange(pos as int, end as int)
            =~= u32_le_bytes(v as u32),
        r matches Err(e) ==> e == (Fof9Error::TruncatedInput { pos }),
{
    match read_u32(bytes, pos) {
        Ok((v, end)) => {
            let s: i32 = v as i32;
            proof {
                assert(s as u32 == v) by (bit_vector)
                    requires
                        s == v as i32,
                ;
            }
            Ok((s, end))
        },
        Err(e) => Err(e),
    }
}

/// Appends the little-endian encoding of one integer.
pub fn push_u32(out: &mut Vec<u8>, v: u32)
    ensures
        final(out)@ =~= old(out)@ + u32_le_bytes(v),
{
    out.push((v % 256) as u8);
    out.push(((v / 256) % 256) as u8);
    out.push(((v / 65536) % 256) as u8);
    out.push(((v / 16777216) % 256) as u8);
}

/// Reads a fixed-count block of little-endian 32-bit integers.
pub fn read_u32_block(bytes: &Vec<u8>, pos: usize, count: usize) -> (r: Result<
    (Vec<u32>, usize),
    Fof9Error,
>)
    ensures
        r is Ok <==> pos + 4 * count <= bytes@.len(),
        r matches Ok((v, end)) ==> v@.len() == count && end == pos + 4 * count
            && bytes@.subrange(pos as int, end as int) =~= u32s_bytes(v@) && forall|i: int|
            0 <= i < count ==> v@[i] == u32_of_prefix(bytes@, pos + 4 * i),
        r matches Err(e) ==> e == (Fof9Error::TruncatedInput { pos }),
{
    let n = bytes.len();
    if pos > n || count > (n - pos) / 4 {
        proof {
            assert(pos <= n && count > ((n - pos) / 4) as int ==> pos + 4 * count > n)
                by (nonlinear_arith);
        }
        return Err(Fof9Error::TruncatedInput { pos });
    }
    proof {
        assert(count <= ((n - pos) / 4) as int ==> pos + 4 * count <= n) by (nonlinear_arith);
    }
    let mut items: Vec<u32> = Vec::new();
    let mut cur: usize = pos;
    let mut i: usize = 0;
    while i < count
        invariant
            i == items@.len() <= count,
            cur == pos + 4 * i,
            pos + 4 * count <= bytes@.len(),
            bytes@.subrange(pos as int, cur as int) =~= u32s_bytes(items@),
        decreases count - i,
    {
        let (v, next) = match read_u32(bytes, cur) {
            Ok(p) => p,
            Err(_) => {
                proof {
                    assert(false);
                }
                return Err(Fof9Error::TruncatedInput { pos });
            },
        };
        proof {
            lemma_encode_list_push(items@, |x: u32| u32_le_bytes(x), v);
            assert(bytes@.subrange(pos as int, next as int) =~= bytes@.subrange(
                pos as int,
                cur as int,
            ) + bytes@.subrange(cur as int, next as int));
        }
        items.push(v);
        cur = next;
        i = i + 1;
    }
    proof {
        lemma_u32s_prefix(bytes@, pos as int, items@);
    }
    Ok((items, cur))
}

/// Appends the encodings of a block of integers.
pub fn push_u32_block(out: &mut Vec<u8>, block: &Vec<u32>)
    ensures
        final(out)@ =~= old(out)@ + u32s_bytes(block@),
{
    let mut i: usize = 0;
    while i < block.len()
        invariant
            i <= block@.len(),
            out@ =~= old(out)@ + u32s_bytes(block@.subrange(0, i as int)),
        decreases block@.len() - i,
    {
        proof {
            lemma_encode_list_push(
                block@.subrange(0, i as int),
                |x: u32| u32_le_bytes(x),
                block@[i as int],
            );
            assert(block@.subrange(0, i + 1 as int) =~= block@.subrange(0, i as int).push(
                block@[i as int],
            ));
        }
        push_u32(out, block[i]);
        i = i + 1;
    }
    proof {
        assert(block@.subrange(0, block@.len() as int) =~= block@);
    }
}

/// Checks that the bytes at `pos` equal the expected fixed signature.
pub fn expect_bytes(bytes: &Vec<u8>, pos: usize, expected: &Vec<u8>) -> (r: Result<
    usize,
    Fof9Error,
>)
    ensures
        r matches Ok(end) ==> end == pos + expected@.len() && bytes@.subrange(
            pos as int,
            end as int,
        ) =~= expected@,
        r is Ok <==> pos + expected@.len() <= bytes@.len() && bytes@.subrange(
            pos as int,
            pos + expected@.len(),
        ) =~= expected@,
        r matches Err(e) ==> (e matches Fof9Error::TruncatedInput { pos: p } && p == pos) || (
        e matches Fof9Error::MagicMismatch { pos: p } && p == pos),
        r matches Err(e) ==> (e is TruncatedInput <==> pos + expected@.len() > bytes@.len()),
{
    let n = bytes.len();
    let m = expected.len();
    if pos > n || n - pos < m {
        return Err(Fof9Error::TruncatedInput { pos });
    }
    let mut i: usize = 0;
    while i < m
        invariant
            i <= m == expected@.len(),
            pos + m <= n == bytes@.len(),
            forall|j: int| 0 <= j < i ==> bytes@[pos + j] == expected@[j],
        decreases m - i,
    {
        if bytes[pos + i] != expected[i] {
            return Err(Fof9Error::MagicMismatch { pos });
        }
        i = i + 1;
    }
    Ok(pos + m)
}

/// A two-element sequence is the literal of its elements.
pub proof fn lemma_u32x2(s: Seq<u32>)
    requires
        s.len() == 2,
    ensures
        s == seq![s[0], s[1]],
{
    assert(s =~= seq![s[0], s[1]]);
}

/// A three-element sequence is the literal of its named elements.
pub proof fn lemma_u32x3(s: Seq<u32>, a0: u32, a1: u32, a2: u32)
    requires
        s.len() == 3,
        s[0] == a0 && s[1] == a1 && s[2] == a2,
    ensures
        s == seq![a0, a1, a2],
{
    assert(s =~= seq![a0, a1, a2]);
}

/// A five-element sequence is the literal of its named elements.
pub proof fn lemma_u32x5(s: Seq<u32>, a0: u32, a1: u32, a2: u32, a3: u32, a4: u32)
    requires
        s.len() == 5,
        s[0] == a0 && s[1] == a1 && s[2] == a2 && s[3] == a3 && s[4] == a4,
    ensures
        s == seq![a0, a1, a2, a3, a4],
{
    assert(s =~= seq![a0, a1, a2, a3, a4]);
}

/// A six-element sequence is the literal of its elements.
pub proof fn lemma_u32x6(s: Seq<u32>)
    requires
        s.len() == 6,
    ensures
        s == seq![s[0], s[1], s[2], s[3], s[4], s[5]],
{
    assert(s =~= seq![s[0], s[1], s[2], s[3], s[4], s[5]]);
}

/// A nine-element sequence is the literal of its elements.
pub proof fn lemma_u32x9(s: Seq<u32>)
    requires
        s.len() == 9,
    ensures
        s == seq![s[0], s[1], s[2], s[3], s[4], s[5], s[6], s[7], s[8]],
{
    assert(s =~= seq![s[0], s[1], s[2], s[3], s[4], s[5], s[6], s[7], s[8]]);
}

/// A thirteen-element sequence is the literal of its named elements.
pub proof fn lemma_u32x13(
    s: Seq<u32>,
    a0: u32,
    a1: u32,
    a2: u32,
    a3: u32,
    a4: u32,
    a5: u32,
    a6: u32,
    a7: u32,
    a8: u32,
    a9: u32,
    a10: u32,
    a11: u32,
    a12: u32,
)
    requires
        s.len() == 13,
        s[0] == a0 && s[1] == a1 && s[2] == a2 && s[3] == a3 && s[4] == a4 && s[5] == a5 && s[6]
            == a6 && s[7] == a7 && s[8] == a8 && s[9] == a9 && s[10] == a10 && s[11] == a11 && s[12]
            == a12,
    ensures
        s == seq![a0, a1, a2, a3, a4, a5, a6, a7, a8, a9, a10, a11, a12],
{
    assert(s =~= seq![a0, a1, a2, a3, a4, a5, a6, a7, a8, a9, a10, a11, a12]);
}

/// A region equal to the encoding of an integer stores that integer as its
/// prefix word.
pub proof fn lemma_prefix_of(b: Seq<u8>, p: int, x: u32)
    requires
        0 <= p,
        p + 4 <= b.len(),
        b.subrange(p, p + 4) == u32_le_bytes(x),
    ensures
        u32_of_prefix(b, p) == x,
{
    assert(b[p] == u32_le_bytes(x)[0]);
    assert(b[p + 1] == u32_le_bytes(x)[1]);
    assert(b[p + 2] == u32_le_bytes(x)[2]);
    assert(b[p + 3] == u32_le_bytes(x)[3]);
    lemma_u32_le_injective(x);
}

/// A region equal to the encoding of a block stores each of its integers
/// as the prefix word of its slot.
pub proof fn lemma_u32s_prefix(b: Seq<u8>, pos: int, w: Seq<u32>)
    requires
        0 <= pos,
        pos + 4 * w.len() <= b.len(),
        b.subrange(pos, pos + 4 * w.len()) == u32s_bytes(w),
    ensures
        forall|i: int| 0 <= i < w.len() ==> u32_of_prefix(b, pos + 4 * i) == w[i],
    decreases w.len(),
{
    if w.len() > 0 {
        let head = w.drop_last();
        let whole = u32s_bytes(head) + u32_le_bytes(w.last());
        let tail_at = pos + 4 * head.len();
        assert(u32s_bytes(w) == whole);
        lemma_u32s_len(head);
        lemma_u32s_len(w);
        assert forall|j: int| 0 <= j < 4 * head.len() implies b[pos + j] == u32s_bytes(head)[j] by {
            assert(b.subrange(pos, pos + 4 * w.len())[j] == whole[j]);
        }
        assert(b.subrange(pos, tail_at) =~= u32s_bytes(head));
        assert forall|j: int| 0 <= j < 4 implies b[tail_at + j] == u32_le_bytes(w.last())[j] by {
            assert(b.subrange(pos, pos + 4 * w.len())[4 * head.len() + j] == whole[4 * head.len()
                + j]);
        }
        assert(b.subrange(tail_at, tail_at + 4) =~= u32_le_bytes(w.last()));
        lemma_u32s_prefix(b, pos, head);
        lemma_prefix_of(b, tail_at, w.last());
        assert forall|i: int| 0 <= i < w.len() implies u32_of_prefix(b, pos + 4 * i) == w[i] by {
            if i < head.len() {
                assert(u32_of_prefix(b, pos + 4 * i) == head[i]);
            }
        }
    }
}

/// A block of `n` integers occupies `4 * n` bytes.
pub proof fn lemma_u32s_len(s: Seq<u32>)
    ensures
        u32s_bytes(s).len() == 4 * s.len(),
    decreases s.len(),
{
    if s.len() > 0 {
        lemma_u32s_len(s.drop_last());
    }
}

} // verus!
