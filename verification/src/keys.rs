//! The order of the keys under which records are filed: addresses by their
//! bytes, proposals by the eight bytes of their id.

use vstd::prelude::*;
use vstd::string::StringSliceAdditionalSpecFns;
use vstd::utf8::{encode_utf8, encode_utf8_decode_utf8};

verus! {

/// Lexicographic order on byte strings: the first differing byte decides,
/// and a proper prefix comes first.
pub open spec fn bytes_lt(a: Seq<u8>, b: Seq<u8>) -> bool
    decreases a.len(),
{
    if b.len() == 0 {
        false
    } else if a.len() == 0 {
        true
    } else if a[0] != b[0] {
        a[0] < b[0]
    } else {
        bytes_lt(a.drop_first(), b.drop_first())
    }
}

/// No byte string comes before itself.
pub proof fn lemma_bytes_lt_irreflexive(a: Seq<u8>)
    ensures
        !bytes_lt(a, a),
    decreases a.len(),
{
    if a.len() > 0 {
        lemma_bytes_lt_irreflexive(a.drop_first());
    }
}

/// What comes before a byte string comes before all that it comes before.
pub proof fn lemma_bytes_lt_transitive(a: Seq<u8>, b: Seq<u8>, c: Seq<u8>)
    requires
        bytes_lt(a, b),
        bytes_lt(b, c),
    ensures
        bytes_lt(a, c),
    decreases a.len(),
{
    if a.len() > 0 && a[0] == b[0] && b[0] == c[0] {
        lemma_bytes_lt_transitive(a.drop_first(), b.drop_first(), c.drop_first());
    }
}

/// Of two different byte strings one comes before the other.
pub proof fn lemma_bytes_lt_total(a: Seq<u8>, b: Seq<u8>)
    ensures
        a == b || bytes_lt(a, b) || bytes_lt(b, a),
    decreases a.len(),
{
    if a.len() > 0 && b.len() > 0 && a[0] == b[0] {
        lemma_bytes_lt_total(a.drop_first(), b.drop_first());
        if a.drop_first() == b.drop_first() {
            assert(a =~= seq![a[0]] + a.drop_first());
            assert(b =~= seq![b[0]] + b.drop_first());
        }
    } else if a.len() == 0 && b.len() == 0 {
        assert(a =~= b);
    }
}

/// Compares two byte strings lexicographically.
pub fn bytes_less(a: &[u8], b: &[u8]) -> (r: bool)
    ensures
        r == bytes_lt(a@, b@),
{
    let mut i: usize = 0;
    assert(a@.skip(0) =~= a@ && b@.skip(0) =~= b@);
    while i < a.len() && i < b.len()
        invariant
            i <= a.len(),
            i <= b.len(),
            bytes_lt(a@, b@) == bytes_lt(a@.skip(i as int), b@.skip(i as int)),
        decreases a.len() - i,
    {
        if a[i] != b[i] {
            return a[i] < b[i];
        }
        assert(a@.skip(i as int).drop_first() =~= a@.skip(i + 1));
        assert(b@.skip(i as int).drop_first() =~= b@.skip(i + 1));
        i += 1;
    }
    i < b.len()
}

/// The order of addresses: that of their UTF-8 bytes.
pub open spec fn addr_lt(a: Seq<char>, b: Seq<char>) -> bool {
    bytes_lt(encode_utf8(a), encode_utf8(b))
}

/// Whether address `a` sorts strictly before address `b`.
pub fn addr_less(a: &String, b: &String) -> (r: bool)
    ensures
        r == addr_lt(a@, b@),
{
    bytes_less(a.as_str().as_bytes(), b.as_str().as_bytes())
}

/// The order of addresses is a strict total order.
pub proof fn lemma_addr_order(a: Seq<char>, b: Seq<char>, c: Seq<char>)
    ensures
        !addr_lt(a, a),
        addr_lt(a, b) && addr_lt(b, c) ==> addr_lt(a, c),
        a == b || addr_lt(a, b) || addr_lt(b, a),
{
    lemma_bytes_lt_irreflexive(encode_utf8(a));
    if addr_lt(a, b) && addr_lt(b, c) {
        lemma_bytes_lt_transitive(encode_utf8(a), encode_utf8(b), encode_utf8(c));
    }
    lemma_bytes_lt_total(encode_utf8(a), encode_utf8(b));
    encode_utf8_decode_utf8(a);
    encode_utf8_decode_utf8(b);
}

/// The key under which a proposal is filed: the eight bytes of its id, most
/// significant first.
pub open spec fn id_key(id: u64) -> Seq<u8> {
    seq![
        (id / 0x100_0000_0000_0000) as u8,
        (id / 0x1_0000_0000_0000 % 0x100) as u8,
        (id / 0x100_0000_0000 % 0x100) as u8,
        (id / 0x1_0000_0000 % 0x100) as u8,
        (id / 0x100_0000 % 0x100) as u8,
        (id / 0x1_0000 % 0x100) as u8,
        (id / 0x100 % 0x100) as u8,
        (id % 0x100) as u8,
    ]
}

/// The number that the first eight bytes of a key spell, most significant
/// first.
pub open spec fn key_id(key: Seq<u8>) -> int
    recommends
        key.len() >= 8,
{
    key[0] * 0x100_0000_0000_0000 + key[1] * 0x1_0000_0000_0000 + key[2] * 0x100_0000_0000
        + key[3] * 0x1_0000_0000 + key[4] * 0x100_0000 + key[5] * 0x1_0000 + key[6] * 0x100
        + key[7]
}

/// Writes the key of a proposal id.
pub fn encode_id(id: u64) -> (key: Vec<u8>)
    ensures
        key@ == id_key(id),
{
    let mut key: Vec<u8> = Vec::new();
    key.push((id / 0x100_0000_0000_0000) as u8);
    key.push((id / 0x1_0000_0000_0000 % 0x100) as u8);
    key.push((id / 0x100_0000_0000 % 0x100) as u8);
    key.push((id / 0x1_0000_0000 % 0x100) as u8);
    key.push((id / 0x100_0000 % 0x100) as u8);
    key.push((id / 0x1_0000 % 0x100) as u8);
    key.push((id / 0x100 % 0x100) as u8);
    key.push((id % 0x100) as u8);
    assert(key@ =~= id_key(id));
    key
}

/// Dividing by a power of 256 is dividing by 256 again and again.
pub proof fn lemma_shift_bytes(id: u64)
    ensures
        id / 0x1_0000 == id / 0x100 / 0x100,
        id / 0x100_0000 == id / 0x1_0000 / 0x100,
        id / 0x1_0000_0000 == id / 0x100_0000 / 0x100,
        id / 0x100_0000_0000 == id / 0x1_0000_0000 / 0x100,
        id / 0x1_0000_0000_0000 == id / 0x100_0000_0000 / 0x100,
        id / 0x100_0000_0000_0000 == id / 0x1_0000_0000_0000 / 0x100,
        id / 0x100_0000_0000_0000 < 0x100,
{
    assert(id / 0x1_0000 == id / 0x100 / 0x100);
    assert(id / 0x100_0000 == id / 0x1_0000 / 0x100);
    assert(id / 0x1_0000_0000 == id / 0x100_0000 / 0x100);
    assert(id / 0x100_0000_0000 == id / 0x1_0000_0000 / 0x100);
    assert(id / 0x1_0000_0000_0000 == id / 0x100_0000_0000 / 0x100);
    assert(id / 0x100_0000_0000_0000 == id / 0x1_0000_0000_0000 / 0x100);
}

/// A key spells the id it was written for.
pub proof fn lemma_id_key_roundtrip(id: u64)
    ensures
        id_key(id).len() == 8,
        key_id(id_key(id)) == id,
{
    lemma_shift_bytes(id);
    let q1 = id / 0x100;
    let q2 = id / 0x1_0000;
    let q3 = id / 0x100_0000;
    let q4 = id / 0x1_0000_0000;
    let q5 = id / 0x100_0000_0000;
    let q6 = id / 0x1_0000_0000_0000;
    let q7 = id / 0x100_0000_0000_0000;
    assert(id == q1 * 0x100 + id % 0x100);
    assert(q1 == q2 * 0x100 + q1 % 0x100);
    assert(q2 == q3 * 0x100 + q2 % 0x100);
    assert(q3 == q4 * 0x100 + q3 % 0x100);
    assert(q4 == q5 * 0x100 + q4 % 0x100);
    assert(q5 == q6 * 0x100 + q5 % 0x100);
    assert(q6 == q7 * 0x100 + q6 % 0x100);
}

/// One more leading byte on both sides: the order of the byte strings
/// stays the order of the numbers that they spell.
proof fn lemma_order_step(x: Seq<u8>, y: Seq<u8>, w: int, vx: int, vy: int)
    requires
        x.len() > 0,
        y.len() > 0,
        w > 0,
        0 <= vx < w,
        0 <= vy < w,
        bytes_lt(x.drop_first(), y.drop_first()) <==> vx < vy,
    ensures
        bytes_lt(x, y) <==> x[0] * w + vx < y[0] * w + vy,
        0 <= x[0] * w + vx < 256 * w,
        0 <= y[0] * w + vy < 256 * w,
{
    let a = x[0] as int;
    let b = y[0] as int;
    if a < b {
        assert(b * w - a * w >= w) by (nonlinear_arith)
            requires
                b - a >= 1,
                w > 0,
        ;
    } else if b < a {
        assert(a * w - b * w >= w) by (nonlinear_arith)
            requires
                a - b >= 1,
                w > 0,
        ;
    }
    assert(0 <= a * w && a * w + w <= 256 * w) by (nonlinear_arith)
        requires
            0 <= a <= 255,
            w > 0,
    ;
    assert(0 <= b * w && b * w + w <= 256 * w) by (nonlinear_arith)
        requires
            0 <= b <= 255,
            w > 0,
    ;
}

/// Keys of eight bytes sort as the numbers that they spell.
pub proof fn lemma_key_order(x: Seq<u8>, y: Seq<u8>)
    requires
        x.len() == 8,
        y.len() == 8,
    ensures
        bytes_lt(x, y) <==> key_id(x) < key_id(y),
{
    assert(x.skip(7).drop_first() =~= Seq::<u8>::empty());
    assert(y.skip(7).drop_first() =~= Seq::<u8>::empty());
    lemma_order_step(x.skip(7), y.skip(7), 1, 0, 0);
    let x7 = x[7] * 1 + 0;
    let y7 = y[7] * 1 + 0;

    assert(x.skip(6).drop_first() =~= x.skip(7) && y.skip(6).drop_first() =~= y.skip(7));
    lemma_order_step(x.skip(6), y.skip(6), 0x100, x7, y7);
    let x6 = x[6] * 0x100 + x7;
    let y6 = y[6] * 0x100 + y7;

    assert(x.skip(5).drop_first() =~= x.skip(6) && y.skip(5).drop_first() =~= y.skip(6));
    lemma_order_step(x.skip(5), y.skip(5), 0x1_0000, x6, y6);
    let x5 = x[5] * 0x1_0000 + x6;
    let y5 = y[5] * 0x1_0000 + y6;

    assert(x.skip(4).drop_first() =~= x.skip(5) && y.skip(4).drop_first() =~= y.skip(5));
    lemma_order_step(x.skip(4), y.skip(4), 0x100_0000, x5, y5);
    let x4 = x[4] * 0x100_0000 + x5;
    let y4 = y[4] * 0x100_0000 + y5;

    assert(x.skip(3).drop_first() =~= x.skip(4) && y.skip(3).drop_first() =~= y.skip(4));
    lemma_order_step(x.skip(3), y.skip(3), 0x1_0000_0000, x4, y4);
    let x3 = x[3] * 0x1_0000_0000 + x4;
    let y3 = y[3] * 0x1_0000_0000 + y4;

    assert(x.skip(2).drop_first() =~= x.skip(3) && y.skip(2).drop_first() =~= y.skip(3));
    lemma_order_step(x.skip(2), y.skip(2), 0x100_0000_0000, x3, y3);
    let x2 = x[2] * 0x100_0000_0000 + x3;
    let y2 = y[2] * 0x100_0000_0000 + y3;

    assert(x.skip(1).drop_first() =~= x.skip(2) && y.skip(1).drop_first() =~= y.skip(2));
    lemma_order_step(x.skip(1), y.skip(1), 0x1_0000_0000_0000, x2, y2);
    let x1 = x[1] * 0x1_0000_0000_0000 + x2;
    let y1 = y[1] * 0x1_0000_0000_0000 + y2;

    assert(x.drop_first() =~= x.skip(1) && y.drop_first() =~= y.skip(1));
    lemma_order_step(x, y, 0x100_0000_0000_0000, x1, y1);
}

} // verus!
