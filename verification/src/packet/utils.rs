use vstd::prelude::*;

verus! {

/// The unsigned integer that four bytes spell in big-endian order.
pub open spec fn be_value(b: Seq<u8>) -> int
    recommends
        b.len() == 4,
{
    b[0] * 0x1000000 + b[1] * 0x10000 + b[2] * 0x100 + b[3]
}

/// The four big-endian bytes of `v` taken modulo 2^32
/// (for a negative `v` these are its two's complement bytes).
pub open spec fn be_bytes(v: int) -> Seq<u8> {
    let u = v % 0x1_0000_0000;
    seq![
        (u / 0x1000000) as u8,
        ((u / 0x10000) % 0x100) as u8,
        ((u / 0x100) % 0x100) as u8,
        (u % 0x100) as u8,
    ]
}

/// Reading an unsigned value back from its bytes gives it back modulo 2^32.
pub proof fn lemma_be_value_of_bytes(v: int)
    ensures
        be_bytes(v).len() == 4,
        be_value(be_bytes(v)) == v % 0x1_0000_0000,
{
    let u = v % 0x1_0000_0000;
    assert(0 <= u < 0x1_0000_0000);
    let b0 = u / 0x1000000;
    let b1 = (u / 0x10000) % 0x100;
    let b2 = (u / 0x100) % 0x100;
    let b3 = u % 0x100;
    assert(0 <= b0 < 0x100) by (nonlinear_arith)
        requires 0 <= u < 0x1_0000_0000, b0 == u / 0x1000000;
    assert(b0 * 0x1000000 + b1 * 0x10000 + b2 * 0x100 + b3 == u) by (nonlinear_arith)
        requires
            0 <= u,
            b0 == u / 0x1000000,
            b1 == (u / 0x10000) % 0x100,
            b2 == (u / 0x100) % 0x100,
            b3 == u % 0x100,
    ;
}

/// Bytes spell themselves back.
pub proof fn lemma_bytes_of_be_value(b: Seq<u8>)
    requires
        b.len() == 4,
    ensures
        be_bytes(be_value(b)) == b,
{
    let v = be_value(b);
    assert(0 <= v < 0x1_0000_0000);
    let b0 = b[0] as int;
    let b1 = b[1] as int;
    let b2 = b[2] as int;
    let b3 = b[3] as int;
    assert(v % 0x1_0000_0000 == v);
    assert(v / 0x1000000 == b0) by (nonlinear_arith)
        requires v == b0 * 0x1000000 + b1 * 0x10000 + b2 * 0x100 + b3,
            0 <= b0 < 0x100, 0 <= b1 < 0x100, 0 <= b2 < 0x100, 0 <= b3 < 0x100;
    assert((v / 0x10000) % 0x100 == b1) by (nonlinear_arith)
        requires v == b0 * 0x1000000 + b1 * 0x10000 + b2 * 0x100 + b3,
            0 <= b0 < 0x100, 0 <= b1 < 0x100, 0 <= b2 < 0x100, 0 <= b3 < 0x100;
    assert((v / 0x100) % 0x100 == b2) by (nonlinear_arith)
        requires v == b0 * 0x1000000 + b1 * 0x10000 + b2 * 0x100 + b3,
            0 <= b0 < 0x100, 0 <= b1 < 0x100, 0 <= b2 < 0x100, 0 <= b3 < 0x100;
    assert(v % 0x100 == b3) by (nonlinear_arith)
        requires v == b0 * 0x1000000 + b1 * 0x10000 + b2 * 0x100 + b3,
            0 <= b0 < 0x100, 0 <= b1 < 0x100, 0 <= b2 < 0x100, 0 <= b3 < 0x100;
    assert(be_bytes(v) =~= b);
}

/// The signed value whose two's complement is the unsigned value `u`.
pub open spec fn signed_of(u: int) -> int {
    if u < 0x8000_0000 { u } else { u - 0x1_0000_0000 }
}

/// Reads four bytes as a big-endian `i32`.
pub fn slice_to_i32(data: &[u8]) -> (res: i32)
    requires
        data@.len() == 4,
    ensures
        res as int == signed_of(be_value(data@)),
{
    let u = slice_to_u32(data);
    if u < 0x8000_0000 {
        u as i32
    } else {
        (u as i64 - 0x1_0000_0000i64) as i32
    }
}

/// Reads four bytes as a big-endian `u32`.
pub fn slice_to_u32(data: &[u8]) -> (res: u32)
    requires
        data@.len() == 4,
    ensures
        res as int == be_value(data@),
{
    let b0 = data[0] as u32;
    let b1 = data[1] as u32;
    let b2 = data[2] as u32;
    let b3 = data[3] as u32;
    assert(b0 * 0x1000000 + b1 * 0x10000 + b2 * 0x100 + b3 <= 0xffff_ffff) by (nonlinear_arith)
        requires b0 < 0x100, b1 < 0x100, b2 < 0x100, b3 < 0x100;
    b0 * 0x1000000 + b1 * 0x10000 + b2 * 0x100 + b3
}

/// Writes `v` (taken modulo 2^32) as four big-endian bytes.
pub fn u32_to_be(v: u32) -> (res: Vec<u8>)
    ensures
        res@ == be_bytes(v as int),
{
    let mut res: Vec<u8> = Vec::new();
    res.push((v / 0x1000000) as u8);
    res.push(((v / 0x10000) % 0x100) as u8);
    res.push(((v / 0x100) % 0x100) as u8);
    res.push((v % 0x100) as u8);
    assert(res@ =~= be_bytes(v as int));
    res
}

/// Writes an `i32` as its four big-endian two's complement bytes.
pub fn i32_to_be(v: i32) -> (res: Vec<u8>)
    ensures
        res@ == be_bytes(v as int),
{
    let u: u32 = if v >= 0 { v as u32 } else { (v as i64 + 0x1_0000_0000i64) as u32 };
    assert(u as int % 0x1_0000_0000 == v as int % 0x1_0000_0000);
    u32_to_be(u)
}

} // verus!
