//! Fixed-width integers as bytes, little and big end first.

use vstd::prelude::*;

verus! {

pub open spec fn le16(x: u16) -> Seq<u8> {
    seq![(x % 256) as u8, (x / 256) as u8]
}

pub open spec fn be16(x: u16) -> Seq<u8> {
    seq![(x / 256) as u8, (x % 256) as u8]
}

#[verifier::opaque]
pub open spec fn le32(x: u32) -> Seq<u8> {
    seq![
        (x % 256) as u8,
        (x / 0x100 % 256) as u8,
        (x / 0x1_0000 % 256) as u8,
        (x / 0x100_0000) as u8,
    ]
}

pub open spec fn be32(x: u32) -> Seq<u8> {
    seq![
        (x / 0x100_0000) as u8,
        (x / 0x1_0000 % 256) as u8,
        (x / 0x100 % 256) as u8,
        (x % 256) as u8,
    ]
}

/// The low word first, each word as `le32`.
#[verifier::opaque]
pub open spec fn le64(x: u64) -> Seq<u8> {
    le32((x % 0x1_0000_0000) as u32) + le32((x / 0x1_0000_0000) as u32)
}

/// The bits of `x` as an unsigned number.
pub open spec fn bits16(x: i16) -> u16 {
    if x >= 0 {
        x as u16
    } else {
        (x + 0x1_0000) as u16
    }
}

/// The number whose bits are `x`.
pub open spec fn signed16(x: u16) -> i16 {
    if x < 0x8000 {
        x as i16
    } else {
        (x - 0x1_0000) as i16
    }
}

/// The number that `le16` writes at `at`.
pub open spec fn get_le16(b: Seq<u8>, at: int) -> u16 {
    (b[at] + b[at + 1] * 256) as u16
}

pub open spec fn get_be16(b: Seq<u8>, at: int) -> u16 {
    (b[at] * 256 + b[at + 1]) as u16
}

#[verifier::opaque]
pub open spec fn get_le32(b: Seq<u8>, at: int) -> u32 {
    (b[at] + b[at + 1] * 0x100 + b[at + 2] * 0x1_0000 + b[at + 3] * 0x100_0000) as u32
}

pub open spec fn get_be32(b: Seq<u8>, at: int) -> u32 {
    (b[at] * 0x100_0000 + b[at + 1] * 0x1_0000 + b[at + 2] * 0x100 + b[at + 3]) as u32
}

#[verifier::opaque]
pub open spec fn get_le64(b: Seq<u8>, at: int) -> u64 {
    (get_le32(b, at) + get_le32(b, at + 4) * 0x1_0000_0000) as u64
}

pub fn push_le16(out: &mut Vec<u8>, x: u16)
    ensures
        final(out)@ == old(out)@ + le16(x),
{
    out.push((x % 256) as u8);
    out.push((x / 256) as u8);
    assert(out@ =~= old(out)@ + le16(x));
}

pub fn push_be16(out: &mut Vec<u8>, x: u16)
    ensures
        final(out)@ == old(out)@ + be16(x),
{
    out.push((x / 256) as u8);
    out.push((x % 256) as u8);
    assert(out@ =~= old(out)@ + be16(x));
}

pub fn push_le32(out: &mut Vec<u8>, x: u32)
    ensures
        final(out)@ == old(out)@ + le32(x),
{
    proof {
        reveal(le32);
    }
    out.push((x % 256) as u8);
    out.push((x / 0x100 % 256) as u8);
    out.push((x / 0x1_0000 % 256) as u8);
    out.push((x / 0x100_0000) as u8);
    assert(out@ =~= old(out)@ + le32(x));
}

pub fn push_be32(out: &mut Vec<u8>, x: u32)
    ensures
        final(out)@ == old(out)@ + be32(x),
{
    out.push((x / 0x100_0000) as u8);
    out.push((x / 0x1_0000 % 256) as u8);
    out.push((x / 0x100 % 256) as u8);
    out.push((x % 256) as u8);
    assert(out@ =~= old(out)@ + be32(x));
}

pub fn push_le64(out: &mut Vec<u8>, x: u64)
    ensures
        final(out)@ == old(out)@ + le64(x),
{
    proof {
        reveal(le64);
    }
    push_le32(out, (x % 0x1_0000_0000) as u32);
    push_le32(out, (x / 0x1_0000_0000) as u32);
    assert(out@ =~= old(out)@ + le64(x));
}

pub fn push_all(out: &mut Vec<u8>, bytes: &[u8])
    ensures
        final(out)@ == old(out)@ + bytes@,
{
    out.extend_from_slice(bytes);
    assert(out@ =~= old(out)@ + bytes@);
}

pub fn read_le16(b: &[u8], at: usize) -> (x: u16)
    requires
        at + 2 <= b@.len(),
    ensures
        x == get_le16(b@, at as int),
{
    (b[at] as u16) + (b[at + 1] as u16) * 256
}

pub fn read_be16(b: &[u8], at: usize) -> (x: u16)
    requires
        at + 2 <= b@.len(),
    ensures
        x == get_be16(b@, at as int),
{
    (b[at] as u16) * 256 + (b[at + 1] as u16)
}

pub fn read_le32(b: &[u8], at: usize) -> (x: u32)
    requires
        at + 4 <= b@.len(),
    ensures
        x == get_le32(b@, at as int),
{
    proof {
        reveal(get_le32);
    }
    (b[at] as u32) + (b[at + 1] as u32) * 0x100 + (b[at + 2] as u32) * 0x1_0000 + (b[at + 3] as u32)
        * 0x100_0000
}

pub fn read_be32(b: &[u8], at: usize) -> (x: u32)
    requires
        at + 4 <= b@.len(),
    ensures
        x == get_be32(b@, at as int),
{
    (b[at] as u32) * 0x100_0000 + (b[at + 1] as u32) * 0x1_0000 + (b[at + 2] as u32) * 0x100 + (
    b[at + 3] as u32)
}

pub fn read_le64(b: &[u8], at: usize) -> (x: u64)
    requires
        at + 8 <= b@.len(),
    ensures
        x == get_le64(b@, at as int),
{
    proof {
        reveal(get_le64);
    }
    assert(at + 8 <= b.len());
    (read_le32(b, at) as u64) + (read_le32(b, at + 4) as u64) * 0x1_0000_0000
}

/// The bits of `x` as an unsigned number.
pub fn to_bits16(x: i16) -> (bits: u16)
    ensures
        bits == bits16(x),
{
    if x >= 0 {
        x as u16
    } else {
        (x as i32 + 0x1_0000) as u16
    }
}

/// The number whose bits are `x`.
pub fn from_bits16(x: u16) -> (value: i16)
    ensures
        value == signed16(x),
{
    if x < 0x8000 {
        x as i16
    } else {
        (x as i32 - 0x1_0000) as i16
    }
}

/// Reading back two bytes that were written gives the number, wherever it stands.
pub proof fn law_read_after_write_16(before: Seq<u8>, x: u16, after: Seq<u8>)
    ensures
        get_le16(before + le16(x) + after, before.len() as int) == x,
        get_be16(before + be16(x) + after, before.len() as int) == x,
{
}

/// Reading back four bytes that were written gives the number, wherever it stands.
pub proof fn law_read_after_write_32(before: Seq<u8>, x: u32, after: Seq<u8>)
    ensures
        get_le32(before + le32(x) + after, before.len() as int) == x,
        get_be32(before + be32(x) + after, before.len() as int) == x,
{
    reveal(le32);
    reveal(get_le32);
}

/// Reading back eight bytes that were written gives the number, wherever it stands.
pub proof fn law_read_after_write_64(before: Seq<u8>, x: u64, after: Seq<u8>)
    ensures
        get_le64(before + le64(x) + after, before.len() as int) == x,
{
    lemma_widths(0, x);
    let all = before + le64(x) + after;
    let at = before.len() as int;
    assert(all.subrange(at, at + 8) =~= le64(x));
    lemma_field64(all, at, x);
}

/// A signed sample survives being written as bits.
pub proof fn law_bits16(x: i16)
    ensures
        signed16(bits16(x)) == x,
{
}

/// How many bytes a number takes.
pub proof fn lemma_widths(x: u32, y: u64)
    ensures
        le32(x).len() == 4,
        le64(y).len() == 8,
{
    reveal(le32);
    reveal(le64);
}

/// A field that holds what `le32` writes is read as that.
pub proof fn lemma_field32(b: Seq<u8>, at: int, x: u32)
    requires
        0 <= at,
        at + 4 <= b.len(),
        b.subrange(at, at + 4) == le32(x),
    ensures
        get_le32(b, at) == x,
{
    reveal(le32);
    reveal(get_le32);
    let field = b.subrange(at, at + 4);
    assert(b[at] == field[0] && b[at + 1] == field[1] && b[at + 2] == field[2] && b[at + 3]
        == field[3]);
}

/// A field that holds what `le64` writes is read as that.
pub proof fn lemma_field64(b: Seq<u8>, at: int, x: u64)
    requires
        0 <= at,
        at + 8 <= b.len(),
        b.subrange(at, at + 8) == le64(x),
    ensures
        get_le64(b, at) == x,
{
    reveal(le64);
    reveal(get_le64);
    let low = (x % 0x1_0000_0000) as u32;
    let high = (x / 0x1_0000_0000) as u32;
    lemma_widths(low, x);
    lemma_widths(high, x);
    let field = b.subrange(at, at + 8);
    assert(b.subrange(at, at + 4) =~= field.take(4));
    assert(field.take(4) =~= le32(low));
    assert(b.subrange(at + 4, at + 8) =~= field.skip(4));
    assert(field.skip(4) =~= le32(high));
    lemma_field32(b, at, low);
    lemma_field32(b, at + 4, high);
}

} // verus!
