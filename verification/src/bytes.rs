use vstd::prelude::*;

verus! {

/// The value of a little-endian 16-bit field with low byte `lo` and high byte `hi`.
pub open spec fn le16(lo: u8, hi: u8) -> u16 {
    (lo as int + 256 * (hi as int)) as u16
}

/// The low byte of `x`.
pub open spec fn lo8(x: u16) -> u8 {
    (x as int % 256) as u8
}

/// The high byte of `x`.
pub open spec fn hi8(x: u16) -> u8 {
    (x as int / 256) as u8
}

/// The two bytes that encode `x`, low byte first.
pub open spec fn le_bytes(x: u16) -> Seq<u8> {
    seq![lo8(x), hi8(x)]
}

/// The 16-bit field found at offset `at` of `bytes`.
pub open spec fn le16_at(bytes: Seq<u8>, at: int) -> u16
    recommends
        0 <= at,
        at + 2 <= bytes.len(),
{
    le16(bytes[at], bytes[at + 1])
}

/// Splitting a value into bytes and joining them again gives the value back.
pub proof fn lemma_le16_of_bytes(x: u16)
    ensures
        le16(lo8(x), hi8(x)) == x,
{
}

/// Joining two bytes and splitting the value gives the bytes back.
pub proof fn lemma_bytes_of_le16(lo: u8, hi: u8)
    ensures
        lo8(le16(lo, hi)) == lo,
        hi8(le16(lo, hi)) == hi,
{
}

/// Reads the little-endian 16-bit field at offset `at`.
pub fn read_u16(bytes: &[u8], at: usize) -> (r: u16)
    requires
        at + 2 <= bytes@.len(),
    ensures
        r == le16_at(bytes@, at as int),
{
    let lo: u16 = bytes[at] as u16;
    let hi: u16 = bytes[at + 1] as u16;
    lo + 256 * hi
}

/// Appends `x` to `out`, low byte first.
pub fn write_u16(out: &mut Vec<u8>, x: u16)
    ensures
        final(out)@ == old(out)@ + le_bytes(x),
{
    out.push((x % 256) as u8);
    out.push((x / 256) as u8);
    assert(out@ =~= old(out)@ + le_bytes(x));
}

/// Appends a copy of `bytes` to `out`.
pub fn append_bytes(out: &mut Vec<u8>, bytes: &[u8])
    ensures
        final(out)@ == old(out)@ + bytes@,
{
    let mut i: usize = 0;
    while i < bytes.len()
        invariant
            i <= bytes@.len(),
            out@ == old(out)@ + bytes@.subrange(0, i as int),
        decreases bytes@.len() - i,
    {
        out.push(bytes[i]);
        i = i + 1;
        assert(out@ =~= old(out)@ + bytes@.subrange(0, i as int));
    }
    assert(bytes@.subrange(0, i as int) =~= bytes@);
}

} // verus!
