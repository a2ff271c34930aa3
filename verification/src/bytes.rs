//! Big-endian byte sequences of 16-bit and 32-bit values.

use vstd::prelude::*;

verus! {

/// The two bytes of `w`, most significant first.
pub open spec fn be16(w: u16) -> Seq<u8> {
    seq![(w >> 8) as u8, (w & 0xff) as u8]
}

/// The four bytes of `v`, most significant first.
pub open spec fn be32(v: u32) -> Seq<u8> {
    seq![(v >> 24) as u8, ((v >> 16) & 0xff) as u8, ((v >> 8) & 0xff) as u8, (v & 0xff) as u8]
}

/// Appends the two bytes of `w`, most significant first.
pub fn push_be16(out: &mut Vec<u8>, w: u16)
    ensures
        final(out)@ == old(out)@ + be16(w),
{
    out.push(#[verifier::truncate] ((w >> 8) as u8));
    out.push(#[verifier::truncate] ((w & 0xff) as u8));
    assert(out@ =~= old(out)@ + be16(w));
}

/// Appends the four bytes of `v`, most significant first.
pub fn push_be32(out: &mut Vec<u8>, v: u32)
    ensures
        final(out)@ == old(out)@ + be32(v),
{
    out.push(#[verifier::truncate] ((v >> 24) as u8));
    out.push(#[verifier::truncate] (((v >> 16) & 0xff) as u8));
    out.push(#[verifier::truncate] (((v >> 8) & 0xff) as u8));
    out.push(#[verifier::truncate] ((v & 0xff) as u8));
    assert(out@ =~= old(out)@ + be32(v));
}

/// Appends a copy of `src`.
pub fn push_all(out: &mut Vec<u8>, src: &Vec<u8>)
    ensures
        final(out)@ == old(out)@ + src@,
{
    let mut i: usize = 0;
    while i < src.len()
        invariant
            i <= src.len(),
            out@ == old(out)@ + src@.subrange(0, i as int),
        decreases src.len() - i,
    {
        out.push(src[i]);
        i += 1;
        assert(out@ =~= old(out)@ + src@.subrange(0, i as int));
    }
    assert(src@.subrange(0, src.len() as int) =~= src@);
}

} // verus!
