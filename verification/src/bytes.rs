use vstd::prelude::*;

verus! {

/// Byte `i` (big-endian order, `0 <= i < 8`) of a 64-bit integer.
pub open spec fn be_byte(v: u64, i: int) -> u8 {
    ((v >> (((7 - i) * 8) as u64)) & 0xff) as u8
}

/// The big-endian encoding of a 64-bit integer, most significant byte first.
pub open spec fn be_bytes(v: u64) -> Seq<u8> {
    Seq::new(8, |i: int| be_byte(v, i))
}

/// Encodes `v` as its eight big-endian bytes.
pub fn u64_be_bytes(v: u64) -> (r: Vec<u8>)
    ensures
        r@ == be_bytes(v),
{
    let mut out: Vec<u8> = Vec::new();
    let mut k: usize = 0;
    while k < 8
        invariant
            k <= 8,
            out@.len() == k,
            forall|i: int| 0 <= i < k ==> out@[i] == be_byte(v, i),
        decreases 8 - k,
    {
        let shift: u64 = (7 - k as u64) * 8;
        let b: u8 = ((v >> shift) & 0xff) as u8;
        out.push(b);
        k = k + 1;
    }
    proof {
        assert(out@ =~= be_bytes(v));
    }
    out
}

/// Byte-for-byte equality of two byte vectors.
pub fn bytes_eq(a: &Vec<u8>, b: &Vec<u8>) -> (r: bool)
    ensures
        r == (a@ == b@),
{
    if a.len() != b.len() {
        return false;
    }
    let mut i: usize = 0;
    while i < a.len()
        invariant
            i <= a@.len(),
            a@.len() == b@.len(),
            forall|j: int| 0 <= j < i ==> a@[j] == b@[j],
        decreases a@.len() - i,
    {
        if a[i] != b[i] {
            return false;
        }
        i = i + 1;
    }
    proof {
        assert(a@ =~= b@);
    }
    true
}

/// Appends every byte of `src` to `dst`, in order.
pub fn push_all(dst: &mut Vec<u8>, src: &Vec<u8>)
    ensures
        final(dst)@ == old(dst)@ + src@,
{
    let mut i: usize = 0;
    while i < src.len()
        invariant
            i <= src@.len(),
            dst@ == old(dst)@ + src@.take(i as int),
        decreases src@.len() - i,
    {
        dst.push(src[i]);
        proof {
            assert(dst@ =~= old(dst)@ + src@.take(i + 1 as int));
        }
        i = i + 1;
    }
    proof {
        assert(src@.take(src@.len() as int) =~= src@);
    }
}

/// An exact copy of a byte vector.
pub fn clone_bytes(src: &Vec<u8>) -> (r: Vec<u8>)
    ensures
        r@ == src@,
{
    let mut out: Vec<u8> = Vec::new();
    push_all(&mut out, src);
    proof {
        assert(out@ =~= src@);
    }
    out
}

/// Byte-for-byte equality of two byte slices.
pub fn slice_eq(a: &[u8], b: &[u8]) -> (r: bool)
    ensures
        r == (a@ == b@),
{
    if a.len() != b.len() {
        return false;
    }
    let mut i: usize = 0;
    while i < a.len()
        invariant
            i <= a@.len(),
            a@.len() == b@.len(),
            forall|j: int| 0 <= j < i ==> a@[j] == b@[j],
        decreases a@.len() - i,
    {
        if a[i] != b[i] {
            return false;
        }
        i = i + 1;
    }
    proof {
        assert(a@ =~= b@);
    }
    true
}

/// Character-for-character equality of two strings, decided on their UTF-8
/// bytes.
pub fn str_eq(a: &str, b: &str) -> (r: bool)
    ensures
        r == (a@ == b@),
{
    let r = slice_eq(a.as_bytes(), b.as_bytes());
    proof {
        vstd::utf8::encode_utf8_decode_utf8(a@);
        vstd::utf8::encode_utf8_decode_utf8(b@);
    }
    r
}

/// An exact copy of an optional byte vector.
pub fn clone_opt_bytes(src: &Option<Vec<u8>>) -> (r: Option<Vec<u8>>)
    ensures
        r is Some <==> src is Some,
        r is Some ==> r.unwrap()@ == src.unwrap()@,
{
    match src {
        Some(v) => Some(clone_bytes(v)),
        None => None,
    }
}

} // verus!
