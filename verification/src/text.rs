//! Byte-string helpers shared by the signing pipeline.

use vstd::prelude::*;
use vstd::string::*;

verus! {

/// The bytes of a text whose characters are all ASCII.
pub open spec fn ascii(s: Seq<char>) -> Seq<u8> {
    Seq::new(s.len(), |i: int| s[i] as u8)
}

/// Copies an ASCII string into a byte vector.
pub fn ascii_bytes(s: &str) -> (res: Vec<u8>)
    requires
        is_ascii(s),
    ensures
        res@ == ascii(s@),
{
    broadcast use is_ascii_spec_bytes;
    let res = vstd::slice::slice_to_vec(s.as_bytes());
    assert(res@ =~= ascii(s@));
    res
}

/// Appends `src` to `dst`.
pub fn append(dst: &mut Vec<u8>, src: &[u8])
    ensures
        final(dst)@ == old(dst)@ + src@,
{
    let mut i: usize = 0;
    while i < src.len()
        invariant
            i <= src@.len(),
            dst@ == old(dst)@ + src@.subrange(0, i as int),
        decreases src@.len() - i,
    {
        dst.push(src[i]);
        i += 1;
        assert(dst@ =~= old(dst)@ + src@.subrange(0, i as int));
    }
    assert(src@.subrange(0, i as int) =~= src@);
}

/// Appends an ASCII string to `dst`.
pub fn append_ascii(dst: &mut Vec<u8>, s: &str)
    requires
        is_ascii(s),
    ensures
        final(dst)@ == old(dst)@ + ascii(s@),
{
    broadcast use is_ascii_spec_bytes;
    assert(s.spec_bytes() =~= ascii(s@));
    append(dst, s.as_bytes());
}

/// The place of the first `b` in `s`, or the length of `s` where it holds none.
pub open spec fn first_index(s: Seq<u8>, b: u8) -> int
    decreases s.len(),
{
    if s.len() == 0 || s[0] == b {
        0
    } else {
        1 + first_index(s.skip(1), b)
    }
}

/// `first_index` is the one place before which no `b` stands and at which
/// one does, or the text ends.
pub proof fn lemma_first_index(s: Seq<u8>, b: u8, i: int)
    requires
        0 <= i <= s.len(),
        forall|k: int| 0 <= k < i ==> s[k] != b,
        i == s.len() || s[i] == b,
    ensures
        first_index(s, b) == i,
    decreases s.len(),
{
    if s.len() > 0 && s[0] != b {
        let t = s.skip(1);
        assert forall|k: int| 0 <= k < i - 1 implies t[k] != b by {
            assert(t[k] == s[k + 1]);
        }
        lemma_first_index(t, b, i - 1);
    }
}

/// Finds the first `b` in `s`.
pub fn find_byte(s: &[u8], b: u8) -> (res: usize)
    ensures
        res == first_index(s@, b),
        res <= s@.len(),
        forall|k: int| 0 <= k < res ==> s@[k] != b,
        res == s@.len() || s@[res as int] == b,
{
    let mut i: usize = 0;
    while i < s.len() && s[i] != b
        invariant
            i <= s@.len(),
            forall|k: int| 0 <= k < i ==> s@[k] != b,
        decreases s@.len() - i,
    {
        i += 1;
    }
    proof {
        lemma_first_index(s@, b, i as int);
    }
    i
}

/// Copies the bytes of `s` from `from` up to `to`.
pub fn copy_range(s: &[u8], from: usize, to: usize) -> (res: Vec<u8>)
    requires
        from <= to <= s@.len(),
    ensures
        res@ == s@.subrange(from as int, to as int),
{
    let mut res: Vec<u8> = Vec::new();
    let mut i: usize = from;
    while i < to
        invariant
            from <= i <= to,
            to <= s@.len(),
            res@ == s@.subrange(from as int, i as int),
        decreases to - i,
    {
        res.push(s[i]);
        i += 1;
        assert(res@ =~= s@.subrange(from as int, i as int));
    }
    res
}

/// The upper-case form of an ASCII letter; any other byte is unchanged.
pub open spec fn upper_byte(b: u8) -> u8 {
    if 0x61 <= b && b <= 0x7A {
        (b - 0x20) as u8
    } else {
        b
    }
}

/// A byte string with its ASCII letters in upper case.
pub open spec fn upper(s: Seq<u8>) -> Seq<u8> {
    Seq::new(s.len(), |i: int| upper_byte(s[i]))
}

/// Upper-cases the ASCII letters of `s`.
pub fn to_upper(s: &[u8]) -> (res: Vec<u8>)
    ensures
        res@ == upper(s@),
{
    let mut res: Vec<u8> = Vec::new();
    let mut i: usize = 0;
    while i < s.len()
        invariant
            i <= s@.len(),
            res@ == upper(s@.subrange(0, i as int)),
        decreases s@.len() - i,
    {
        let b: u8 = s[i];
        let u: u8 = if 0x61 <= b && b <= 0x7A { b - 0x20 } else { b };
        res.push(u);
        i += 1;
        assert(res@ =~= upper(s@.subrange(0, i as int)));
    }
    assert(s@.subrange(0, i as int) =~= s@);
    res
}

/// The decimal digits of `n`, most significant first, without leading zeros.
pub open spec fn decimal(n: nat) -> Seq<u8>
    decreases n,
{
    if n < 10 {
        seq![(0x30 + n) as u8]
    } else {
        decimal(n / 10).push((0x30 + n % 10) as u8)
    }
}

/// Writes `n` in decimal.
pub fn to_decimal(n: u64) -> (res: Vec<u8>)
    ensures
        res@ == decimal(n as nat),
    decreases n,
{
    if n < 10 {
        let d: u8 = 0x30 + (n as u8);
        let res = vec![d];
        assert(res@ =~= decimal(n as nat));
        res
    } else {
        let mut res = to_decimal(n / 10);
        let d: u8 = 0x30 + ((n % 10) as u8);
        res.push(d);
        res
    }
}

} // verus!
