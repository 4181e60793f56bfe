//! Fixed-width integer decoding and byte-pattern search over raw sectors.
use vstd::prelude::*;
use crate::text::occurs_at;

verus! {

/// Little-endian unsigned value of a byte sequence of any length.
pub open spec fn le_uint(s: Seq<u8>) -> nat
    decreases s.len(),
{
    if s.len() == 0 {
        0
    } else {
        s[0] as nat + 256 * le_uint(s.drop_first())
    }
}

/// Big-endian unsigned value of a byte sequence of any length.
pub open spec fn be_uint(s: Seq<u8>) -> nat
    decreases s.len(),
{
    if s.len() == 0 {
        0
    } else {
        be_uint(s.drop_last()) * 256 + s.last() as nat
    }
}

/// `256^n`.
pub open spec fn pow256(n: nat) -> nat
    decreases n,
{
    if n == 0 { 1 } else { 256 * pow256((n - 1) as nat) }
}

/// The `n` bytes of `s` starting at `off`.
pub open spec fn field(s: Seq<u8>, off: int, n: int) -> Seq<u8> {
    s.subrange(off, off + n)
}

/// The bytes `s[off..off + n]` exist.
pub open spec fn has_field(s: Seq<u8>, off: int, n: int) -> bool {
    0 <= off && off + n <= s.len()
}

pub open spec fn le_at(s: Seq<u8>, off: int, n: int) -> nat {
    le_uint(field(s, off, n))
}

pub open spec fn be_at(s: Seq<u8>, off: int, n: int) -> nat {
    be_uint(field(s, off, n))
}

pub proof fn lemma_le_uint_bound(s: Seq<u8>)
    ensures
        le_uint(s) < pow256(s.len()),
    decreases s.len(),
{
    if s.len() > 0 {
        lemma_le_uint_bound(s.drop_first());
    }
}

pub proof fn lemma_be_uint_bound(s: Seq<u8>)
    ensures
        be_uint(s) < pow256(s.len()),
    decreases s.len(),
{
    if s.len() > 0 {
        lemma_be_uint_bound(s.drop_last());
        assert(be_uint(s) <= (pow256((s.len() - 1) as nat) - 1) * 256 + 255) by (nonlinear_arith)
            requires
                be_uint(s) == be_uint(s.drop_last()) * 256 + s.last() as nat,
                be_uint(s.drop_last()) < pow256((s.len() - 1) as nat),
                s.last() <= 255,
        ;
    }
}

pub proof fn lemma_pow256_values()
    ensures
        pow256(1) == 0x100,
        pow256(2) == 0x1_0000,
        pow256(3) == 0x100_0000,
        pow256(4) == 0x1_0000_0000,
        pow256(5) == 0x100_0000_0000,
        pow256(6) == 0x1_0000_0000_0000,
        pow256(7) == 0x100_0000_0000_0000,
        pow256(8) == 0x1_0000_0000_0000_0000,
{
    reveal_with_fuel(pow256, 9);
}

/// Little-endian decoding of `data[offset..offset + n]` for `n <= 8`, by Horner's rule.
pub fn le_uint_at(data: &[u8], offset: usize, n: usize) -> (r: u64)
    requires
        n <= 8,
        offset + n <= data.len(),
    ensures
        r == le_at(data@, offset as int, n as int),
{
    let ghost s = data@;
    let mut acc: u64 = 0;
    let mut i = n;
    proof {
        lemma_pow256_values();
    }
    while i > 0
        invariant
            i <= n <= 8,
            offset + n <= data.len(),
            s == data@,
            acc == le_uint(s.subrange(offset + i, offset + n)),
            acc < pow256((n - i) as nat),
            pow256(8) == 0x1_0000_0000_0000_0000,
        decreases i,
    {
        let ghost old_acc = acc;
        let b = data[offset + i - 1];
        proof {
            let t = s.subrange(offset + i - 1, offset + n);
            assert(t.drop_first() =~= s.subrange(offset + i, offset + n));
            assert(pow256((n - i + 1) as nat) == 256 * pow256((n - i) as nat));
            lemma_pow_mono((n - i + 1) as nat, 8);
        }
        acc = acc * 256 + b as u64;
        i -= 1;
    }
    acc
}

pub proof fn lemma_pow_mono(a: nat, b: nat)
    requires
        a <= b,
    ensures
        pow256(a) <= pow256(b),
    decreases b,
{
    if a < b {
        lemma_pow_mono(a, (b - 1) as nat);
        assert(pow256(b) == 256 * pow256((b - 1) as nat));
    }
}

/// Little-endian `u16` at `offset`, if the bytes exist.
pub fn read_le_u16(data: &[u8], offset: usize) -> (r: Option<u16>)
    ensures
        r is Some <==> has_field(data@, offset as int, 2),
        r matches Some(v) ==> v == le_at(data@, offset as int, 2),
{
    if offset > data.len() || data.len() - offset < 2 {
        return None;
    }
    proof {
        lemma_le_uint_bound(field(data@, offset as int, 2));
        lemma_pow256_values();
    }
    Some(le_uint_at(data, offset, 2) as u16)
}

/// Little-endian `u32` at `offset`, if the bytes exist.
pub fn read_le_u32(data: &[u8], offset: usize) -> (r: Option<u32>)
    ensures
        r is Some <==> has_field(data@, offset as int, 4),
        r matches Some(v) ==> v == le_at(data@, offset as int, 4),
{
    if offset > data.len() || data.len() - offset < 4 {
        return None;
    }
    proof {
        lemma_le_uint_bound(field(data@, offset as int, 4));
        lemma_pow256_values();
    }
    Some(le_uint_at(data, offset, 4) as u32)
}

/// Little-endian `u64` at `offset`, if the bytes exist.
pub fn read_le_u64(data: &[u8], offset: usize) -> (r: Option<u64>)
    ensures
        r is Some <==> has_field(data@, offset as int, 8),
        r matches Some(v) ==> v == le_at(data@, offset as int, 8),
{
    if offset > data.len() || data.len() - offset < 8 {
        return None;
    }
    Some(le_uint_at(data, offset, 8))
}

/// Big-endian decoding of `data[offset..offset + n]` for `n <= 8`.
pub fn be_uint_at(data: &[u8], offset: usize, n: usize) -> (r: u64)
    requires
        n <= 8,
        offset + n <= data.len(),
    ensures
        r == be_at(data@, offset as int, n as int),
{
    let ghost s = data@;
    let mut acc: u64 = 0;
    let mut i: usize = 0;
    proof {
        lemma_pow256_values();
    }
    while i < n
        invariant
            i <= n <= 8,
            offset + n <= data.len(),
            s == data@,
            acc == be_uint(s.subrange(offset as int, offset + i)),
            pow256(8) == 0x1_0000_0000_0000_0000,
        decreases n - i,
    {
        let b = data[offset + i];
        proof {
            let t = s.subrange(offset as int, offset + i + 1);
            assert(t.drop_last() =~= s.subrange(offset as int, offset + i));
            lemma_be_uint_bound(s.subrange(offset as int, offset + i));
            lemma_pow_mono((i + 1) as nat, 8);
            assert(pow256((i + 1) as nat) == 256 * pow256(i as nat));
        }
        acc = acc * 256 + b as u64;
        i += 1;
    }
    acc
}

/// Big-endian `u16` at `offset`, if the bytes exist.
pub fn read_be_u16(data: &[u8], offset: usize) -> (r: Option<u16>)
    ensures
        r is Some <==> has_field(data@, offset as int, 2),
        r matches Some(v) ==> v == be_at(data@, offset as int, 2),
{
    if offset > data.len() || data.len() - offset < 2 {
        return None;
    }
    proof {
        lemma_be_uint_bound(field(data@, offset as int, 2));
        lemma_pow256_values();
    }
    Some(be_uint_at(data, offset, 2) as u16)
}

/// Big-endian `u32` at `offset`, if the bytes exist.
pub fn read_be_u32(data: &[u8], offset: usize) -> (r: Option<u32>)
    ensures
        r is Some <==> has_field(data@, offset as int, 4),
        r matches Some(v) ==> v == be_at(data@, offset as int, 4),
{
    if offset > data.len() || data.len() - offset < 4 {
        return None;
    }
    proof {
        lemma_be_uint_bound(field(data@, offset as int, 4));
        lemma_pow256_values();
    }
    Some(be_uint_at(data, offset, 4) as u32)
}

/// Big-endian `u64` at `offset`, if the bytes exist.
pub fn read_be_u64(data: &[u8], offset: usize) -> (r: Option<u64>)
    ensures
        r is Some <==> has_field(data@, offset as int, 8),
        r matches Some(v) ==> v == be_at(data@, offset as int, 8),
{
    if offset > data.len() || data.len() - offset < 8 {
        return None;
    }
    Some(be_uint_at(data, offset, 8))
}

/// Whether `p` occurs in `s` at index `i`.
pub fn bytes_occur_at(s: &[u8], p: &[u8], i: usize) -> (r: bool)
    ensures
        r == occurs_at(s@, p@, i as int),
{
    if i > s.len() || p.len() > s.len() - i {
        return false;
    }
    let mut k: usize = 0;
    while k < p.len()
        invariant
            i + p.len() <= s.len(),
            k <= p.len(),
            forall|j: int| 0 <= j < k ==> s@[i + j] == p@[j],
        decreases p.len() - k,
    {
        if s[i + k] != p[k] {
            assert(s@.subrange(i as int, i + p.len())[k as int] != p@[k as int]);
            return false;
        }
        k += 1;
    }
    assert(s@.subrange(i as int, i + p.len()) =~= p@);
    true
}

/// The first index `j >= from` with `needle` at `j` inside `s[..to]`
/// (never for an empty needle).
pub open spec fn first_occ(s: Seq<u8>, p: Seq<u8>, from: int, to: int) -> Option<int>
    decreases to - from,
{
    if p.len() == 0 || from + p.len() > to {
        None
    } else if occurs_at(s, p, from) {
        Some(from)
    } else {
        first_occ(s, p, from + 1, to)
    }
}

/// A found occurrence lies in the searched range, and nothing before it matches.
pub proof fn lemma_first_occ(s: Seq<u8>, p: Seq<u8>, from: int, to: int)
    ensures
        first_occ(s, p, from, to) matches Some(j) ==> {
            &&& from <= j
            &&& j + p.len() <= to
            &&& occurs_at(s, p, j)
            &&& forall|i: int| from <= i < j ==> !occurs_at(s, p, i)
        },
        first_occ(s, p, from, to) is None ==> forall|i: int|
            from <= i && i + p.len() <= to ==> !occurs_at(s, p, i) || p.len() == 0,
    decreases to - from,
{
    if p.len() > 0 && from + p.len() <= to && !occurs_at(s, p, from) {
        lemma_first_occ(s, p, from + 1, to);
    }
}

/// `haystack[from..to].windows(needle.len()).position(|w| w == needle)`
/// for a non-empty needle (an empty needle is never found).
pub fn find_subslice(hay: &[u8], needle: &[u8], from: usize, to: usize) -> (r: Option<usize>)
    requires
        from <= to <= hay.len(),
    ensures
        r matches Some(k) ==> {
            &&& from + k + needle.len() <= to
            &&& occurs_at(hay@, needle@, from + k)
            &&& forall|j: int| from <= j < from + k ==> !occurs_at(hay@, needle@, j)
        },
        r is None ==> forall|j: int|
            from <= j && j + needle.len() <= to ==> !occurs_at(hay@, needle@, j) || needle.len()
                == 0,
        r matches Some(k) ==> first_occ(hay@, needle@, from as int, to as int) == Some(from + k),
        r is None ==> first_occ(hay@, needle@, from as int, to as int) is None,
{
    if needle.len() == 0 || to - from < needle.len() {
        proof {
            if needle.len() > 0 {
                assert forall|i: int| from <= i && i + needle.len() <= to implies !occurs_at(
                    hay@,
                    needle@,
                    i,
                ) by {}
            }
        }
        return None;
    }
    let last = to - needle.len();
    let mut i = from;
    while i <= last
        invariant
            from <= i,
            last == to - needle.len(),
            i <= last + 1,
            needle.len() > 0,
            to <= hay.len(),
            forall|j: int| from <= j < i ==> !occurs_at(hay@, needle@, j),
            first_occ(hay@, needle@, from as int, to as int) == first_occ(hay@, needle@, i as int, to as int),
        decreases last + 1 - i,
    {
        if bytes_occur_at(hay, needle, i) {
            return Some(i - from);
        }
        i += 1;
    }
    None
}

} // verus!
