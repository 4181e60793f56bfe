//! NTFS: boot sector, MFT record and data-run decoding.
use vstd::prelude::*;
use crate::bytes::{bytes_occur_at, field, le_at, read_le_u16, read_le_u64, le_uint, le_uint_at, lemma_le_uint_bound, lemma_pow256_values, lemma_pow_mono, pow256};
use crate::model::{ItemModel, RecoverableItem, SourceSegment};
use crate::bytes::{has_field, read_le_u32};
use crate::model::{opt_str_view, NtfsDataSummary, NtfsScanOutput, ScanDepth};
use crate::config::NtfsConfig;
use crate::text::{chars_contain, contains_seq, str_chars};
use crate::text::{dec, dec_padded, from_utf16_lossy, push_dec, push_dec_padded, push_str, remove_nul, utf16_lossy, without_nul};

verus! {

/// Two's complement value of a little-endian byte sequence.
pub open spec fn le_int(s: Seq<u8>) -> int {
    if s.len() > 0 && s.last() >= 128 {
        le_uint(s) - pow256(s.len())
    } else {
        le_uint(s) as int
    }
}

/// The segments decoded from the run list `data` starting at `cursor`, with
/// `lcn` the logical cluster number reached so far; `None` when the run list
/// is malformed or a value overflows.
pub open spec fn runs_from(data: Seq<u8>, cursor: int, lcn: int, cs: u64, vol: u64) -> Option<
    Seq<SourceSegment>,
>
    decreases data.len() - cursor,
{
    if cursor < 0 || cursor >= data.len() {
        Some(Seq::empty())
    } else {
        let header = data[cursor];
        let ls = (header % 16) as int;
        let os = (header / 16) as int;
        if header == 0 {
            Some(Seq::empty())
        } else if ls == 0 || ls > 8 || os > 8 || cursor + 1 + ls > data.len() {
            None
        } else {
            let clusters = le_at(data, cursor + 1, ls);
            let length = clusters * cs;
            if clusters == 0 {
                None
            } else if os == 0 {
                if length > u64::MAX {
                    None
                } else {
                    match runs_from(data, cursor + 1 + ls, lcn, cs, vol) {
                        Some(rest) => Some(
                            seq![SourceSegment { offset: 0, length: length as u64, sparse: true }]
                                + rest,
                        ),
                        None => None,
                    }
                }
            } else if cursor + 1 + ls + os > data.len() {
                None
            } else {
                let next = lcn + le_int(field(data, cursor + 1 + ls, os));
                let absolute = vol + next * cs;
                if next > i64::MAX || next < 0 || absolute > u64::MAX || length > u64::MAX {
                    None
                } else {
                    match runs_from(data, cursor + 1 + ls + os, next, cs, vol) {
                        Some(rest) => Some(
                            seq![
                                SourceSegment {
                                    offset: absolute as u64,
                                    length: length as u64,
                                    sparse: false,
                                },
                            ] + rest,
                        ),
                        None => None,
                    }
                }
            }
        }
    }
}

/// Every segment spans a positive whole number of clusters; a sparse one
/// sits at offset 0 and any other one at or past the volume offset.
pub open spec fn runs_well_formed(segs: Seq<SourceSegment>, cs: u64, vol: u64) -> bool {
    forall|i: int|
        0 <= i < segs.len() ==> {
            &&& (#[trigger] segs[i]).length as int % cs as int == 0
            &&& segs[i].length >= cs
            &&& (segs[i].sparse ==> segs[i].offset == 0)
            &&& (!segs[i].sparse ==> segs[i].offset >= vol)
        }
}

/// A decoded run list is well formed (see `runs_well_formed`).
pub proof fn law_runs_well_formed(data: Seq<u8>, cursor: int, lcn: int, cs: u64, vol: u64)
    requires
        cs > 0,
    ensures
        runs_from(data, cursor, lcn, cs, vol) matches Some(segs) ==> runs_well_formed(segs, cs, vol),
    decreases data.len() - cursor,
{
    if cursor < 0 || cursor >= data.len() {
        return;
    }
    let header = data[cursor];
    let ls = (header % 16) as int;
    let os = (header / 16) as int;
    if header == 0 || ls == 0 || ls > 8 || os > 8 || cursor + 1 + ls > data.len() {
        return;
    }
    let clusters = le_at(data, cursor + 1, ls);
    let length = clusters * cs;
    if clusters == 0 {
        return;
    }
    vstd::arithmetic::div_mod::lemma_mod_multiples_basic(clusters as int, cs as int);
    assert(length >= cs) by (nonlinear_arith)
        requires
            clusters >= 1,
            length == clusters * cs,
    ;
    if os == 0 {
        if length <= u64::MAX {
            law_runs_well_formed(data, cursor + 1 + ls, lcn, cs, vol);
            if let Some(rest) = runs_from(data, cursor + 1 + ls, lcn, cs, vol) {
                let seg = SourceSegment { offset: 0, length: length as u64, sparse: true };
                let all = seq![seg] + rest;
                assert forall|i: int| 0 <= i < all.len() implies {
                    &&& (#[trigger] all[i]).length as int % cs as int == 0
                    &&& all[i].length >= cs
                    &&& (all[i].sparse ==> all[i].offset == 0)
                    &&& (!all[i].sparse ==> all[i].offset >= vol)
                } by {
                    if i > 0 {
                        assert(all[i] == rest[i - 1]);
                    }
                }
            }
        }
    } else if cursor + 1 + ls + os <= data.len() {
        let next = lcn + le_int(field(data, cursor + 1 + ls, os));
        let absolute = vol + next * cs;
        if !(next > i64::MAX || next < 0 || absolute > u64::MAX || length > u64::MAX) {
            assert(next * cs >= 0) by (nonlinear_arith)
                requires
                    next >= 0,
                    cs > 0,
            ;
            law_runs_well_formed(data, cursor + 1 + ls + os, next, cs, vol);
            if let Some(rest) = runs_from(data, cursor + 1 + ls + os, next, cs, vol) {
                let seg = SourceSegment { offset: absolute as u64, length: length as u64, sparse: false };
                let all = seq![seg] + rest;
                assert forall|i: int| 0 <= i < all.len() implies {
                    &&& (#[trigger] all[i]).length as int % cs as int == 0
                    &&& all[i].length >= cs
                    &&& (all[i].sparse ==> all[i].offset == 0)
                    &&& (!all[i].sparse ==> all[i].offset >= vol)
                } by {
                    if i > 0 {
                        assert(all[i] == rest[i - 1]);
                    }
                }
            }
        }
    }
}

/// A run-list offset field of `n` bytes is read as a signed number: the
/// result lies in `[-256^n / 2, 256^n / 2)` and differs from the unsigned
/// reading of the same bytes by `0` or `256^n`, which fixes it uniquely.
pub proof fn law_le_int_is_signed(s: Seq<u8>)
    requires
        1 <= s.len() <= 8,
    ensures
        -(pow256(s.len()) as int) / 2 <= le_int(s) < pow256(s.len()) as int / 2,
        le_int(s) == le_uint(s) || le_int(s) == le_uint(s) - pow256(s.len()),
{
    lemma_le_uint_top_bit(s);
    lemma_le_uint_bound(s);
    lemma_pow256_values();
    lemma_pow_mono(1, s.len());
}

/// `delta` is the signed reading of the little-endian bytes `f`: in the
/// signed range of `f.len()` bytes and equal to the unsigned reading modulo `256^n`.
pub open spec fn signed_reading(f: Seq<u8>, delta: int) -> bool {
    &&& -(pow256(f.len()) as int) / 2 <= delta < pow256(f.len()) as int / 2
    &&& (delta == le_uint(f) || delta == le_uint(f) - pow256(f.len()))
}

/// A run with an offset field moves the cluster number by the signed value
/// of that field: the segment it gives starts at the volume offset plus the
/// new cluster number times the cluster size, where the delta lies in the
/// signed range of the field and agrees with its bytes modulo `256^n`.
pub proof fn law_run_offset_is_signed_delta(data: Seq<u8>, cursor: int, lcn: int, cs: u64, vol: u64)
    requires
        0 <= cursor < data.len(),
        data[cursor] / 16 >= 1,
        runs_from(data, cursor, lcn, cs, vol) matches Some(segs) && segs.len() > 0,
    ensures
        ({
            let ls = (data[cursor] % 16) as int;
            let os = (data[cursor] / 16) as int;
            let f = data.subrange(cursor + 1 + ls, cursor + 1 + ls + os);
            let seg = runs_from(data, cursor, lcn, cs, vol).unwrap()[0];
            exists|delta: int|
                #[trigger] signed_reading(f, delta) && !seg.sparse && seg.offset == vol + (lcn + delta) * cs
        }),
{
    let ls = (data[cursor] % 16) as int;
    let os = (data[cursor] / 16) as int;
    let f = data.subrange(cursor + 1 + ls, cursor + 1 + ls + os);
    assert(f == field(data, cursor + 1 + ls, os));
    law_le_int_is_signed(f);
    let delta = le_int(f);
    let seg = runs_from(data, cursor, lcn, cs, vol).unwrap()[0];
    assert(signed_reading(f, delta));
    assert(!seg.sparse && seg.offset == vol + (lcn + delta) * cs);
}

/// Each run's offset is relative to the cluster where the run before it
/// starts: after a run with an offset field, the rest of the list decodes
/// as a list of its own that starts from the first segment's cluster; a
/// sparse run (no offset field) leaves the cluster where it was.
pub proof fn law_runs_chain(data: Seq<u8>, cursor: int, lcn: int, cs: u64, vol: u64)
    requires
        0 <= cursor < data.len(),
        data[cursor] != 0,
        cs > 0,
        runs_from(data, cursor, lcn, cs, vol) is Some,
    ensures
        ({
            let ls = (data[cursor] % 16) as int;
            let os = (data[cursor] / 16) as int;
            let segs = runs_from(data, cursor, lcn, cs, vol).unwrap();
            &&& segs.len() >= 1
            &&& os >= 1 ==> !segs[0].sparse && segs[0].offset >= vol && runs_from(
                data,
                cursor + 1 + ls + os,
                (segs[0].offset - vol) / (cs as int),
                cs,
                vol,
            ) == Some(segs.drop_first())
            &&& os == 0 ==> segs[0].sparse && runs_from(data, cursor + 1 + ls, lcn, cs, vol) == Some(
                segs.drop_first(),
            )
        }),
{
    let ls = (data[cursor] % 16) as int;
    let os = (data[cursor] / 16) as int;
    let segs = runs_from(data, cursor, lcn, cs, vol).unwrap();
    if os >= 1 {
        let next = lcn + le_int(field(data, cursor + 1 + ls, os));
        vstd::arithmetic::div_mod::lemma_div_by_multiple(next, cs as int);
        assert((segs[0].offset - vol) / (cs as int) == next);
        assert(segs.drop_first() =~= runs_from(data, cursor + 1 + ls + os, next, cs, vol).unwrap());
    } else {
        assert(segs.drop_first() =~= runs_from(data, cursor + 1 + ls, lcn, cs, vol).unwrap());
    }
}

/// `256^n` for `n <= 8`.
fn pow256_exec(n: usize) -> (r: u128)
    requires
        n <= 8,
    ensures
        r == pow256(n as nat),
{
    proof {
        lemma_pow256_values();
    }
    if n == 0 {
        proof {
            reveal_with_fuel(pow256, 1);
        }
        1
    } else if n == 1 {
        0x100
    } else if n == 2 {
        0x1_0000
    } else if n == 3 {
        0x100_0000
    } else if n == 4 {
        0x1_0000_0000
    } else if n == 5 {
        0x100_0000_0000
    } else if n == 6 {
        0x1_0000_0000_0000
    } else if n == 7 {
        0x100_0000_0000_0000
    } else {
        0x1_0000_0000_0000_0000
    }
}

/// Two's complement little-endian value of `data[offset..offset + n]`, `1 <= n <= 8`.
fn le_int_at(data: &[u8], offset: usize, n: usize) -> (r: i64)
    requires
        1 <= n <= 8,
        offset + n <= data.len(),
    ensures
        r == le_int(field(data@, offset as int, n as int)),
{
    let u = le_uint_at(data, offset, n);
    let top = data[offset + n - 1];
    let ghost f = field(data@, offset as int, n as int);
    proof {
        lemma_le_uint_bound(f);
        lemma_pow256_values();
        lemma_pow_mono(n as nat, 8);
        assert(f.last() == top);
    }
    let p = pow256_exec(n);
    let v: i128 = if top >= 128 {
        proof {
            lemma_le_uint_top_bit(f);
        }
        u as i128 - p as i128
    } else {
        proof {
            lemma_le_uint_top_bit(f);
        }
        u as i128
    };
    v as i64
}

/// Bounds of a little-endian value by its top byte.
pub proof fn lemma_le_uint_top_bit(s: Seq<u8>)
    requires
        1 <= s.len() <= 8,
    ensures
        s.last() >= 128 ==> le_uint(s) >= pow256(s.len()) / 2,
        s.last() < 128 ==> le_uint(s) < pow256(s.len()) / 2,
    decreases s.len(),
{
    lemma_pow256_values();
    if s.len() == 1 {
        assert(s.drop_first().len() == 0);
        assert(le_uint(s.drop_first()) == 0);
        assert(le_uint(s) == s[0] as nat);
    } else {
        let t = s.drop_first();
        lemma_le_uint_top_bit(t);
        assert(t.last() == s.last());
        lemma_le_uint_bound(t);
        assert(pow256(s.len()) == 256 * pow256(t.len()));
        assert(le_uint(s) == s[0] as nat + 256 * le_uint(t));
    }
}

/// Decodes an NTFS run list into absolute source segments; `None` when the
/// run list is malformed or a value overflows.
pub fn parse_data_runs(data: &[u8], cluster_size: u64, volume_offset: u64) -> (r: Option<
    Vec<SourceSegment>,
>)
    ensures
        r matches Some(v) ==> runs_from(data@, 0, 0, cluster_size, volume_offset) == Some(v@),
        r is None ==> runs_from(data@, 0, 0, cluster_size, volume_offset) is None,
{
    let mut out: Vec<SourceSegment> = Vec::new();
    let mut cursor: usize = 0;
    let mut current_lcn: i64 = 0;
    let ghost total = runs_from(data@, 0, 0, cluster_size, volume_offset);
    while cursor < data.len()
        invariant
            cursor <= data.len(),
            0 <= current_lcn,
            total == runs_from(data@, 0, 0, cluster_size, volume_offset),
            total == match runs_from(data@, cursor as int, current_lcn as int, cluster_size, volume_offset) {
                Some(rest) => Some(out@ + rest),
                None => None::<Seq<SourceSegment>>,
            },
        decreases data.len() - cursor,
    {
        let ghost c0 = cursor as int;
        let ghost l0 = current_lcn as int;
        let header = data[cursor];
        cursor += 1;
        if header == 0 {
            proof {
                assert(out@ + Seq::<SourceSegment>::empty() =~= out@);
            }
            return Some(out);
        }
        let len_size = (header % 16) as usize;
        let off_size = (header / 16) as usize;
        if len_size == 0 || len_size > 8 || off_size > 8 {
            return None;
        }
        if len_size > data.len() - cursor {
            return None;
        }
        let clusters = le_uint_at(data, cursor, len_size);
        cursor += len_size;
        if clusters == 0 {
            return None;
        }
        if off_size == 0 {
            let length = match clusters.checked_mul(cluster_size) {
                Some(v) => v,
                None => {
                    return None;
                },
            };
            let seg = SourceSegment { offset: 0, length, sparse: true };
            proof {
                let rest = runs_from(data@, cursor as int, l0, cluster_size, volume_offset);
                if let Some(rs) = rest {
                    assert(out@.push(seg) + rs =~= out@ + (seq![seg] + rs));
                }
            }
            out.push(seg);
            continue;
        }
        if off_size > data.len() - cursor {
            return None;
        }
        let delta = le_int_at(data, cursor, off_size);
        cursor += off_size;
        let next = match current_lcn.checked_add(delta) {
            Some(v) => v,
            None => {
                return None;
            },
        };
        if next < 0 {
            return None;
        }
        let scaled = match (next as u64).checked_mul(cluster_size) {
            Some(v) => v,
            None => {
                return None;
            },
        };
        let absolute = match volume_offset.checked_add(scaled) {
            Some(v) => v,
            None => {
                return None;
            },
        };
        let length = match clusters.checked_mul(cluster_size) {
            Some(v) => v,
            None => {
                return None;
            },
        };
        current_lcn = next;
        let seg = SourceSegment { offset: absolute, length, sparse: false };
        proof {
            let rest = runs_from(data@, cursor as int, next as int, cluster_size, volume_offset);
            if let Some(rs) = rest {
                assert(out@.push(seg) + rs =~= out@ + (seq![seg] + rs));
            }
        }
        out.push(seg);
    }
    proof {
        assert(out@ + Seq::<SourceSegment>::empty() =~= out@);
    }
    Some(out)
}


/// Geometry read from an NTFS boot sector.
#[derive(Debug, Clone, Copy, PartialEq, Eq, Structural)]
pub struct NtfsBootInfo {
    pub bytes_per_sector: u16,
    pub sectors_per_cluster: u8,
    pub cluster_size: u32,
    pub total_sectors: u64,
    pub mft_lcn: u64,
    pub record_size: u32,
}

/// The OEM identifier `"NTFS    "` at bytes 3..11.
pub open spec fn ntfs_oem(boot: Seq<u8>) -> bool {
    boot.len() >= 11 && boot.subrange(3, 11) == seq![
        0x4Eu8,
        0x54u8,
        0x46u8,
        0x53u8,
        0x20u8,
        0x20u8,
        0x20u8,
        0x20u8,
    ]
}

/// `2^n`.
pub open spec fn pow2(n: nat) -> nat
    decreases n,
{
    if n == 0 { 1 } else { 2 * pow2((n - 1) as nat) }
}

/// MFT record size encoded by the signed byte `b` at offset 64: a positive
/// value counts clusters, a negative one `-k` means `2^k` bytes.
pub open spec fn record_size_of(b: u8, cluster_size: int) -> Option<int> {
    if 0 < b && b < 128 {
        Some(cluster_size * b)
    } else if b >= 128 && 256 - b < 31 {
        Some(pow2((256 - b) as nat) as int)
    } else {
        None
    }
}

/// The boot geometry the boot sector `boot` describes, if it is valid.
pub open spec fn boot_info_of(boot: Seq<u8>) -> Option<NtfsBootInfo> {
    if boot.len() < 80 || !ntfs_oem(boot) {
        None
    } else {
        let bps = le_at(boot, 11, 2);
        let spc = boot[13];
        let cs = bps * spc;
        if bps == 0 || spc == 0 {
            None
        } else {
            match record_size_of(boot[64], cs) {
                Some(rs) => if rs > u32::MAX || rs < 256 || rs > 65536 {
                    None
                } else {
                    Some(
                        NtfsBootInfo {
                            bytes_per_sector: bps as u16,
                            sectors_per_cluster: spc,
                            cluster_size: cs as u32,
                            total_sectors: le_at(boot, 40, 8) as u64,
                            mft_lcn: le_at(boot, 48, 8) as u64,
                            record_size: rs as u32,
                        },
                    )
                },
                None => None,
            }
        }
    }
}

/// Whether `boot` starts with the NTFS OEM identifier.
pub fn has_ntfs_oem(boot: &[u8]) -> (r: bool)
    ensures
        r == ntfs_oem(boot@),
{
    let oem: [u8; 8] = [0x4E, 0x54, 0x46, 0x53, 0x20, 0x20, 0x20, 0x20];
    let r = bytes_occur_at(boot, &oem, 3);
    proof {
        assert(oem@ =~= seq![0x4Eu8, 0x54u8, 0x46u8, 0x53u8, 0x20u8, 0x20u8, 0x20u8, 0x20u8]);
    }
    r
}

fn pow2_exec(n: u32) -> (r: u32)
    requires
        n < 31,
    ensures
        r == pow2(n as nat),
    decreases n,
{
    if n == 0 {
        1
    } else {
        let p = pow2_exec(n - 1);
        proof {
            lemma_pow2_bound((n - 1) as nat);
        }
        2 * p
    }
}

#[verifier::spinoff_prover]
pub proof fn lemma_pow2_bound(n: nat)
    ensures
        pow2(n) <= pow2(30) * 1 || n > 30,
        n <= 30 ==> pow2(n) <= 0x4000_0000,
    decreases n,
{
    reveal_with_fuel(pow2, 31);
    if n > 0 && n <= 30 {
        lemma_pow2_bound((n - 1) as nat);
    }
}

/// Decodes the NTFS boot sector geometry; `None` when a field is invalid.
pub fn parse_boot_info(boot: &[u8]) -> (r: Option<NtfsBootInfo>)
    ensures
        r == boot_info_of(boot@),
{
    if boot.len() < 80 || !has_ntfs_oem(boot) {
        return None;
    }
    let bytes_per_sector = match read_le_u16(boot, 11) {
        Some(v) => v,
        None => {
            return None;
        },
    };
    let sectors_per_cluster = boot[13];
    if bytes_per_sector == 0 || sectors_per_cluster == 0 {
        return None;
    }
    assert((bytes_per_sector as u32) * (sectors_per_cluster as u32) <= 65535 * 255)
        by (nonlinear_arith)
        requires
            bytes_per_sector <= 65535,
            sectors_per_cluster <= 255,
    ;
    let cluster_size = (bytes_per_sector as u32) * (sectors_per_cluster as u32);
    let total_sectors = read_le_u64(boot, 40).unwrap();
    let mft_lcn = read_le_u64(boot, 48).unwrap();
    let b = boot[64];
    let record_size: u32 = if 0 < b && b < 128 {
        match cluster_size.checked_mul(b as u32) {
            Some(v) => v,
            None => {
                return None;
            },
        }
    } else if b >= 128 {
        let shift = 256 - (b as u32);
        if shift >= 31 {
            return None;
        }
        pow2_exec(shift)
    } else {
        return None;
    };
    if record_size < 256 || record_size > 65536 {
        return None;
    }
    Some(
        NtfsBootInfo {
            bytes_per_sector,
            sectors_per_cluster,
            cluster_size,
            total_sectors,
            mft_lcn,
            record_size,
        },
    )
}


/// The little-endian 16-bit words of `bytes` (pairs, in order).
pub open spec fn le_words(bytes: Seq<u8>) -> Seq<u16> {
    Seq::new(bytes.len() / 2, |i: int| le_at(bytes, 2 * i, 2) as u16)
}

/// A UTF-16LE name with NUL characters removed; `None` for an empty or
/// odd-length input or an empty result.
pub open spec fn decode_utf16le_spec(bytes: Seq<u8>) -> Option<Seq<char>> {
    if bytes.len() == 0 || bytes.len() % 2 != 0 {
        None
    } else {
        let t = remove_nul(utf16_lossy(le_words(bytes)));
        if t.len() == 0 { None } else { Some(t) }
    }
}

/// The 16-bit little-endian words of `bytes[start..end]`.
pub fn words_le(bytes: &[u8], start: usize, end: usize) -> (r: Vec<u16>)
    requires
        start <= end <= bytes.len(),
    ensures
        r@ == le_words(bytes@.subrange(start as int, end as int)),
{
    let ghost sub = bytes@.subrange(start as int, end as int);
    let n = (end - start) / 2;
    let mut out: Vec<u16> = Vec::new();
    let mut i: usize = 0;
    while i < n
        invariant
            start <= end <= bytes.len(),
            n == (end - start) / 2,
            sub == bytes@.subrange(start as int, end as int),
            i <= n,
            out@.len() == i,
            forall|k: int| 0 <= k < i ==> out@[k] == le_at(sub, 2 * k, 2) as u16,
        decreases n - i,
    {
        let w = read_le_u16(bytes, start + 2 * i).unwrap();
        proof {
            assert(field(bytes@, start + 2 * i, 2) =~= field(sub, 2 * i, 2));
        }
        out.push(w);
        i += 1;
    }
    assert(out@ =~= le_words(sub));
    out
}

/// Decodes a UTF-16LE name, dropping NUL characters.
pub fn decode_utf16le(bytes: &[u8], start: usize, end: usize) -> (r: Option<String>)
    requires
        start <= end <= bytes.len(),
    ensures
        r matches Some(s) ==> decode_utf16le_spec(bytes@.subrange(start as int, end as int))
            == Some(s@),
        r is None ==> decode_utf16le_spec(bytes@.subrange(start as int, end as int)) is None,
{
    if end == start || (end - start) % 2 != 0 {
        return None;
    }
    let words = words_le(bytes, start, end);
    let text = from_utf16_lossy(words.as_slice());
    name_without_nul(&text)
}

/// A decoded name without its NUL characters; `None` when nothing is left.
pub fn name_without_nul(text: &String) -> (r: Option<String>)
    ensures
        remove_nul(text@).len() == 0 ==> r is None,
        remove_nul(text@).len() > 0 ==> (r matches Some(s) && s@ == remove_nul(text@)),
{
    let kept = without_nul(text);
    if kept.as_str().unicode_len() == 0 {
        None
    } else {
        Some(kept)
    }
}

/// The name and declared size in a resident `$FILE_NAME` attribute at
/// `a` of length `alen`.
pub open spec fn file_name_attr(rec: Seq<u8>, a: int, alen: int) -> Option<(Seq<char>, u64)> {
    if a + 8 >= rec.len() || rec[a + 8] != 0 || !has_field(rec, a + 16, 4) || !has_field(
        rec,
        a + 20,
        2,
    ) {
        None
    } else {
        let clen = le_at(rec, a + 16, 4) as int;
        let cstart = a + le_at(rec, a + 20, 2);
        let cend = cstart + clen;
        let aend = a + alen;
        if cstart > usize::MAX || cend > usize::MAX || aend > usize::MAX {
            None
        } else if cend > rec.len() || cend > aend || clen < 66 {
            None
        } else {
            let nstart = cstart + 66;
            let nend = nstart + 2 * rec[cstart + 64];
            if nend > cend {
                None
            } else {
                match decode_utf16le_spec(rec.subrange(nstart, nend)) {
                    None => None,
                    Some(name) => Some((name, le_at(rec, cstart + 48, 8) as u64)),
                }
            }
        }
    }
}

/// Reads the name and size of a resident `$FILE_NAME` attribute.
pub fn parse_file_name_attr(record: &[u8], attr_offset: usize, attr_len: usize) -> (r: Option<
    (String, u64),
>)
    requires
        attr_offset < record.len(),
    ensures
        r matches Some(v) ==> file_name_attr(record@, attr_offset as int, attr_len as int)
            == Some((v.0@, v.1)),
        r is None ==> file_name_attr(record@, attr_offset as int, attr_len as int) is None,
{
    if record.len() < 9 || attr_offset > record.len() - 9 {
        return None;
    }
    let non_resident = record[attr_offset + 8];
    if non_resident != 0 {
        return None;
    }
    if attr_offset > usize::MAX - 20 {
        return None;
    }
    let content_len = match read_le_u32(record, attr_offset.saturating_add(16)) {
        Some(v) => v as usize,
        None => {
            return None;
        },
    };
    let content_offset = match read_le_u16(record, attr_offset + 20) {
        Some(v) => v as usize,
        None => {
            return None;
        },
    };
    let content_start = match attr_offset.checked_add(content_offset) {
        Some(v) => v,
        None => {
            return None;
        },
    };
    let content_end = match content_start.checked_add(content_len) {
        Some(v) => v,
        None => {
            return None;
        },
    };
    let attr_end = match attr_offset.checked_add(attr_len) {
        Some(v) => v,
        None => {
            return None;
        },
    };
    if content_end > record.len() || content_end > attr_end || content_len < 66 {
        return None;
    }
    let name_len = record[content_start + 64] as usize;
    let name_start = content_start + 66;
    let name_end = match name_start.checked_add(2 * name_len) {
        Some(v) => v,
        None => {
            return None;
        },
    };
    if name_end > content_end {
        return None;
    }
    let name = match decode_utf16le(record, name_start, name_end) {
        Some(v) => v,
        None => {
            return None;
        },
    };
    let size = read_le_u64(record, content_start + 48).unwrap();
    Some((name, size))
}


/// What the `$DATA` attributes of a record describe.
#[derive(Debug)]
pub struct DataInfo {
    pub size_bytes: Option<u64>,
    pub segments: Vec<SourceSegment>,
    pub compressed: bool,
    pub encrypted: bool,
    pub runlist_failed: bool,
    pub sparse: bool,
}

pub struct DataInfoModel {
    pub size_bytes: Option<u64>,
    pub segments: Seq<SourceSegment>,
    pub compressed: bool,
    pub encrypted: bool,
    pub runlist_failed: bool,
    pub sparse: bool,
}

impl View for DataInfo {
    type V = DataInfoModel;

    open spec fn view(&self) -> DataInfoModel {
        DataInfoModel {
            size_bytes: self.size_bytes,
            segments: self.segments@,
            compressed: self.compressed,
            encrypted: self.encrypted,
            runlist_failed: self.runlist_failed,
            sparse: self.sparse,
        }
    }
}

pub open spec fn empty_data_info() -> DataInfoModel {
    DataInfoModel {
        size_bytes: None,
        segments: Seq::empty(),
        compressed: false,
        encrypted: false,
        runlist_failed: false,
        sparse: false,
    }
}

pub open spec fn any_sparse(segs: Seq<SourceSegment>) -> bool {
    exists|i: int| 0 <= i < segs.len() && (#[trigger] segs[i]).sparse
}

pub open spec fn or_else<T>(a: Option<T>, b: Option<T>) -> Option<T> {
    if a is Some { a } else { b }
}

pub open spec fn le16_or_zero(rec: Seq<u8>, off: int) -> u16 {
    if has_field(rec, off, 2) { le_at(rec, off, 2) as u16 } else { 0 }
}

/// Effect of one `$DATA` attribute at `a` of length `alen` on `d`.
pub open spec fn data_attr_step(
    rec: Seq<u8>,
    a: int,
    alen: int,
    cs: u64,
    vol: u64,
    d: DataInfoModel,
) -> DataInfoModel {
    if a + 8 >= rec.len() {
        d
    } else {
        let flags = le16_or_zero(rec, a + 12);
        let d1 = DataInfoModel {
            compressed: d.compressed || (flags & 0x0001u16) != 0,
            encrypted: d.encrypted || (flags & 0x4000u16) != 0,
            ..d
        };
        if rec[a + 8] == 0 {
            let size = if has_field(rec, a + 16, 4) {
                Some(le_at(rec, a + 16, 4) as u64)
            } else {
                None
            };
            DataInfoModel { size_bytes: or_else(d1.size_bytes, size), ..d1 }
        } else {
            let run_offset = le16_or_zero(rec, a + 32);
            let real_size = if has_field(rec, a + 48, 8) {
                Some(le_at(rec, a + 48, 8) as u64)
            } else {
                None
            };
            let d2 = DataInfoModel { size_bytes: or_else(d1.size_bytes, real_size), ..d1 };
            let run_start = a + run_offset;
            let attr_end = a + alen;
            if run_start > usize::MAX || attr_end > usize::MAX || run_start >= attr_end || attr_end
                > rec.len() {
                DataInfoModel { runlist_failed: true, ..d2 }
            } else {
                match runs_from(rec.subrange(run_start, attr_end), 0, 0, cs, vol) {
                    Some(segs) => DataInfoModel {
                        sparse: d2.sparse || any_sparse(segs),
                        segments: d2.segments + segs,
                        ..d2
                    },
                    None => DataInfoModel { runlist_failed: true, ..d2 },
                }
            }
        }
    }
}

fn has_sparse(segs: &Vec<SourceSegment>) -> (r: bool)
    ensures
        r == any_sparse(segs@),
{
    let mut i: usize = 0;
    while i < segs.len()
        invariant
            i <= segs.len(),
            forall|k: int| 0 <= k < i ==> !(#[trigger] segs@[k]).sparse,
        decreases segs.len() - i,
    {
        if segs[i].sparse {
            return true;
        }
        i += 1;
    }
    false
}

/// Applies one `$DATA` attribute to the accumulated data description.
#[verifier::rlimit(40)]
pub fn parse_data_attr(
    record: &[u8],
    attr_offset: usize,
    attr_len: usize,
    boot: &NtfsBootInfo,
    volume_offset: u64,
    data_info: &mut DataInfo,
)
    requires
        attr_offset < record.len(),
    ensures
        final(data_info)@ == data_attr_step(
            record@,
            attr_offset as int,
            attr_len as int,
            boot.cluster_size as u64,
            volume_offset,
            old(data_info)@,
        ),
{
    if record.len() < 9 || attr_offset > record.len() - 9 {
        return;
    }
    let non_resident = record[attr_offset + 8];
    let flags = match read_le_u16(record, attr_offset.saturating_add(12)) {
        Some(v) => v,
        None => 0,
    };
    data_info.compressed = data_info.compressed || (flags & 0x0001) != 0;
    data_info.encrypted = data_info.encrypted || (flags & 0x4000) != 0;
    if non_resident == 0 {
        let size = match read_le_u32(record, attr_offset.saturating_add(16)) {
            Some(v) => Some(v as u64),
            None => None,
        };
        if data_info.size_bytes.is_none() {
            data_info.size_bytes = size;
        }
        return;
    }
    let run_offset = match read_le_u16(record, attr_offset.saturating_add(32)) {
        Some(v) => v as usize,
        None => 0,
    };
    let real_size = read_le_u64(record, attr_offset.saturating_add(48));
    if data_info.size_bytes.is_none() {
        data_info.size_bytes = real_size;
    }
    let run_start = match attr_offset.checked_add(run_offset) {
        Some(v) => v,
        None => {
            data_info.runlist_failed = true;
            return;
        },
    };
    let attr_end = match attr_offset.checked_add(attr_len) {
        Some(v) => v,
        None => {
            data_info.runlist_failed = true;
            return;
        },
    };
    if run_start >= attr_end || attr_end > record.len() {
        data_info.runlist_failed = true;
        return;
    }
    match parse_data_runs(&record[run_start..attr_end], boot.cluster_size as u64, volume_offset) {
        Some(segments) => {
            let s = has_sparse(&segments);
            data_info.sparse = data_info.sparse || s;
            let mut segs = segments;
            data_info.segments.append(&mut segs);
        },
        None => {
            data_info.runlist_failed = true;
        },
    }
}


/// Accumulated state of the attribute walk over an MFT record.
pub struct WalkState {
    pub name: Option<Seq<char>>,
    pub file_size: Option<u64>,
    pub data: DataInfoModel,
}

/// Walks the attribute list of `rec` from `cursor`, applying `$FILE_NAME`
/// (0x30) and `$DATA` (0x80) attributes until the end marker, a malformed
/// length or the end of the record.
pub open spec fn walk_attrs(rec: Seq<u8>, cursor: int, cs: u64, vol: u64, st: WalkState) -> WalkState
    decreases rec.len() - cursor,
{
    if cursor < 0 || cursor + 16 > rec.len() {
        st
    } else {
        let t = le_at(rec, cursor, 4);
        let alen = le_at(rec, cursor + 4, 4) as int;
        if t == 0xFFFF_FFFF || alen < 16 || cursor + alen > rec.len() {
            st
        } else {
            let st2 = if t == 0x30 {
                match file_name_attr(rec, cursor, alen) {
                    Some((n, sz)) => WalkState {
                        name: or_else(st.name, Some(n)),
                        file_size: if st.file_size is None && sz > 0 {
                            Some(sz)
                        } else {
                            st.file_size
                        },
                        data: st.data,
                    },
                    None => st,
                }
            } else if t == 0x80 {
                WalkState { data: data_attr_step(rec, cursor, alen, cs, vol, st.data), ..st }
            } else {
                st
            };
            walk_attrs(rec, cursor + alen, cs, vol, st2)
        }
    }
}

/// The `"FILE"` signature at the start of an MFT record.
pub open spec fn mft_sig(rec: Seq<u8>) -> bool {
    rec.len() >= 4 && rec.subrange(0, 4) == seq![0x46u8, 0x49u8, 0x4Cu8, 0x45u8]
}

pub open spec fn first_data_offset(segs: Seq<SourceSegment>) -> Option<u64>
    decreases segs.len(),
{
    if segs.len() == 0 {
        None
    } else if !segs[0].sparse {
        Some(segs[0].offset)
    } else {
        first_data_offset(segs.drop_first())
    }
}

pub open spec fn deleted_note(n: u64, is_dir: bool, d: DataInfoModel) -> Seq<char> {
    (if is_dir {
        "在 MFT 记录 "@ + dec(n as nat) + " 中发现已删除目录。"@
    } else {
        "在 MFT 记录 "@ + dec(n as nat) + " 中发现已删除文件。"@
    }) + (if d.compressed { " 检测到压缩流。"@ } else { Seq::empty() }) + (if d.encrypted {
        " 检测到加密流。"@
    } else {
        Seq::empty()
    }) + (if d.runlist_failed { " 运行列表解析失败。"@ } else { Seq::empty() })
}

/// The candidate a deleted (not in use) MFT record `rec` with number `n`
/// describes, with whether its data runs hold a sparse segment; `None` for a
/// record in use, without signature or with a bad attribute offset.
pub open spec fn deleted_record(rec: Seq<u8>, n: u64, cs: u64, vol: u64) -> Option<
    (ItemModel, bool),
> {
    if rec.len() < 64 || !mft_sig(rec) {
        None
    } else {
        let flags = le_at(rec, 22, 2) as u16;
        let first_attr = le_at(rec, 20, 2) as int;
        if (flags & 0x0001u16) != 0 || first_attr >= rec.len() {
            None
        } else {
            let is_dir = (flags & 0x0002u16) != 0;
            let st = walk_attrs(
                rec,
                first_attr,
                cs,
                vol,
                WalkState { name: None, file_size: None, data: empty_data_info() },
            );
            let d = st.data;
            Some(
                (
                    ItemModel {
                        id: "ntfs-mft-"@ + dec_padded(n as nat, 8),
                        category: if is_dir {
                            "ntfs-mft-deleted-directory"@
                        } else {
                            "ntfs-mft-deleted-file"@
                        },
                        confidence_percent: if d.segments.len() == 0 { 56 } else { 82 },
                        note: deleted_note(n, is_dir, d),
                        suggested_name: match st.name {
                            Some(name) => name,
                            None => "mft_record_"@ + dec(n as nat) + ".bin"@,
                        },
                        source_path: None,
                        source_offset: first_data_offset(d.segments),
                        size_bytes: or_else(d.size_bytes, st.file_size),
                        source_segments: d.segments,
                    },
                    d.sparse,
                ),
            )
        }
    }
}

proof fn lemma_data_step_keeps_size(rec: Seq<u8>, a: int, alen: int, cs: u64, vol: u64, d: DataInfoModel)
    requires
        d.size_bytes is Some,
    ensures
        data_attr_step(rec, a, alen, cs, vol, d).size_bytes == d.size_bytes,
{
}

proof fn lemma_walk_keeps_data_size(rec: Seq<u8>, cursor: int, cs: u64, vol: u64, st: WalkState)
    requires
        st.data.size_bytes is Some,
    ensures
        walk_attrs(rec, cursor, cs, vol, st).data.size_bytes == st.data.size_bytes,
    decreases rec.len() - cursor,
{
    if !(cursor < 0 || cursor + 16 > rec.len()) {
        let t = le_at(rec, cursor, 4);
        let alen = le_at(rec, cursor + 4, 4) as int;
        if !(t == 0xFFFF_FFFF || alen < 16 || cursor + alen > rec.len()) {
            let st2 = if t == 0x30 {
                match file_name_attr(rec, cursor, alen) {
                    Some((n, sz)) => WalkState {
                        name: or_else(st.name, Some(n)),
                        file_size: if st.file_size is None && sz > 0 {
                            Some(sz)
                        } else {
                            st.file_size
                        },
                        data: st.data,
                    },
                    None => st,
                }
            } else if t == 0x80 {
                lemma_data_step_keeps_size(rec, cursor, alen, cs, vol, st.data);
                WalkState { data: data_attr_step(rec, cursor, alen, cs, vol, st.data), ..st }
            } else {
                st
            };
            assert(st2.data.size_bytes == st.data.size_bytes);
            lemma_walk_keeps_data_size(rec, cursor + alen, cs, vol, st2);
        }
    }
}

/// Where the attribute list of an MFT record starts.
pub open spec fn attrs_start(rec: Seq<u8>) -> int {
    le_at(rec, 20, 2) as int
}

/// The size a `$DATA` attribute at `a` gives: the value length of a
/// resident one, the real size of a non-resident one.
pub open spec fn data_attr_size(rec: Seq<u8>, a: int) -> u64 {
    if rec[a + 8] == 0 {
        le_at(rec, a + 16, 4) as u64
    } else {
        le_at(rec, a + 48, 8) as u64
    }
}

/// A well-formed `$DATA` attribute header at `a`, with room for the size
/// field it holds.
pub open spec fn data_attr_at(rec: Seq<u8>, a: int) -> bool {
    &&& 0 <= a
    &&& a + 24 <= rec.len()
    &&& le_at(rec, a, 4) == 0x80
    &&& 16 <= le_at(rec, a + 4, 4)
    &&& a + le_at(rec, a + 4, 4) <= rec.len()
    &&& rec[a + 8] != 0 ==> a + 56 <= rec.len()
}

proof fn lemma_walk_data_first(rec: Seq<u8>, a: int, cs: u64, vol: u64, st: WalkState)
    requires
        data_attr_at(rec, a),
        st.data.size_bytes is None,
    ensures
        walk_attrs(rec, a, cs, vol, st).data.size_bytes == Some(data_attr_size(rec, a)),
{
    let alen = le_at(rec, a + 4, 4) as int;
    let d1 = data_attr_step(rec, a, alen, cs, vol, st.data);
    assert(d1.size_bytes == Some(data_attr_size(rec, a)));
    let st1 = WalkState { data: d1, ..st };
    assert(walk_attrs(rec, a, cs, vol, st) == walk_attrs(rec, a + alen, cs, vol, st1));
    lemma_walk_keeps_data_size(rec, a + alen, cs, vol, st1);
}

/// The size of a deleted record's candidate is the size its `$DATA`
/// attribute gives (the value length of a resident one, the real size of a
/// non-resident one): when the first attribute of the record is `$DATA`, no
/// `$FILE_NAME` attribute that follows, and no size it declares, changes it.
pub proof fn law_data_size_wins(rec: Seq<u8>, n: u64, cs: u64, vol: u64)
    requires
        rec.len() >= 64,
        data_attr_at(rec, attrs_start(rec)),
    ensures
        deleted_record(rec, n, cs, vol) matches Some((item, _)) ==> item.size_bytes == Some(
            data_attr_size(rec, attrs_start(rec)),
        ),
{
    let st0 = WalkState { name: None, file_size: None, data: empty_data_info() };
    lemma_walk_data_first(rec, attrs_start(rec), cs, vol, st0);
}

/// In the usual layout, a `$FILE_NAME` attribute first and the `$DATA`
/// attribute right after it, the candidate's size is still the one the
/// `$DATA` attribute gives, whatever real size the `$FILE_NAME` attribute
/// declares.
pub proof fn law_data_size_wins_over_file_name(rec: Seq<u8>, n: u64, cs: u64, vol: u64, second: int)
    requires
        rec.len() >= 64,
        attrs_start(rec) + 16 <= rec.len(),
        le_at(rec, attrs_start(rec), 4) == 0x30,
        16 <= le_at(rec, attrs_start(rec) + 4, 4),
        second == attrs_start(rec) + le_at(rec, attrs_start(rec) + 4, 4),
        data_attr_at(rec, second),
    ensures
        deleted_record(rec, n, cs, vol) matches Some((item, _)) ==> item.size_bytes == Some(
            data_attr_size(rec, second),
        ),
{
    let fa = attrs_start(rec);
    let alen = le_at(rec, fa + 4, 4) as int;
    let st = WalkState { name: None, file_size: None, data: empty_data_info() };
    let st2 = match file_name_attr(rec, fa, alen) {
        Some((nm, sz)) => WalkState {
            name: or_else(st.name, Some(nm)),
            file_size: if st.file_size is None && sz > 0 {
                Some(sz)
            } else {
                st.file_size
            },
            data: st.data,
        },
        None => st,
    };
    assert(walk_attrs(rec, fa, cs, vol, st) == walk_attrs(rec, second, cs, vol, st2));
    lemma_walk_data_first(rec, second, cs, vol, st2);
}

fn first_data_offset_exec(segs: &Vec<SourceSegment>) -> (r: Option<u64>)
    ensures
        r == first_data_offset(segs@),
{
    let mut i: usize = 0;
    assert(segs@.subrange(0, segs@.len() as int) =~= segs@);
    while i < segs.len()
        invariant
            i <= segs.len(),
            first_data_offset(segs@) == first_data_offset(segs@.subrange(i as int, segs@.len() as int)),
        decreases segs.len() - i,
    {
        assert(segs@.subrange(i as int, segs@.len() as int).drop_first() =~= segs@.subrange(
            i + 1,
            segs@.len() as int,
        ));
        if !segs[i].sparse {
            return Some(segs[i].offset);
        }
        i += 1;
    }
    None
}

fn has_mft_sig(record: &[u8]) -> (r: bool)
    ensures
        r == mft_sig(record@),
{
    let sig: [u8; 4] = [0x46, 0x49, 0x4C, 0x45];
    let r = bytes_occur_at(record, &sig, 0);
    assert(sig@ =~= seq![0x46u8, 0x49u8, 0x4Cu8, 0x45u8]);
    r
}

/// Builds the candidate of a deleted MFT record, with whether its data runs
/// hold a sparse segment.
pub fn parse_deleted_record(
    record: &[u8],
    record_number: u64,
    boot: &NtfsBootInfo,
    volume_offset: u64,
) -> (r: Option<(RecoverableItem, bool)>)
    ensures
        r matches Some(v) ==> deleted_record(
            record@,
            record_number,
            boot.cluster_size as u64,
            volume_offset,
        ) == Some((v.0@, v.1)),
        r is None ==> deleted_record(
            record@,
            record_number,
            boot.cluster_size as u64,
            volume_offset,
        ) is None,
{
    if record.len() < 64 || !has_mft_sig(record) {
        return None;
    }
    let flags = read_le_u16(record, 22).unwrap();
    if flags & 0x0001 != 0 {
        return None;
    }
    let is_directory = flags & 0x0002 != 0;
    let first_attr = read_le_u16(record, 20).unwrap() as usize;
    if first_attr >= record.len() {
        return None;
    }
    let ghost rec = record@;
    let ghost cs = boot.cluster_size as u64;
    let mut cursor = first_attr;
    let mut name: Option<String> = None;
    let mut file_size: Option<u64> = None;
    let mut data_info = DataInfo {
        size_bytes: None,
        segments: Vec::new(),
        compressed: false,
        encrypted: false,
        runlist_failed: false,
        sparse: false,
    };
    let ghost target = walk_attrs(
        rec,
        first_attr as int,
        cs,
        volume_offset,
        WalkState { name: None, file_size: None, data: empty_data_info() },
    );
    while cursor <= record.len() && record.len() - cursor >= 16
        invariant
            rec == record@,
            cs == boot.cluster_size as u64,
            target == walk_attrs(
                rec,
                cursor as int,
                cs,
                volume_offset,
                WalkState { name: opt_str_view(name), file_size, data: data_info@ },
            ),
        ensures
            target == (WalkState { name: opt_str_view(name), file_size, data: data_info@ }),
        decreases record.len() - cursor,
    {
        let attr_type = read_le_u32(record, cursor).unwrap();
        if attr_type == 0xFFFF_FFFF {
            break;
        }
        let attr_len = read_le_u32(record, cursor + 4).unwrap() as usize;
        if attr_len < 16 || attr_len > record.len() - cursor {
            break;
        }
        if attr_type == 0x30 {
            match parse_file_name_attr(record, cursor, attr_len) {
                Some((parsed_name, parsed_size)) => {
                    if name.is_none() {
                        name = Some(parsed_name);
                    }
                    if file_size.is_none() && parsed_size > 0 {
                        file_size = Some(parsed_size);
                    }
                },
                None => {},
            }
        } else if attr_type == 0x80 {
            parse_data_attr(record, cursor, attr_len, boot, volume_offset, &mut data_info);
        }
        cursor += attr_len;
    }
    let ghost st = WalkState { name: opt_str_view(name), file_size, data: data_info@ };
    assert(target == st);
    let suggested_name = match name {
        Some(v) => v,
        None => {
            let mut s = String::new();
            push_str(&mut s, "mft_record_");
            push_dec(&mut s, record_number);
            push_str(&mut s, ".bin");
            s
        },
    };
    let mut note = String::new();
    push_str(&mut note, "在 MFT 记录 ");
    push_dec(&mut note, record_number);
    if is_directory {
        push_str(&mut note, " 中发现已删除目录。");
    } else {
        push_str(&mut note, " 中发现已删除文件。");
    }
    if data_info.compressed {
        push_str(&mut note, " 检测到压缩流。");
    }
    if data_info.encrypted {
        push_str(&mut note, " 检测到加密流。");
    }
    if data_info.runlist_failed {
        push_str(&mut note, " 运行列表解析失败。");
    }
    let mut category = String::new();
    if is_directory {
        push_str(&mut category, "ntfs-mft-deleted-directory");
    } else {
        push_str(&mut category, "ntfs-mft-deleted-file");
    }
    let mut id = String::new();
    push_str(&mut id, "ntfs-mft-");
    push_dec_padded(&mut id, record_number, 8);
    let first_offset = first_data_offset_exec(&data_info.segments);
    let size_bytes = if data_info.size_bytes.is_some() {
        data_info.size_bytes
    } else {
        file_size
    };
    let confidence_percent: u8 = if data_info.segments.len() == 0 { 56 } else { 82 };
    let sparse = data_info.sparse;
    let item = RecoverableItem {
        id,
        category,
        confidence_percent,
        note,
        suggested_name,
        source_path: None,
        source_offset: first_offset,
        size_bytes,
        source_segments: data_info.segments,
    };
    proof {
        assert(item@.id =~= "ntfs-mft-"@ + dec_padded(record_number as nat, 8));
        assert(item@.note =~= deleted_note(record_number, is_directory, st.data));
        assert(item@.category =~= (if is_directory {
            "ntfs-mft-deleted-directory"@
        } else {
            "ntfs-mft-deleted-file"@
        }));
        if st.name is None {
            assert(item@.suggested_name =~= "mft_record_"@ + dec(record_number as nat) + ".bin"@);
        }
    }
    Some((item, sparse))
}


/// `"[label @ offset]"`, the volume tag every NTFS note carries.
pub open spec fn vol_tag(label: Seq<char>, off: u64) -> Seq<char> {
    "["@ + label + " @ "@ + dec(off as nat) + "]"@
}

pub fn push_vol_tag(s: &mut String, label: &str, off: u64)
    ensures
        final(s)@ == old(s)@ + vol_tag(label@, off),
{
    push_str(s, "[");
    push_str(s, label);
    push_str(s, " @ ");
    push_dec(s, off);
    push_str(s, "]");
    assert(s@ =~= old(s)@ + vol_tag(label@, off));
}

/// `max(configured, 1)`.
pub open spec fn at_least_one(v: usize) -> usize {
    if v >= 1 { v } else { 1 }
}

/// The candidate limit of one NTFS volume.
pub fn max_ntfs_findings(cfg: &NtfsConfig) -> (r: usize)
    ensures
        r == at_least_one(cfg.max_findings),
{
    if cfg.max_findings >= 1 { cfg.max_findings } else { 1 }
}

pub open spec fn mft_record_cap(cfg: NtfsConfig, depth: ScanDepth) -> usize {
    at_least_one(
        match depth {
            ScanDepth::Metadata => cfg.max_mft_records_metadata,
            ScanDepth::Deep => cfg.max_mft_records_deep,
        },
    )
}

/// The record limit of one MFT scan at the given depth.
pub fn max_mft_records(cfg: &NtfsConfig, depth: ScanDepth) -> (r: usize)
    ensures
        r == mft_record_cap(*cfg, depth),
{
    let v = match depth {
        ScanDepth::Metadata => cfg.max_mft_records_metadata,
        ScanDepth::Deep => cfg.max_mft_records_deep,
    };
    if v >= 1 { v } else { 1 }
}

/// Why an MFT scan cannot start, as the note that reports it.
pub open spec fn mft_start_failure(
    boot: Seq<u8>,
    file_len: Option<u64>,
    label: Seq<char>,
    off: u64,
) -> Option<Seq<char>> {
    let tag = "NTFS 扫描 "@ + vol_tag(label, off) + "："@;
    if !ntfs_oem(boot) {
        Some(tag + "未识别为 NTFS。"@)
    } else {
        match boot_info_of(boot) {
            None => Some(tag + "引导扇区字段无效。"@),
            Some(info) => match mft_capacity(file_len, info) {
                None => Some(tag + "无法获取源容量。"@),
                Some(size) => {
                    let rel = info.mft_lcn * info.cluster_size;
                    if rel > u64::MAX {
                        Some(tag + "MFT 偏移溢出。"@)
                    } else if off + rel > u64::MAX {
                        Some(tag + "MFT 绝对偏移溢出。"@)
                    } else if off + rel >= size {
                        Some(
                            tag + "MFT 偏移 "@ + dec((off + rel) as nat) + " 超出容量 "@ + dec(
                                size as nat,
                            ) + "。"@,
                        )
                    } else if (size - (off + rel)) / (info.record_size as int) == 0 {
                        Some("NTFS 扫描终止：没有足够空间读取 MFT 记录。"@)
                    } else {
                        None
                    }
                },
            },
        }
    }
}

/// The source size: the file length when known and non-zero, else the
/// size the boot sector declares.
pub open spec fn mft_capacity(file_len: Option<u64>, info: NtfsBootInfo) -> Option<u64> {
    match file_len {
        Some(n) if n > 0 => Some(n),
        _ => {
            let v = info.total_sectors * info.bytes_per_sector;
            if v > u64::MAX { None } else { Some(v as u64) }
        },
    }
}

/// A started MFT scan: the geometry, the range of records to read and the
/// candidates found so far.
pub struct MftScan {
    pub boot_info: NtfsBootInfo,
    pub volume_offset: u64,
    pub mft_offset: u64,
    pub record_size: u64,
    pub records_to_scan: u64,
    pub max_findings: usize,
    pub label: String,
    pub items: Vec<RecoverableItem>,
    pub summary: NtfsDataSummary,
}

impl MftScan {
    /// Every record of the range lies inside the source.
    /// Every candidate so far counts once, as recoverable or as metadata
    /// only, those with sparse runs are among the recoverable ones, and the
    /// candidates stay within the limit.
    pub open spec fn counts_consistent(&self) -> bool {
        &&& self.summary.recoverable + self.summary.metadata_only == self.items@.len()
        &&& self.summary.recoverable_with_sparse <= self.summary.recoverable
        &&& self.items@.len() <= self.max_findings
    }

    pub open spec fn wf(&self) -> bool {
        &&& self.record_size >= 256
        &&& self.mft_offset + self.records_to_scan * self.record_size <= u64::MAX
        &&& self.max_findings >= 1
        &&& self.record_size == self.boot_info.record_size
    }

    /// Byte offset of record `index`.
    pub fn record_offset(&self, index: u64) -> (r: u64)
        requires
            self.wf(),
            index < self.records_to_scan,
        ensures
            r == self.mft_offset + index * self.record_size,
    {
        assert(index * self.record_size <= self.records_to_scan * self.record_size)
            by (nonlinear_arith)
            requires
                index < self.records_to_scan,
        ;
        self.mft_offset + index * self.record_size
    }
}

/// Statistics after one more candidate, keyed on what its note reports.
pub open spec fn summary_after(s: NtfsDataSummary, item: ItemModel, sparse: bool) -> NtfsDataSummary {
    let s1 = if item.source_segments.len() == 0 {
        NtfsDataSummary { metadata_only: sat_inc(s.metadata_only), ..s }
    } else {
        NtfsDataSummary {
            recoverable: sat_inc(s.recoverable),
            recoverable_with_sparse: if sparse {
                sat_inc(s.recoverable_with_sparse)
            } else {
                s.recoverable_with_sparse
            },
            ..s
        }
    };
    let s2 = if contains_seq(item.note, "压缩"@) {
        NtfsDataSummary { unsupported_compressed: sat_inc(s1.unsupported_compressed), ..s1 }
    } else {
        s1
    };
    let s3 = if contains_seq(item.note, "加密"@) {
        NtfsDataSummary { unsupported_encrypted: sat_inc(s2.unsupported_encrypted), ..s2 }
    } else {
        s2
    };
    if contains_seq(item.note, "运行列表解析失败"@) {
        NtfsDataSummary { runlist_failed: sat_inc(s3.runlist_failed), ..s3 }
    } else {
        s3
    }
}

/// Each new NTFS candidate counts once, as recoverable or as metadata only,
/// and candidates with sparse runs stay among the recoverable ones.
pub proof fn law_ntfs_candidate_counted_once(s: NtfsDataSummary, item: ItemModel, sparse: bool)
    requires
        s.recoverable + s.metadata_only < u64::MAX,
        s.recoverable_with_sparse <= s.recoverable,
    ensures
        summary_after(s, item, sparse).recoverable + summary_after(s, item, sparse).metadata_only
            == s.recoverable + s.metadata_only + 1,
        summary_after(s, item, sparse).recoverable_with_sparse <= summary_after(s, item, sparse).recoverable,
{
}

pub open spec fn sat_inc(v: u64) -> u64 {
    if v == u64::MAX { v } else { (v + 1) as u64 }
}

fn note_mentions(note: &String, word: &str) -> (r: bool)
    ensures
        r == contains_seq(note@, word@),
{
    let a = str_chars(note.as_str());
    let b = str_chars(word);
    chars_contain(a.as_slice(), b.as_slice())
}

fn push_tag_note(notes: &mut Vec<String>, label: &str, off: u64, tail: &str)
    ensures
        final(notes)@.len() == old(notes)@.len() + 1,
        forall|i: int| 0 <= i < old(notes)@.len() ==> final(notes)@[i] == old(notes)@[i],
        final(notes)@.last()@ == "NTFS 扫描 "@ + vol_tag(label@, off) + "："@ + tail@,
{
    let mut s = String::new();
    push_str(&mut s, "NTFS 扫描 ");
    push_vol_tag(&mut s, label, off);
    push_str(&mut s, "：");
    push_str(&mut s, tail);
    assert(s@ =~= "NTFS 扫描 "@ + vol_tag(label@, off) + "："@ + tail@);
    notes.push(s);
}

/// The note describing the boot sector of the volume at `off`.
pub open spec fn mft_boot_note(label: Seq<char>, off: u64, info: NtfsBootInfo) -> Seq<char> {
    "NTFS 引导信息 "@ + vol_tag(label, off) + "：每扇区字节="@ + dec(info.bytes_per_sector as nat) + "，每簇扇区="@
        + dec(info.sectors_per_cluster as nat) + "，簇大小="@ + dec(info.cluster_size as nat) + "，总扇区="@
        + dec(info.total_sectors as nat) + "，MFT LCN="@ + dec(info.mft_lcn as nat) + "，记录大小="@
        + dec(info.record_size as nat)
}

/// The note announcing the range of MFT records a scan reads.
pub open spec fn mft_range_note(label: Seq<char>, off: u64, mft_offset: u64, records: u64) -> Seq<char> {
    "NTFS MFT 扫描 "@ + vol_tag(label, off) + "：从偏移 "@ + dec(mft_offset as nat) + " 扫描 "@ + dec(records as nat)
        + " 条记录。"@
}

/// Starts the MFT scan of the NTFS volume at `volume_offset` from its boot
/// sector and the source length; `None`, with one note saying why, when the
/// volume cannot be scanned.
pub fn begin_mft_scan(
    boot: &[u8],
    file_len: Option<u64>,
    depth: ScanDepth,
    cfg: &NtfsConfig,
    volume_offset: u64,
    label: &str,
    notes: &mut Vec<String>,
) -> (r: Option<MftScan>)
    ensures
        r is None <==> mft_start_failure(boot@, file_len, label@, volume_offset) is Some,
        r is None ==> final(notes)@.len() == old(notes)@.len() + 1 && final(notes)@.last()@
            == mft_start_failure(boot@, file_len, label@, volume_offset).unwrap(),
        r matches Some(scan) ==> {
            let info = boot_info_of(boot@).unwrap();
            let size = mft_capacity(file_len, info).unwrap();
            let mft = volume_offset + info.mft_lcn * info.cluster_size;
            &&& scan.wf()
            &&& boot_info_of(boot@) == Some(scan.boot_info)
            &&& scan.mft_offset == mft
            &&& scan.record_size == info.record_size
            &&& scan.records_to_scan == if (size - mft) / (info.record_size as int) <= mft_record_cap(*cfg, depth) {
                (size - mft) / (info.record_size as int)
            } else {
                mft_record_cap(*cfg, depth) as int
            }
            &&& scan.volume_offset == volume_offset
            &&& scan.label@ == label@
            &&& scan.items@.len() == 0
            &&& scan.summary == NtfsDataSummary::zero()
            &&& scan.counts_consistent()
            &&& scan.max_findings == at_least_one(cfg.max_findings)
            &&& final(notes)@.len() == old(notes)@.len() + 2
            &&& final(notes)@[old(notes)@.len() as int]@ == mft_boot_note(label@, volume_offset, info)
            &&& final(notes)@[old(notes)@.len() as int + 1]@ == mft_range_note(
                label@,
                volume_offset,
                scan.mft_offset,
                scan.records_to_scan,
            )
        },
        forall|i: int| 0 <= i < old(notes)@.len() ==> final(notes)@[i] == old(notes)@[i],
{
    if !has_ntfs_oem(boot) {
        push_tag_note(notes, label, volume_offset, "未识别为 NTFS。");
        return None;
    }
    let info = match parse_boot_info(boot) {
        Some(v) => v,
        None => {
            push_tag_note(notes, label, volume_offset, "引导扇区字段无效。");
            return None;
        },
    };
    let declared = (info.total_sectors).checked_mul(info.bytes_per_sector as u64);
    let file_size = match file_len {
        Some(n) if n > 0 => n,
        _ => match declared {
            Some(v) => v,
            None => {
                push_tag_note(notes, label, volume_offset, "无法获取源容量。");
                return None;
            },
        },
    };
    let rel = match info.mft_lcn.checked_mul(info.cluster_size as u64) {
        Some(v) => v,
        None => {
            push_tag_note(notes, label, volume_offset, "MFT 偏移溢出。");
            return None;
        },
    };
    let mft_offset = match volume_offset.checked_add(rel) {
        Some(v) => v,
        None => {
            push_tag_note(notes, label, volume_offset, "MFT 绝对偏移溢出。");
            return None;
        },
    };
    if mft_offset >= file_size {
        let mut tail = String::new();
        push_str(&mut tail, "MFT 偏移 ");
        push_dec(&mut tail, mft_offset);
        push_str(&mut tail, " 超出容量 ");
        push_dec(&mut tail, file_size);
        push_str(&mut tail, "。");
        push_tag_note(notes, label, volume_offset, tail.as_str());
        proof {
            assert(notes@.last()@ =~= mft_start_failure(boot@, file_len, label@, volume_offset).unwrap());
        }
        return None;
    }
    let record_size = info.record_size as u64;
    let max_records_by_size = (file_size - mft_offset) / record_size;
    if max_records_by_size == 0 {
        notes.push(owned_str("NTFS 扫描终止：没有足够空间读取 MFT 记录。"));
        return None;
    }
    let cap = max_mft_records(cfg, depth) as u64;
    let records_to_scan = if max_records_by_size <= cap { max_records_by_size } else { cap };
    assert(records_to_scan * record_size <= file_size - mft_offset) by (nonlinear_arith)
        requires
            records_to_scan <= max_records_by_size,
            max_records_by_size == (file_size - mft_offset) as int / record_size as int,
            record_size > 0,
    ;
    let mut n1 = String::new();
    push_str(&mut n1, "NTFS 引导信息 ");
    push_vol_tag(&mut n1, label, volume_offset);
    push_str(&mut n1, "：每扇区字节=");
    push_dec(&mut n1, info.bytes_per_sector as u64);
    push_str(&mut n1, "，每簇扇区=");
    push_dec(&mut n1, info.sectors_per_cluster as u64);
    push_str(&mut n1, "，簇大小=");
    push_dec(&mut n1, info.cluster_size as u64);
    push_str(&mut n1, "，总扇区=");
    push_dec(&mut n1, info.total_sectors);
    push_str(&mut n1, "，MFT LCN=");
    push_dec(&mut n1, info.mft_lcn);
    push_str(&mut n1, "，记录大小=");
    push_dec(&mut n1, info.record_size as u64);
    assert(n1@ =~= mft_boot_note(label@, volume_offset, info));
    notes.push(n1);
    let mut n2 = String::new();
    push_str(&mut n2, "NTFS MFT 扫描 ");
    push_vol_tag(&mut n2, label, volume_offset);
    push_str(&mut n2, "：从偏移 ");
    push_dec(&mut n2, mft_offset);
    push_str(&mut n2, " 扫描 ");
    push_dec(&mut n2, records_to_scan);
    push_str(&mut n2, " 条记录。");
    assert(n2@ =~= mft_range_note(label@, volume_offset, mft_offset, records_to_scan));
    notes.push(n2);
    Some(
        MftScan {
            boot_info: info,
            volume_offset,
            mft_offset,
            record_size,
            records_to_scan,
            max_findings: max_ntfs_findings(cfg),
            label: owned_str(label),
            items: Vec::new(),
            summary: NtfsDataSummary::new_zero(),
        },
    )
}

fn owned_str(s: &str) -> (r: String)
    ensures
        r@ == s@,
{
    crate::text::owned(s)
}

impl MftScan {
    /// Takes in record `index` as read from the source. A deleted record
    /// becomes a candidate and counts in the statistics; the result is
    /// `false` once the candidate limit is reached (with a note saying so),
    /// `true` while the scan goes on.
    pub fn absorb_record(&mut self, record: &[u8], index: u64, notes: &mut Vec<String>) -> (r: bool)
        requires
            old(self).items@.len() < old(self).max_findings,
        ensures
            final(self).boot_info == old(self).boot_info,
            final(self).volume_offset == old(self).volume_offset,
            final(self).mft_offset == old(self).mft_offset,
            final(self).record_size == old(self).record_size,
            final(self).records_to_scan == old(self).records_to_scan,
            final(self).max_findings == old(self).max_findings,
            final(self).label == old(self).label,
            !mft_sig(record@) || deleted_record(
                record@,
                index,
                old(self).boot_info.cluster_size as u64,
                old(self).volume_offset,
            ) is None ==> {
                &&& final(self).items@ == old(self).items@
                &&& final(self).summary == old(self).summary
                &&& final(notes)@ == old(notes)@
                &&& r
            },
            mft_sig(record@) ==> (deleted_record(
                record@,
                index,
                old(self).boot_info.cluster_size as u64,
                old(self).volume_offset,
            ) matches Some((item, sparse)) ==> {
                &&& final(self).items@.len() == old(self).items@.len() + 1
                &&& final(self).items@.last()@ == item
                &&& forall|i: int|
                    0 <= i < old(self).items@.len() ==> final(self).items@[i] == old(self).items@[i]
                &&& final(self).summary == summary_after(old(self).summary, item, sparse)
                &&& r == (final(self).items@.len() < final(self).max_findings)
                &&& r ==> final(notes)@ == old(notes)@
                &&& !r ==> final(notes)@ == old(notes)@.push(final(notes)@.last())
                    && final(notes)@.last()@ == "NTFS 扫描 "@ + vol_tag(old(self).label@, old(self).volume_offset)
                    + "：结果已截断到 "@ + dec(old(self).max_findings as nat) + " 条。"@
            }),
            old(self).counts_consistent() ==> final(self).counts_consistent(),
    {
        if !has_mft_sig(record) {
            return true;
        }
        let (item, sparse) = match parse_deleted_record(
            record,
            index,
            &self.boot_info,
            self.volume_offset,
        ) {
            Some(v) => v,
            None => {
                return true;
            },
        };
        let ghost s0 = self.summary;
        if item.source_segments.len() == 0 {
            self.summary.metadata_only = self.summary.metadata_only.saturating_add(1);
        } else {
            self.summary.recoverable = self.summary.recoverable.saturating_add(1);
            if sparse {
                self.summary.recoverable_with_sparse = self.summary.recoverable_with_sparse.saturating_add(1);
            }
        }
        if note_mentions(&item.note, "压缩") {
            self.summary.unsupported_compressed = self.summary.unsupported_compressed.saturating_add(1);
        }
        if note_mentions(&item.note, "加密") {
            self.summary.unsupported_encrypted = self.summary.unsupported_encrypted.saturating_add(1);
        }
        if note_mentions(&item.note, "运行列表解析失败") {
            self.summary.runlist_failed = self.summary.runlist_failed.saturating_add(1);
        }
        assert(self.summary == summary_after(s0, item@, sparse));
        proof {
            if old(self).counts_consistent() {
                law_ntfs_candidate_counted_once(s0, item@, sparse);
            }
        }
        self.items.push(item);
        if self.items.len() >= self.max_findings {
            let mut s = String::new();
            push_str(&mut s, "NTFS 扫描 ");
            push_vol_tag(&mut s, self.label.as_str(), self.volume_offset);
            push_str(&mut s, "：结果已截断到 ");
            push_dec(&mut s, self.max_findings as u64);
            push_str(&mut s, " 条。");
            notes.push(s);
            return false;
        }
        true
    }

    /// Ends the scan with a note counting the candidates.
    pub fn finish(self, notes: &mut Vec<String>) -> (r: NtfsScanOutput)
        ensures
            r.items@ == self.items@,
            r.summary == self.summary,
            self.counts_consistent() ==> r.summary.recoverable + r.summary.metadata_only == r.items@.len()
                && r.items@.len() <= self.max_findings,
            final(notes)@ == old(notes)@.push(final(notes)@.last()),
            final(notes)@.last()@ == "NTFS MFT 扫描完成 "@ + vol_tag(self.label@, self.volume_offset)
                + "：发现 "@ + dec(self.items@.len()) + " 个删除候选项。"@,
    {
        let mut s = String::new();
        push_str(&mut s, "NTFS MFT 扫描完成 ");
        push_vol_tag(&mut s, self.label.as_str(), self.volume_offset);
        push_str(&mut s, "：发现 ");
        push_dec(&mut s, self.items.len() as u64);
        push_str(&mut s, " 个删除候选项。");
        notes.push(s);
        NtfsScanOutput { items: self.items, summary: self.summary }
    }
}

} // verus!
