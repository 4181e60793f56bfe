//! Partition tables: MBR primary entries, the EBR chain of an extended
//! partition, and GPT.
use std::collections::{BTreeMap, HashSet};
use vstd::prelude::*;
use crate::bytes::{has_field, le_at, le_uint_at, read_le_u32, read_le_u64, bytes_occur_at};
use crate::model::{cands, CandModel, PartitionCandidate};
use crate::ntfs::le_words;
use crate::text::{chars_contain, contains_seq,
    char_is_ascii_alphabetic, dec, from_utf16_lossy, is_ascii_alpha, lower, owned, push_dec,
    push_note, push_str, str_chars, strs, trim, trim_string, utf16_lossy,
};

verus! {

broadcast use vstd::std_specs::hash::group_hash_axioms;

/// Partition type name of an MBR type code.
pub open spec fn mbr_type_name(code: u8) -> Seq<char> {
    if code == 0x01 {
        "fat12"@
    } else if code == 0x04 || code == 0x06 || code == 0x0E {
        "fat16"@
    } else if code == 0x07 {
        "ntfs-exfat"@
    } else if code == 0x0B || code == 0x0C {
        "fat32"@
    } else if code == 0x27 {
        "win-recovery"@
    } else if code == 0x82 {
        "linux-swap"@
    } else if code == 0x83 {
        "linux"@
    } else if code == 0xAF {
        "hfs-apfs"@
    } else {
        "unknown"@
    }
}

pub fn mbr_partition_type_name(code: u8) -> (r: &'static str)
    ensures
        r@ == mbr_type_name(code),
{
    if code == 0x01 {
        "fat12"
    } else if code == 0x04 || code == 0x06 || code == 0x0E {
        "fat16"
    } else if code == 0x07 {
        "ntfs-exfat"
    } else if code == 0x0B || code == 0x0C {
        "fat32"
    } else if code == 0x27 {
        "win-recovery"
    } else if code == 0x82 {
        "linux-swap"
    } else if code == 0x83 {
        "linux"
    } else if code == 0xAF {
        "hfs-apfs"
    } else {
        "unknown"
    }
}

/// The Microsoft Basic Data type GUID in on-disk byte order.
pub open spec fn ms_basic_data_guid() -> Seq<u8> {
    seq![
        0xA2u8, 0xA0u8, 0xD0u8, 0xEBu8, 0xE5u8, 0xB9u8, 0x33u8, 0x44u8, 0x87u8, 0xC0u8, 0x68u8,
        0xB6u8, 0xB7u8, 0x26u8, 0x99u8, 0xC7u8,
    ]
}

pub open spec fn gpt_type(guid: Seq<u8>) -> Seq<char> {
    if guid == ms_basic_data_guid() { "ms-basic-data"@ } else { "unknown"@ }
}

/// Type name of the GPT type GUID at `entry[0..16]`.
pub fn gpt_type_name(entry: &[u8]) -> (r: &'static str)
    requires
        entry.len() >= 16,
    ensures
        r@ == gpt_type(entry@.subrange(0, 16)),
{
    let guid: [u8; 16] = [
        0xA2, 0xA0, 0xD0, 0xEB, 0xE5, 0xB9, 0x33, 0x44, 0x87, 0xC0, 0x68, 0xB6, 0xB7, 0x26, 0x99,
        0xC7,
    ];
    assert(guid@ =~= ms_basic_data_guid());
    if bytes_occur_at(entry, &guid, 0) {
        "ms-basic-data"
    } else {
        proof {
            assert(entry@.subrange(0, 16) != ms_basic_data_guid());
        }
        "unknown"
    }
}

/// `\\.\X:` or `\\?\X:` at the start of a path (ASCII case ignored).
pub open spec fn raw_device_prefix(s: Seq<char>) -> bool {
    &&& s.len() >= 6
    &&& s[0] == '\\'
    &&& s[1] == '\\'
    &&& (s[2] == '.' || s[2] == '?')
    &&& s[3] == '\\'
    &&& is_ascii_alpha(s[4])
    &&& s[5] == ':'
}

/// Whether a path names a Windows raw volume (`\\.\X:` or `\\?\X:`).
pub fn is_windows_raw_device_path(path: &str) -> (r: bool)
    ensures
        r == raw_device_prefix(path@),
{
    let cs = str_chars(path);
    cs.len() >= 6 && cs[0] == '\\' && cs[1] == '\\' && (cs[2] == '.' || cs[2] == '?') && cs[3]
        == '\\' && char_is_ascii_alphabetic(cs[4]) && cs[5] == ':'
}

/// The words of a GPT name field up to the first NUL word (a trailing odd byte ignored).
pub open spec fn words_until_nul(words: Seq<u16>) -> Seq<u16>
    decreases words.len(),
{
    if words.len() == 0 || words[0] == 0 {
        Seq::empty()
    } else {
        seq![words[0]] + words_until_nul(words.drop_first())
    }
}

/// A GPT partition name: UTF-16LE up to the first NUL, decoded lossily and trimmed.
pub open spec fn gpt_name(bytes: Seq<u8>) -> Seq<char> {
    trim(utf16_lossy(words_until_nul(le_words(bytes))))
}

/// Decodes the UTF-16LE partition name in `bytes[start..]`.
pub fn decode_utf16_name(bytes: &[u8], start: usize) -> (r: String)
    requires
        start <= bytes.len(),
    ensures
        r@ == gpt_name(bytes@.subrange(start as int, bytes@.len() as int)),
{
    let ghost sub = bytes@.subrange(start as int, bytes@.len() as int);
    let n = (bytes.len() - start) / 2;
    let mut words: Vec<u16> = Vec::new();
    let mut i: usize = 0;
    assert(le_words(sub).subrange(0, n as int) =~= le_words(sub));
    assert(words@ + words_until_nul(le_words(sub)) =~= words_until_nul(le_words(sub)));
    while i < n
        invariant
            start <= bytes.len(),
            n == (bytes.len() - start) / 2,
            sub == bytes@.subrange(start as int, bytes@.len() as int),
            i <= n,
            le_words(sub).len() == n,
            words_until_nul(le_words(sub)) == words@ + words_until_nul(le_words(sub).subrange(i as int, n as int)),
        ensures
            words_until_nul(le_words(sub)) == words@,
        decreases n - i,
    {
        let w = le_uint_at(bytes, start + 2 * i, 2);
        proof {
            assert(crate::bytes::field(bytes@, start + 2 * i, 2) =~= crate::bytes::field(sub, 2 * i, 2));
            crate::bytes::lemma_le_uint_bound(crate::bytes::field(sub, 2 * i, 2));
            crate::bytes::lemma_pow256_values();
            let rest = le_words(sub).subrange(i as int, n as int);
            assert(rest[0] == w as u16);
            assert(rest.drop_first() =~= le_words(sub).subrange(i + 1, n as int));
        }
        if w == 0 {
            proof {
                assert(words@ + Seq::<u16>::empty() =~= words@);
            }
            break;
        }
        let ghost before = words@;
        words.push(w as u16);
        i += 1;
        proof {
            let tail = words_until_nul(le_words(sub).subrange(i as int, n as int));
            assert(words@ + tail =~= before + (seq![w as u16] + tail));
        }
    }
    proof {
        if i == n {
            assert(le_words(sub).subrange(n as int, n as int).len() == 0);
            assert(words@ + Seq::<u16>::empty() =~= words@);
        }
    }
    let text = from_utf16_lossy(words.as_slice());
    trim_string(text.as_str())
}


/// Type code, first LBA and sector count of slot `k` of a partition table sector.
pub open spec fn slot_type(s: Seq<u8>, k: int) -> u8 {
    s[446 + 16 * k + 4]
}

pub open spec fn slot_lba(s: Seq<u8>, k: int) -> nat {
    le_at(s, 446 + 16 * k + 8, 4)
}

pub open spec fn slot_sectors(s: Seq<u8>, k: int) -> nat {
    le_at(s, 446 + 16 * k + 12, 4)
}

/// The boot signature `55 AA` at bytes 510..512.
pub open spec fn boot_sig(s: Seq<u8>) -> bool {
    s.len() >= 512 && s[510] == 0x55 && s[511] == 0xAA
}

pub open spec fn is_extended(code: u8) -> bool {
    code == 0x05 || code == 0x0F || code == 0x85
}

/// Reads slot `k` of a partition table sector.
pub fn table_slot(s: &[u8], k: usize) -> (r: (u8, u64, u64))
    requires
        s.len() >= 512,
        k < 4,
    ensures
        r.0 == slot_type(s@, k as int),
        r.1 == slot_lba(s@, k as int),
        r.2 == slot_sectors(s@, k as int),
        r.1 < 0x1_0000_0000,
        r.2 < 0x1_0000_0000,
{
    let base = 446 + 16 * k;
    let lba = read_le_u32(s, base + 8).unwrap();
    let sectors = read_le_u32(s, base + 12).unwrap();
    (s[base + 4], lba as u64, sectors as u64)
}

/// A primary MBR entry: the candidate, or the note saying why it is dropped.
pub open spec fn primary_outcome(index1: nat, code: u8, lba: nat, sectors: nat, fs: u64) -> Result<
    CandModel,
    Seq<char>,
> {
    let offset = lba * 512;
    if offset >= fs {
        Err(
            "分区扫描：MBR 表项 "@ + dec(index1) + " 的偏移 "@ + dec(offset) + " 超出文件大小 "@ + dec(
                fs as nat,
            ) + "。"@,
        )
    } else {
        Ok(
            CandModel {
                offset: offset as u64,
                size: (sectors * 512) as u64,
                label: "mbr-"@ + dec(index1) + "-"@ + mbr_type_name(code),
                scheme: "MBR"@,
            },
        )
    }
}

/// Builds the candidate of a primary MBR entry numbered `index1` (from 1).
pub fn primary_candidate(index1: usize, code: u8, lba: u64, sectors: u64, file_size: u64) -> (r:
    Result<PartitionCandidate, String>)
    requires
        lba < 0x1_0000_0000,
        sectors < 0x1_0000_0000,
    ensures
        r matches Ok(c) ==> primary_outcome(index1 as nat, code, lba as nat, sectors as nat, file_size)
            == Ok::<CandModel, Seq<char>>(c@),
        r matches Err(n) ==> primary_outcome(index1 as nat, code, lba as nat, sectors as nat, file_size)
            == Err::<CandModel, Seq<char>>(n@),
{
    let offset = lba * 512;
    if offset >= file_size {
        let mut n = String::new();
        push_str(&mut n, "分区扫描：MBR 表项 ");
        push_dec(&mut n, index1 as u64);
        push_str(&mut n, " 的偏移 ");
        push_dec(&mut n, offset);
        push_str(&mut n, " 超出文件大小 ");
        push_dec(&mut n, file_size);
        push_str(&mut n, "。");
        proof {
            assert(n@ =~= primary_outcome(index1 as nat, code, lba as nat, sectors as nat, file_size)->Err_0);
        }
        return Err(n);
    }
    let mut label = String::new();
    push_str(&mut label, "mbr-");
    push_dec(&mut label, index1 as u64);
    push_str(&mut label, "-");
    push_str(&mut label, mbr_partition_type_name(code));
    let c = PartitionCandidate { offset, size: sectors * 512, label, scheme: owned("MBR") };
    proof {
        assert(c@.label =~= "mbr-"@ + dec(index1 as nat) + "-"@ + mbr_type_name(code));
    }
    Ok(c)
}

/// Running state of the walk over the four entries of one EBR.
pub struct EbrAcc {
    pub found: Seq<CandModel>,
    pub notes: Seq<Seq<char>>,
    pub next: Option<u64>,
    pub logical: nat,
}

/// The next logical partition number (saturating at `usize::MAX`).
pub open spec fn next_logical(n: nat) -> nat {
    if n >= usize::MAX { n } else { n + 1 }
}

/// Effect of entry `k` of the EBR at LBA `cur` (chain step `step`, from 0).
pub open spec fn ebr_entry_step(
    ebr: Seq<u8>,
    k: int,
    cur: u64,
    base: u64,
    last: Option<u64>,
    step: nat,
    fs: u64,
    acc: EbrAcc,
) -> EbrAcc {
    let code = slot_type(ebr, k);
    let rel = slot_lba(ebr, k);
    let sectors = slot_sectors(ebr, k);
    let start = cur + rel;
    let offset = start * 512;
    let where_ = "分区扫描：EBR "@ + dec(step + 1) + " 逻辑分区表项 "@ + dec((k + 1) as nat);
    if code == 0 || sectors == 0 {
        acc
    } else if is_extended(code) {
        EbrAcc { next: Some((base + rel) as u64), ..acc }
    } else if offset >= fs {
        EbrAcc {
            notes: acc.notes.push(
                where_ + " 的偏移 "@ + dec(offset as nat) + " 超出源大小 "@ + dec(fs as nat) + "。"@,
            ),
            ..acc
        }
    } else if last is Some && (start < base || start + sectors - 1 > last.unwrap()) {
        EbrAcc { notes: acc.notes.push(where_ + " 超出扩展分区边界。"@), ..acc }
    } else {
        EbrAcc {
            found: acc.found.push(
                CandModel {
                    offset: offset as u64,
                    size: (sectors * 512) as u64,
                    label: "mbr-logical-"@ + dec(next_logical(acc.logical)) + "-"@ + mbr_type_name(code),
                    scheme: "MBR"@,
                },
            ),
            logical: next_logical(acc.logical),
            ..acc
        }
    }
}

/// In an EBR, an entry of type 0x05, 0x0F or 0x85 that spans sectors is the
/// link to the next EBR, at the extended partition's base plus its relative
/// LBA, and is never reported as a logical partition.
pub proof fn law_ebr_link_entry(
    ebr: Seq<u8>,
    k: int,
    cur: u64,
    base: u64,
    last: Option<u64>,
    step: nat,
    fs: u64,
    acc: EbrAcc,
)
    requires
        slot_type(ebr, k) == 0x05 || slot_type(ebr, k) == 0x0F || slot_type(ebr, k) == 0x85,
        slot_sectors(ebr, k) != 0,
    ensures
        ebr_entry_step(ebr, k, cur, base, last, step, fs, acc).next == Some((base + slot_lba(ebr, k)) as u64),
        ebr_entry_step(ebr, k, cur, base, last, step, fs, acc).found == acc.found,
        ebr_entry_step(ebr, k, cur, base, last, step, fs, acc).logical == acc.logical,
        ebr_entry_step(ebr, k, cur, base, last, step, fs, acc).notes == acc.notes,
{
}

/// An EBR entry of any other type never changes the link to the next EBR,
/// and an empty entry changes nothing.
pub proof fn law_ebr_other_entry(
    ebr: Seq<u8>,
    k: int,
    cur: u64,
    base: u64,
    last: Option<u64>,
    step: nat,
    fs: u64,
    acc: EbrAcc,
)
    requires
        !(slot_type(ebr, k) == 0x05 || slot_type(ebr, k) == 0x0F || slot_type(ebr, k) == 0x85),
    ensures
        ebr_entry_step(ebr, k, cur, base, last, step, fs, acc).next == acc.next,
        slot_type(ebr, k) == 0 || slot_sectors(ebr, k) == 0 ==> ebr_entry_step(ebr, k, cur, base, last, step, fs, acc)
            == acc,
{
}

/// The four entries of an EBR, from entry `k` on.
pub open spec fn ebr_entries(
    ebr: Seq<u8>,
    k: int,
    cur: u64,
    base: u64,
    last: Option<u64>,
    step: nat,
    fs: u64,
    acc: EbrAcc,
) -> EbrAcc
    decreases 4 - k,
{
    if k >= 4 || k < 0 {
        acc
    } else {
        ebr_entries(ebr, k + 1, cur, base, last, step, fs, ebr_entry_step(ebr, k, cur, base, last, step, fs, acc))
    }
}


/// The EBR chain of one extended partition, walked one sector at a time.
pub struct EbrChain {
    /// Number (from 1) of the MBR entry that declares the extended partition.
    pub entry_index: usize,
    pub base_lba: u64,
    pub last_lba: Option<u64>,
    /// LBA of the EBR to read next.
    pub current: u64,
    pub step: usize,
    pub max_steps: usize,
    pub visited: HashSet<u64>,
    pub logical: usize,
    pub found: Vec<PartitionCandidate>,
    /// Whether another EBR is to be read.
    pub active: bool,
}

pub struct EbrModel {
    pub entry_index: nat,
    pub base_lba: u64,
    pub last_lba: Option<u64>,
    pub current: u64,
    pub step: nat,
    pub max_steps: nat,
    pub visited: Set<u64>,
    pub logical: nat,
    pub found: Seq<CandModel>,
    pub active: bool,
}

impl View for EbrChain {
    type V = EbrModel;

    open spec fn view(&self) -> EbrModel {
        EbrModel {
            entry_index: self.entry_index as nat,
            base_lba: self.base_lba,
            last_lba: self.last_lba,
            current: self.current,
            step: self.step as nat,
            max_steps: self.max_steps as nat,
            visited: self.visited@,
            logical: self.logical as nat,
            found: cands(self.found@),
            active: self.active,
        }
    }
}

impl EbrChain {
    pub open spec fn wf(&self) -> bool {
        &&& self.base_lba < 0x1_0000_0000
        &&& self.current < 0x2_0000_0000
        &&& self.max_steps >= 1
        &&& self.step <= self.max_steps
        &&& self.visited@.finite()
        &&& self.visited@.len() <= self.step + 1
        &&& self.entry_index < 8
        &&& self.last_lba matches Some(l) ==> l < 0x2_0000_0000
    }
}

/// The loop-top check before reading the EBR at `m.current`.
pub open spec fn ebr_visit(m: EbrModel, fs: u64) -> (EbrModel, Seq<Seq<char>>) {
    let off = m.current * 512;
    if m.step >= m.max_steps {
        (EbrModel { active: false, ..m }, Seq::empty())
    } else if m.visited.contains(m.current) {
        (
            EbrModel { active: false, ..m },
            seq![
                "分区扫描：在 MBR 表项 "@ + dec(m.entry_index) + " 的 LBA "@ + dec(m.current as nat)
                    + " 处检测到 EBR 链循环。"@,
            ],
        )
    } else if off >= fs {
        (
            EbrModel { active: false, visited: m.visited.insert(m.current), ..m },
            seq![
                "分区扫描：MBR 表项 "@ + dec(m.step + 1) + " 的 EBR "@ + dec(m.entry_index)
                    + " 超出源范围（偏移 "@ + dec(off as nat) + "，大小 "@ + dec(fs as nat) + "）。"@,
            ],
        )
    } else {
        (EbrModel { active: true, visited: m.visited.insert(m.current), ..m }, Seq::empty())
    }
}

/// The chain after taking in the EBR sector at `m.current` (or the error
/// that reading it gave), with the notes this adds.
pub open spec fn ebr_feed(m: EbrModel, data: Result<Seq<u8>, Seq<char>>, fs: u64) -> (
    EbrModel,
    Seq<Seq<char>>,
) {
    match data {
        Err(e) => (
            EbrModel { active: false, ..m },
            seq![
                "分区扫描：无法读取 MBR 表项 "@ + dec(m.step + 1) + " 的 EBR "@ + dec(m.entry_index)
                    + "："@ + e,
            ],
        ),
        Ok(ebr) => if !boot_sig(ebr) {
            (
                EbrModel { active: false, ..m },
                seq![
                    "分区扫描：MBR 表项 "@ + dec(m.step + 1) + " 的 EBR "@ + dec(m.entry_index)
                        + " 签名无效。"@,
                ],
            )
        } else {
            let acc = ebr_entries(
                ebr,
                0,
                m.current,
                m.base_lba,
                m.last_lba,
                m.step,
                fs,
                EbrAcc { found: m.found, notes: Seq::empty(), next: None, logical: m.logical },
            );
            let m1 = EbrModel { found: acc.found, logical: acc.logical, ..m };
            match acc.next {
                None => (EbrModel { active: false, ..m1 }, acc.notes),
                Some(n) => if n == m.current {
                    (
                        EbrModel { active: false, ..m1 },
                        acc.notes.push(
                            "分区扫描：MBR 表项 "@ + dec(m.entry_index) + " 在 LBA "@ + dec(
                                m.current as nat,
                            ) + " 处出现 EBR 链自引用。"@,
                        ),
                    )
                } else if m.last_lba is Some && (n < m.base_lba || n > m.last_lba.unwrap()) {
                    (
                        EbrModel { active: false, ..m1 },
                        acc.notes.push(
                            "分区扫描：MBR 表项 "@ + dec(n as nat) + " 的 EBR 下一跳 "@ + dec(
                                m.entry_index,
                            ) + " 超出扩展分区边界。"@,
                        ),
                    )
                } else {
                    let v = ebr_visit(EbrModel { current: n, step: m.step + 1, ..m1 }, fs);
                    (v.0, acc.notes + v.1)
                },
            }
        },
    }
}

/// The note that ends a chain cut at its length limit, if it was.
pub open spec fn ebr_end_notes(m: EbrModel) -> Seq<Seq<char>> {
    if m.visited.len() == m.max_steps {
        seq![
            "分区扫描：MBR 表项 "@ + dec(m.entry_index) + " 的 EBR 链达到上限 "@ + dec(m.max_steps)
                + "，结果已截断。"@,
        ]
    } else {
        Seq::empty()
    }
}

/// The chain of the extended partition declared by MBR entry `entry_index`
/// at `base` spanning `sectors` sectors, before its first EBR is read, and
/// the notes its start gives.
pub open spec fn chain_start(entry_index: nat, base: u64, sectors: u64, fs: u64, max_steps: nat) -> (
    EbrModel,
    Seq<Seq<char>>,
) {
    let m0 = EbrModel {
        entry_index,
        base_lba: base,
        last_lba: if sectors > 0 { Some((base + sectors - 1) as u64) } else { None::<u64> },
        current: base,
        step: 0,
        max_steps,
        visited: Set::empty(),
        logical: 0,
        found: Seq::empty(),
        active: true,
    };
    if base * 512 >= fs {
        (
            EbrModel { active: false, ..m0 },
            seq![
                "分区扫描：来自 MBR 表项 "@ + dec(entry_index) + " 的扩展分区起始位置超出源范围（偏移 "@
                    + dec(base as nat * 512) + "，大小 "@ + dec(fs as nat) + "）。"@,
            ],
        )
    } else {
        ebr_visit(m0, fs)
    }
}

impl EbrChain {
    fn visit(&mut self, file_size: u64, notes: &mut Vec<String>)
        requires
            old(self).wf(),
            old(self).visited@.len() <= old(self).step,
        ensures
            final(self).wf(),
            (final(self)@, strs(final(notes)@).subrange(old(notes)@.len() as int, final(notes)@.len() as int))
                == ebr_visit(old(self)@, file_size),
            strs(final(notes)@).subrange(0, old(notes)@.len() as int) == strs(old(notes)@),
            final(notes)@.len() >= old(notes)@.len(),
            final(self).active ==> final(self).step < final(self).max_steps,
    {
        let ghost n0 = notes@.len();
        if self.step >= self.max_steps {
            self.active = false;
            assert(strs(notes@).subrange(n0 as int, notes@.len() as int) =~= Seq::<Seq<char>>::empty());
            assert(strs(notes@).subrange(0, n0 as int) =~= strs(old(notes)@));
            return;
        }
        if self.visited.contains(&self.current) {
            self.active = false;
            let mut n = String::new();
            push_str(&mut n, "分区扫描：在 MBR 表项 ");
            push_dec(&mut n, self.entry_index as u64);
            push_str(&mut n, " 的 LBA ");
            push_dec(&mut n, self.current);
            push_str(&mut n, " 处检测到 EBR 链循环。");
            push_note(notes, n);
            assert(strs(notes@).subrange(n0 as int, notes@.len() as int) =~= ebr_visit(old(self)@, file_size).1);
            assert(strs(notes@).subrange(0, n0 as int) =~= strs(old(notes)@));
            return;
        }
        self.visited.insert(self.current);
        let off = self.current * 512;
        if off >= file_size {
            self.active = false;
            let mut n = String::new();
            push_str(&mut n, "分区扫描：MBR 表项 ");
            push_dec(&mut n, (self.step + 1) as u64);
            push_str(&mut n, " 的 EBR ");
            push_dec(&mut n, self.entry_index as u64);
            push_str(&mut n, " 超出源范围（偏移 ");
            push_dec(&mut n, off);
            push_str(&mut n, "，大小 ");
            push_dec(&mut n, file_size);
            push_str(&mut n, "）。");
            push_note(notes, n);
            assert(strs(notes@).subrange(n0 as int, notes@.len() as int) =~= ebr_visit(old(self)@, file_size).1);
            assert(strs(notes@).subrange(0, n0 as int) =~= strs(old(notes)@));
            return;
        }
        self.active = true;
        assert(strs(notes@).subrange(n0 as int, notes@.len() as int) =~= Seq::<Seq<char>>::empty());
        assert(strs(notes@).subrange(0, n0 as int) =~= strs(old(notes)@));
    }

    /// Starts the chain of the extended partition declared by MBR entry
    /// `entry_index` (from 1) at `base_lba` spanning `sectors` sectors.
    pub fn start(
        entry_index: usize,
        base_lba: u64,
        sectors: u64,
        file_size: u64,
        max_steps: usize,
        notes: &mut Vec<String>,
    ) -> (r: EbrChain)
        requires
            1 <= entry_index <= 4,
            base_lba < 0x1_0000_0000,
            sectors < 0x1_0000_0000,
            max_steps >= 1,
        ensures
            r.wf(),
            r.entry_index == entry_index,
            r.base_lba == base_lba,
            r.last_lba == (if sectors > 0 { Some((base_lba + sectors - 1) as u64) } else { None::<u64> }),
            r.max_steps == max_steps,
            r@.found.len() == 0,
            r.logical == 0,
            base_lba * 512 >= file_size ==> !r.active && r.visited@.len() == 0 && strs(final(notes)@)
                == strs(old(notes)@).push(
                "分区扫描：来自 MBR 表项 "@ + dec(entry_index as nat) + " 的扩展分区起始位置超出源范围（偏移 "@
                    + dec(base_lba as nat * 512) + "，大小 "@ + dec(file_size as nat) + "）。"@,
            ),
            base_lba * 512 < file_size ==> ({
                let m0 = EbrModel {
                    entry_index: entry_index as nat,
                    base_lba,
                    last_lba: r.last_lba,
                    current: base_lba,
                    step: 0,
                    max_steps: max_steps as nat,
                    visited: Set::empty(),
                    logical: 0,
                    found: Seq::empty(),
                    active: true,
                };
                &&& (r@, strs(final(notes)@).subrange(old(notes)@.len() as int, final(notes)@.len() as int))
                    == ebr_visit(m0, file_size)
                &&& strs(final(notes)@).subrange(0, old(notes)@.len() as int) == strs(old(notes)@)
                &&& final(notes)@.len() >= old(notes)@.len()
            }),
            r.active ==> r.step < r.max_steps,
            strs(final(notes)@) == strs(old(notes)@) + chain_start(
                entry_index as nat,
                base_lba,
                sectors,
                file_size,
                max_steps as nat,
            ).1,
            r@ == chain_start(entry_index as nat, base_lba, sectors, file_size, max_steps as nat).0,
    {
        let last_lba = if sectors > 0 { Some(base_lba + sectors - 1) } else { None };
        let mut chain = EbrChain {
            entry_index,
            base_lba,
            last_lba,
            current: base_lba,
            step: 0,
            max_steps,
            visited: HashSet::new(),
            logical: 0,
            found: Vec::new(),
            active: false,
        };
        let base_offset = base_lba * 512;
        if base_offset >= file_size {
            let mut n = String::new();
            push_str(&mut n, "分区扫描：来自 MBR 表项 ");
            push_dec(&mut n, entry_index as u64);
            push_str(&mut n, " 的扩展分区起始位置超出源范围（偏移 ");
            push_dec(&mut n, base_offset);
            push_str(&mut n, "，大小 ");
            push_dec(&mut n, file_size);
            push_str(&mut n, "）。");
            push_note(notes, n);
            assert(chain@.found =~= Seq::<CandModel>::empty());
            assert(chain@.visited =~= Set::<u64>::empty());
            return chain;
        }
        assert(chain@.found =~= Seq::<CandModel>::empty());
        assert(chain@.visited =~= Set::<u64>::empty());
        let ghost n0 = notes@.len();
        chain.visit(file_size, notes);
        assert(strs(notes@) =~= strs(notes@).subrange(0, n0 as int) + strs(notes@).subrange(n0 as int, notes@.len() as int));
        chain
    }

    /// Byte offset of the EBR to read next, while the chain goes on.
    pub fn pending_offset(&self) -> (r: Option<u64>)
        requires
            self.wf(),
        ensures
            r == (if self.active { Some((self.current * 512) as u64) } else { None::<u64> }),
    {
        if self.active { Some(self.current * 512) } else { None }
    }
}


pub open spec fn result_view(d: Result<Vec<u8>, String>) -> Result<Seq<u8>, Seq<char>> {
    match d {
        Ok(v) => Ok(v@),
        Err(e) => Err(e@),
    }
}

impl EbrChain {
    /// Processes the entries of one EBR sector into candidates and the link to the next EBR.
    fn scan_entries(&mut self, ebr: &[u8], file_size: u64, notes: &mut Vec<String>) -> (next: Option<u64>)
        requires
            old(self).wf(),
            old(self).active,
            old(self).step < old(self).max_steps,
            ebr.len() >= 512,
        ensures
            ({
                let acc = ebr_entries(
                    ebr@,
                    0,
                    old(self).current,
                    old(self).base_lba,
                    old(self).last_lba,
                    old(self).step as nat,
                    file_size,
                    EbrAcc { found: old(self)@.found, notes: Seq::empty(), next: None, logical: old(self).logical as nat },
                );
                &&& acc.found == final(self)@.found
                &&& acc.logical == final(self).logical
                &&& acc.next == next
                &&& acc.notes == strs(final(notes)@).subrange(old(notes)@.len() as int, final(notes)@.len() as int)
            }),
            strs(final(notes)@).subrange(0, old(notes)@.len() as int) == strs(old(notes)@),
            final(notes)@.len() >= old(notes)@.len(),
            final(self)@ == (EbrModel { found: final(self)@.found, logical: final(self)@.logical, ..old(self)@ }),
            next matches Some(n) ==> n < 0x2_0000_0000,
    {
        let ghost n0 = notes@.len();
        let ghost m0 = self@;
        let ghost target = ebr_entries(
            ebr@,
            0,
            self.current,
            self.base_lba,
            self.last_lba,
            self.step as nat,
            file_size,
            EbrAcc { found: m0.found, notes: Seq::empty(), next: None, logical: self.logical as nat },
        );
        let mut next: Option<u64> = None;
        let mut k: usize = 0;
        assert(strs(notes@).subrange(n0 as int, notes@.len() as int) =~= Seq::<Seq<char>>::empty());
        while k < 4
            invariant
                k <= 4,
                ebr.len() >= 512,
                n0 <= notes@.len(),
                strs(notes@).subrange(0, n0 as int) == strs(old(notes)@),
                self.wf(),
                self@ == (EbrModel { found: self@.found, logical: self@.logical, ..m0 }),
                m0.step < m0.max_steps,
                next matches Some(n) ==> n < 0x2_0000_0000,
                target == ebr_entries(
                    ebr@,
                    k as int,
                    m0.current,
                    m0.base_lba,
                    m0.last_lba,
                    m0.step,
                    file_size,
                    EbrAcc {
                        found: self@.found,
                        notes: strs(notes@).subrange(n0 as int, notes@.len() as int),
                        next,
                        logical: self.logical as nat,
                    },
                ),
            decreases 4 - k,
        {
            let ghost acc_before = EbrAcc {
                found: self@.found,
                notes: strs(notes@).subrange(n0 as int, notes@.len() as int),
                next,
                logical: self.logical as nat,
            };
            let ghost acc_after = ebr_entry_step(ebr@, k as int, m0.current, m0.base_lba, m0.last_lba, m0.step, file_size, acc_before);
            let (code, rel, sectors) = table_slot(ebr, k);
            if code == 0 || sectors == 0 {
            } else if code == 0x05 || code == 0x0F || code == 0x85 {
                next = Some(self.base_lba + rel);
            } else {
                let start_lba = self.current + rel;
                let offset = start_lba * 512;
                if offset >= file_size {
                    let mut n = String::new();
                    push_str(&mut n, "分区扫描：EBR ");
                    push_dec(&mut n, (self.step + 1) as u64);
                    push_str(&mut n, " 逻辑分区表项 ");
                    push_dec(&mut n, (k + 1) as u64);
                    push_str(&mut n, " 的偏移 ");
                    push_dec(&mut n, offset);
                    push_str(&mut n, " 超出源大小 ");
                    push_dec(&mut n, file_size);
                    push_str(&mut n, "。");
                    push_note(notes, n);
                } else if self.last_lba.is_some() && (start_lba < self.base_lba || start_lba + sectors
                    - 1 > self.last_lba.unwrap()) {
                    let mut n = String::new();
                    push_str(&mut n, "分区扫描：EBR ");
                    push_dec(&mut n, (self.step + 1) as u64);
                    push_str(&mut n, " 逻辑分区表项 ");
                    push_dec(&mut n, (k + 1) as u64);
                    push_str(&mut n, " 超出扩展分区边界。");
                    push_note(notes, n);
                } else {
                    self.logical = self.logical.saturating_add(1);
                    let mut label = String::new();
                    push_str(&mut label, "mbr-logical-");
                    push_dec(&mut label, self.logical as u64);
                    push_str(&mut label, "-");
                    push_str(&mut label, mbr_partition_type_name(code));
                    let c = PartitionCandidate {
                        offset,
                        size: sectors * 512,
                        label,
                        scheme: owned("MBR"),
                    };
                    let ghost before = self@.found;
                    self.found.push(c);
                    proof {
                        assert(c@.label =~= "mbr-logical-"@ + dec(next_logical(acc_before.logical)) + "-"@ + mbr_type_name(code));
                        assert(self@.found =~= before.push(c@));
                    }
                }
            }
            proof {
                assert(strs(notes@).subrange(0, n0 as int) =~= strs(old(notes)@));
                let acc_now = EbrAcc {
                    found: self@.found,
                    notes: strs(notes@).subrange(n0 as int, notes@.len() as int),
                    next,
                    logical: self.logical as nat,
                };
                assert(acc_now.notes =~= acc_after.notes);
                assert(acc_now.found =~= acc_after.found);
                assert(acc_now == acc_after);
            }
            k += 1;
        }
        next
    }

    /// Takes in the EBR sector at `current` (or the message of the error
    /// reading it gave): its logical partitions become candidates, and the
    /// chain moves to the next EBR or ends.
    pub fn feed(&mut self, sector: Result<Vec<u8>, String>, file_size: u64, notes: &mut Vec<String>)
        requires
            old(self).wf(),
            old(self).active,
            old(self).step < old(self).max_steps,
            sector matches Ok(v) ==> v@.len() == 512,
        ensures
            final(self).wf(),
            final(self).active ==> final(self).step < final(self).max_steps,
            (final(self)@, strs(final(notes)@).subrange(old(notes)@.len() as int, final(notes)@.len() as int))
                == ebr_feed(old(self)@, result_view(sector), file_size),
            strs(final(notes)@).subrange(0, old(notes)@.len() as int) == strs(old(notes)@),
            final(notes)@.len() >= old(notes)@.len(),
    {
        let ghost n0 = notes@.len();
        let ghost m0 = self@;
        let ebr = match sector {
            Err(e) => {
                self.active = false;
                let mut n = String::new();
                push_str(&mut n, "分区扫描：无法读取 MBR 表项 ");
                push_dec(&mut n, (self.step + 1) as u64);
                push_str(&mut n, " 的 EBR ");
                push_dec(&mut n, self.entry_index as u64);
                push_str(&mut n, "：");
                push_str(&mut n, e.as_str());
                push_note(notes, n);
                assert(strs(notes@).subrange(n0 as int, notes@.len() as int) =~= ebr_feed(m0, result_view(sector), file_size).1);
                assert(strs(notes@).subrange(0, n0 as int) =~= strs(old(notes)@));
                return;
            },
            Ok(v) => v,
        };
        if ebr[510] != 0x55 || ebr[511] != 0xAA {
            self.active = false;
            let mut n = String::new();
            push_str(&mut n, "分区扫描：MBR 表项 ");
            push_dec(&mut n, (self.step + 1) as u64);
            push_str(&mut n, " 的 EBR ");
            push_dec(&mut n, self.entry_index as u64);
            push_str(&mut n, " 签名无效。");
            push_note(notes, n);
            assert(strs(notes@).subrange(n0 as int, notes@.len() as int) =~= ebr_feed(m0, result_view(sector), file_size).1);
            assert(strs(notes@).subrange(0, n0 as int) =~= strs(old(notes)@));
            return;
        }
        let next = self.scan_entries(ebr.as_slice(), file_size, notes);
        let ghost n1 = notes@.len();
        let ghost m1 = self@;
        match next {
            None => {
                self.active = false;
            },
            Some(next_lba) => {
                if next_lba == self.current {
                    self.active = false;
                    let mut n = String::new();
                    push_str(&mut n, "分区扫描：MBR 表项 ");
                    push_dec(&mut n, self.entry_index as u64);
                    push_str(&mut n, " 在 LBA ");
                    push_dec(&mut n, self.current);
                    push_str(&mut n, " 处出现 EBR 链自引用。");
                    push_note(notes, n);
                    assert(strs(notes@).subrange(n0 as int, notes@.len() as int) =~= strs(notes@).subrange(n0 as int, n1 as int).push(n@));
                } else if self.last_lba.is_some() && (next_lba < self.base_lba || next_lba > self.last_lba.unwrap()) {
                    self.active = false;
                    let mut n = String::new();
                    push_str(&mut n, "分区扫描：MBR 表项 ");
                    push_dec(&mut n, next_lba);
                    push_str(&mut n, " 的 EBR 下一跳 ");
                    push_dec(&mut n, self.entry_index as u64);
                    push_str(&mut n, " 超出扩展分区边界。");
                    push_note(notes, n);
                    assert(strs(notes@).subrange(n0 as int, notes@.len() as int) =~= strs(notes@).subrange(n0 as int, n1 as int).push(n@));
                } else {
                    self.current = next_lba;
                    self.step = self.step + 1;
                    self.visit(file_size, notes);
                    assert(strs(notes@).subrange(n0 as int, notes@.len() as int) =~= strs(notes@).subrange(n0 as int, n1 as int) + strs(notes@).subrange(n1 as int, notes@.len() as int));
                }
            },
        }
        assert(strs(notes@).subrange(0, n0 as int) =~= strs(old(notes)@));
    }

    /// Ends the chain with its candidates, noting when it was cut at its length limit.
    pub fn finish(self, notes: &mut Vec<String>) -> (r: Vec<PartitionCandidate>)
        ensures
            cands(r@) == self@.found,
            strs(final(notes)@) == strs(old(notes)@) + ebr_end_notes(self@),
    {
        if self.visited.len() == self.max_steps {
            let mut n = String::new();
            push_str(&mut n, "分区扫描：MBR 表项 ");
            push_dec(&mut n, self.entry_index as u64);
            push_str(&mut n, " 的 EBR 链达到上限 ");
            push_dec(&mut n, self.max_steps as u64);
            push_str(&mut n, "，结果已截断。");
            push_note(notes, n);
            assert(strs(notes@) =~= strs(old(notes)@) + ebr_end_notes(self@));
        } else {
            assert(strs(notes@) =~= strs(old(notes)@) + ebr_end_notes(self@));
        }
        self.found
    }
}


/// Location of the GPT entry array and how many entries to read.
#[derive(Debug, Clone, Copy, PartialEq, Eq, Structural)]
pub struct GptLayout {
    pub table_offset: u64,
    pub entry_size: u32,
    pub scan_count: usize,
}

pub open spec fn efi_part() -> Seq<u8> {
    seq![0x45u8, 0x46u8, 0x49u8, 0x20u8, 0x50u8, 0x41u8, 0x52u8, 0x54u8]
}

/// The GPT header `h` (LBA 1): the entry array layout it declares, and the notes it gives.
pub open spec fn gpt_layout_of(h: Seq<u8>, max_entries: usize) -> (Option<GptLayout>, Seq<Seq<char>>) {
    if h.len() < 92 || h.subrange(0, 8) != efi_part() {
        (None, Seq::empty())
    } else if le_at(h, 12, 4) < 92 {
        (None, seq!["分区扫描：GPT 头大小无效。"@])
    } else {
        let lba = le_at(h, 72, 8);
        let count = le_at(h, 80, 4);
        let esize = le_at(h, 84, 4);
        if lba == 0 || count == 0 || esize < 128 {
            (None, seq!["分区扫描：GPT 分区表字段无效。"@])
        } else {
            let scan = if count <= max_entries { count } else { max_entries as nat };
            let notes: Seq<Seq<char>> = if count > scan {
                seq!["分区扫描：GPT 分区项已从 "@ + dec(count) + " 条截断到 "@ + dec(scan) + " 条。"@]
            } else {
                Seq::empty()
            };
            if lba * 512 > u64::MAX {
                (None, notes.push("分区扫描：GPT 分区表偏移发生溢出。"@))
            } else {
                (
                    Some(GptLayout {
                        table_offset: (lba * 512) as u64,
                        entry_size: esize as u32,
                        scan_count: scan as usize,
                    }),
                    notes,
                )
            }
        }
    }
}

/// Reads the GPT header in `h` (the sector at LBA 1).
pub fn gpt_layout(h: &[u8], max_entries: usize, notes: &mut Vec<String>) -> (r: Option<GptLayout>)
    requires
        h.len() == 512,
    ensures
        r == gpt_layout_of(h@, max_entries).0,
        strs(final(notes)@) == strs(old(notes)@) + gpt_layout_of(h@, max_entries).1,
        r matches Some(l) ==> l.entry_size >= 128,
{
    let sig: [u8; 8] = [0x45, 0x46, 0x49, 0x20, 0x50, 0x41, 0x52, 0x54];
    assert(sig@ =~= efi_part());
    if !bytes_occur_at(h, &sig, 0) {
        assert(strs(notes@) =~= strs(old(notes)@) + Seq::<Seq<char>>::empty());
        return None;
    }
    let header_size = read_le_u32(h, 12).unwrap();
    if header_size < 92 {
        push_note(notes, owned("分区扫描：GPT 头大小无效。"));
        assert(strs(notes@) =~= strs(old(notes)@) + gpt_layout_of(h@, max_entries).1);
        return None;
    }
    let entry_lba = read_le_u64(h, 72).unwrap();
    let entry_count = read_le_u32(h, 80).unwrap();
    let entry_size = read_le_u32(h, 84).unwrap();
    if entry_lba == 0 || entry_count == 0 || entry_size < 128 {
        push_note(notes, owned("分区扫描：GPT 分区表字段无效。"));
        assert(strs(notes@) =~= strs(old(notes)@) + gpt_layout_of(h@, max_entries).1);
        return None;
    }
    let scan_count: usize = if (entry_count as u64) <= (max_entries as u64) {
        entry_count as usize
    } else {
        max_entries
    };
    let ghost n0 = strs(notes@);
    if (entry_count as u64) > (scan_count as u64) {
        let mut n = String::new();
        push_str(&mut n, "分区扫描：GPT 分区项已从 ");
        push_dec(&mut n, entry_count as u64);
        push_str(&mut n, " 条截断到 ");
        push_dec(&mut n, scan_count as u64);
        push_str(&mut n, " 条。");
        push_note(notes, n);
    }
    let table = match entry_lba.checked_mul(512) {
        Some(v) => v,
        None => {
            push_note(notes, owned("分区扫描：GPT 分区表偏移发生溢出。"));
            assert(strs(notes@) =~= strs(old(notes)@) + gpt_layout_of(h@, max_entries).1);
            return None;
        },
    };
    assert(strs(notes@) =~= strs(old(notes)@) + gpt_layout_of(h@, max_entries).1);
    Some(GptLayout { table_offset: table, entry_size, scan_count })
}

/// Byte offset of GPT entry `index`, unless it overflows.
pub open spec fn gpt_entry_offset_of(layout: GptLayout, index: nat) -> Option<u64> {
    let off = layout.table_offset + index * layout.entry_size;
    if off > u64::MAX { None } else { Some(off as u64) }
}

pub fn gpt_entry_offset(layout: &GptLayout, index: usize) -> (r: Option<u64>)
    ensures
        r == gpt_entry_offset_of(*layout, index as nat),
{
    let idx = index as u64;
    let prod = match idx.checked_mul(layout.entry_size as u64) {
        Some(v) => v,
        None => {
            assert(index * layout.entry_size >= 0x1_0000_0000_0000_0000);
            return None;
        },
    };
    layout.table_offset.checked_add(prod)
}

pub open spec fn all_zero(s: Seq<u8>) -> bool {
    forall|i: int| 0 <= i < s.len() ==> s[i] == 0
}

/// The candidate GPT entry `e` (number `index1`, from 1) describes, if any.
pub open spec fn gpt_entry_of(e: Seq<u8>, index1: nat, fs: u64) -> Option<CandModel> {
    let first = le_at(e, 32, 8);
    let last = le_at(e, 40, 8);
    let offset = first * 512;
    let size = (last - first + 1) * 512;
    if all_zero(e.subrange(0, 16)) || first == 0 || last < first || offset > u64::MAX || size
        > u64::MAX || offset >= fs {
        None
    } else {
        let name = gpt_name(e.subrange(56, e.len() as int));
        Some(
            CandModel {
                offset: offset as u64,
                size: size as u64,
                label: if name.len() > 0 {
                    name
                } else {
                    "gpt-"@ + dec(index1) + "-"@ + gpt_type(e.subrange(0, 16))
                },
                scheme: "GPT"@,
            },
        )
    }
}

fn is_all_zero(e: &[u8], n: usize) -> (r: bool)
    requires
        n <= e.len(),
    ensures
        r == all_zero(e@.subrange(0, n as int)),
{
    let mut i: usize = 0;
    while i < n
        invariant
            n <= e.len(),
            i <= n,
            forall|k: int| 0 <= k < i ==> e@[k] == 0,
        decreases n - i,
    {
        if e[i] != 0 {
            assert(e@.subrange(0, n as int)[i as int] != 0);
            return false;
        }
        i += 1;
    }
    true
}

/// Builds the candidate of GPT entry `index1` (from 1).
pub fn gpt_entry_candidate(e: &[u8], index1: usize, file_size: u64) -> (r: Option<PartitionCandidate>)
    requires
        e.len() >= 128,
    ensures
        r matches Some(c) ==> gpt_entry_of(e@, index1 as nat, file_size) == Some(c@),
        r is None ==> gpt_entry_of(e@, index1 as nat, file_size) is None,
{
    if is_all_zero(e, 16) {
        return None;
    }
    let first = read_le_u64(e, 32).unwrap();
    let last = read_le_u64(e, 40).unwrap();
    if first == 0 || last < first {
        return None;
    }
    let offset = match first.checked_mul(512) {
        Some(v) => v,
        None => {
            return None;
        },
    };
    let sectors = last - first + 1;
    let size = match sectors.checked_mul(512) {
        Some(v) => v,
        None => {
            return None;
        },
    };
    if offset >= file_size {
        return None;
    }
    let name = decode_utf16_name(e, 56);
    let label = if name.as_str().unicode_len() > 0 {
        name
    } else {
        let mut l = String::new();
        push_str(&mut l, "gpt-");
        push_dec(&mut l, index1 as u64);
        push_str(&mut l, "-");
        push_str(&mut l, gpt_type_name(e));
        l
    };
    let c = PartitionCandidate { offset, size, label, scheme: owned("GPT") };
    proof {
        let m = gpt_entry_of(e@, index1 as nat, file_size).unwrap();
        assert(c@.label =~= m.label);
    }
    Some(c)
}


/// Two candidates at one offset merged: the larger size, the labels joined
/// by `,` unless the first already contains the second, the schemes joined
/// by `/` when they differ.
pub open spec fn merge_cand(e: CandModel, c: CandModel) -> CandModel {
    CandModel {
        offset: e.offset,
        size: if c.size > e.size { c.size } else { e.size },
        label: if contains_seq(e.label, c.label) { e.label } else { e.label + ","@ + c.label },
        scheme: if e.scheme == c.scheme { e.scheme } else { e.scheme + "/"@ + c.scheme },
    }
}

/// `c` placed into the offset-ordered list `s`, merged with the entry at its offset if there is one.
pub open spec fn insert_merge(s: Seq<CandModel>, c: CandModel) -> Seq<CandModel>
    decreases s.len(),
{
    if s.len() == 0 {
        seq![c]
    } else if s[0].offset == c.offset {
        seq![merge_cand(s[0], c)] + s.drop_first()
    } else if s[0].offset > c.offset {
        seq![c] + s
    } else {
        seq![s[0]] + insert_merge(s.drop_first(), c)
    }
}

/// The candidates keyed by offset, in increasing offset order, later ones merged into earlier ones.
pub open spec fn dedupe_spec(v: Seq<CandModel>) -> Seq<CandModel>
    decreases v.len(),
{
    if v.len() == 0 {
        Seq::empty()
    } else {
        insert_merge(dedupe_spec(v.drop_last()), v.last())
    }
}

fn merge_candidates(e: PartitionCandidate, c: &PartitionCandidate) -> (r: PartitionCandidate)
    ensures
        r@ == merge_cand(e@, c@),
{
    let size = if c.size > e.size { c.size } else { e.size };
    let el = str_chars(e.label.as_str());
    let cl = str_chars(c.label.as_str());
    let label = if chars_contain(el.as_slice(), cl.as_slice()) {
        e.label
    } else {
        let mut l = e.label;
        push_str(&mut l, ",");
        push_str(&mut l, c.label.as_str());
        l
    };
    let scheme = if e.scheme == c.scheme {
        e.scheme
    } else {
        let mut sc = e.scheme;
        push_str(&mut sc, "/");
        push_str(&mut sc, c.scheme.as_str());
        sc
    };
    PartitionCandidate { offset: e.offset, size, label, scheme }
}

/// The candidates of an offset-ordered list keyed by their offsets.
pub open spec fn cand_map(s: Seq<CandModel>) -> Map<u64, CandModel>
    decreases s.len(),
{
    if s.len() == 0 {
        Map::empty()
    } else {
        cand_map(s.drop_first()).insert(s[0].offset, s[0])
    }
}

/// The map after a candidate is merged into the entry at its offset, or added.
pub open spec fn merged_into(m: Map<u64, CandModel>, c: CandModel) -> Map<u64, CandModel> {
    if m.contains_key(c.offset) {
        m.insert(c.offset, merge_cand(m[c.offset], c))
    } else {
        m.insert(c.offset, c)
    }
}

proof fn lemma_cand_map(s: Seq<CandModel>)
    requires
        strictly_ordered(s),
    ensures
        forall|o: u64| cand_map(s).contains_key(o) <==> has_offset(s, o),
        forall|k: int| 0 <= k < s.len() ==> cand_map(s)[(#[trigger] s[k]).offset] == s[k],
    decreases s.len(),
{
    if s.len() > 0 {
        let t = s.drop_first();
        lemma_cand_map(t);
        assert forall|o: u64| cand_map(s).contains_key(o) <==> has_offset(s, o) by {
            if has_offset(s, o) {
                let k = choose|k: int| 0 <= k < s.len() && s[k].offset == o;
                if k > 0 {
                    assert(t[k - 1].offset == o);
                }
            }
            if has_offset(t, o) {
                let k = choose|k: int| 0 <= k < t.len() && t[k].offset == o;
                assert(s[k + 1].offset == o);
            }
        }
        assert forall|k: int| 0 <= k < s.len() implies cand_map(s)[(#[trigger] s[k]).offset] == s[k] by {
            if k > 0 {
                assert(s[k] == t[k - 1]);
                assert(s[0].offset < s[k].offset);
            }
        }
    }
}

proof fn lemma_cand_map_insert_merge(s: Seq<CandModel>, c: CandModel)
    requires
        strictly_ordered(s),
    ensures
        cand_map(insert_merge(s, c)) == merged_into(cand_map(s), c),
    decreases s.len(),
{
    if s.len() == 0 {
        let r = seq![c];
        assert(r.drop_first() =~= Seq::<CandModel>::empty());
        assert(cand_map(r.drop_first()) == Map::<u64, CandModel>::empty());
        assert(cand_map(s) == Map::<u64, CandModel>::empty());
        assert(insert_merge(s, c) == r);
        assert(cand_map(r) =~= merged_into(cand_map(s), c));
    } else {
        let t = s.drop_first();
        lemma_cand_map(s);
        lemma_cand_map(t);
        if s[0].offset == c.offset {
            let r = seq![merge_cand(s[0], c)] + t;
            assert(r.drop_first() =~= t);
            assert(cand_map(r) =~= merged_into(cand_map(s), c));
        } else if s[0].offset > c.offset {
            let r = seq![c] + s;
            assert(r.drop_first() =~= s);
            assert(!has_offset(s, c.offset)) by {
                if has_offset(s, c.offset) {
                    let k = choose|k: int| 0 <= k < s.len() && s[k].offset == c.offset;
                    if k > 0 {
                        assert(s[0].offset < s[k].offset);
                    }
                }
            }
            assert(cand_map(r) =~= merged_into(cand_map(s), c));
        } else {
            lemma_cand_map_insert_merge(t, c);
            let r = seq![s[0]] + insert_merge(t, c);
            assert(r.drop_first() =~= insert_merge(t, c));
            assert(cand_map(s).contains_key(c.offset) == cand_map(t).contains_key(c.offset));
            assert(cand_map(r) =~= merged_into(cand_map(s), c));
        }
    }
}

/// Two strictly increasing sequences with the same elements are equal.
proof fn lemma_increasing_same_set(a: Seq<u64>, b: Seq<u64>)
    requires
        forall|i: int, j: int| 0 <= i < j < a.len() ==> a[i] < a[j],
        forall|i: int, j: int| 0 <= i < j < b.len() ==> b[i] < b[j],
        a.to_set() == b.to_set(),
    ensures
        a == b,
    decreases a.len(),
{
    if a.len() == 0 {
        if b.len() > 0 {
            assert(b.to_set().contains(b[0]));
        }
        assert(a =~= b);
    } else {
        if b.len() == 0 {
            assert(a.to_set().contains(a[0]));
        }
        assert(a.to_set().contains(a[0]));
        assert(b.to_set().contains(b[0]));
        let ka = choose|k: int| 0 <= k < b.len() && b[k] == a[0];
        let kb = choose|k: int| 0 <= k < a.len() && a[k] == b[0];
        assert(a[0] == b[0]) by {
            if ka > 0 {
                assert(b[0] < b[ka]);
            }
            if kb > 0 {
                assert(a[0] < a[kb]);
            }
        }
        let ta = a.drop_first();
        let tb = b.drop_first();
        assert(ta.to_set() =~= tb.to_set()) by {
            assert forall|x: u64| ta.to_set().contains(x) implies tb.to_set().contains(x) by {
                let i = choose|i: int| 0 <= i < ta.len() && ta[i] == x;
                assert(a[i + 1] == x);
                assert(a.to_set().contains(x));
                let j = choose|j: int| 0 <= j < b.len() && b[j] == x;
                assert(a[0] < a[i + 1]);
                if j == 0 {
                    assert(false);
                }
                assert(tb[j - 1] == x);
            }
            assert forall|x: u64| tb.to_set().contains(x) implies ta.to_set().contains(x) by {
                let i = choose|i: int| 0 <= i < tb.len() && tb[i] == x;
                assert(b[i + 1] == x);
                assert(b.to_set().contains(x));
                let j = choose|j: int| 0 <= j < a.len() && a[j] == x;
                assert(b[0] < b[i + 1]);
                if j == 0 {
                    assert(false);
                }
                assert(ta[j - 1] == x);
            }
        }
        lemma_increasing_same_set(ta, tb);
        assert(a =~= b) by {
            assert forall|i: int| 0 <= i < a.len() implies a[i] == b[i] by {
                if i > 0 {
                    assert(a[i] == ta[i - 1]);
                    assert(b[i] == tb[i - 1]);
                }
            }
        }
    }
}

/// The keys of a map in increasing order, read from the ordered key sequence.
proof fn lemma_increasing_keys(s: Seq<&u64>)
    requires
        vstd::std_specs::btree::increasing_seq(s),
    ensures
        forall|i: int, j: int| 0 <= i < j < s.len() ==> *s[i] < *s[j],
{
    assert(vstd::laws_cmp::obeys_cmp::<&u64>());
    assert forall|i: int, j: int| 0 <= i < j < s.len() implies *s[i] < *s[j] by {
        assert(vstd::std_specs::cmp::OrdSpec::cmp_spec(&s[i], &s[j]) is Less);
    }
}

/// Keeps one candidate per offset, ordered by offset: a later candidate at
/// an offset already seen widens its size and joins its label and scheme.
pub fn dedupe_partitions(candidates: Vec<PartitionCandidate>) -> (r: Vec<PartitionCandidate>)
    ensures
        cands(r@) == dedupe_spec(cands(candidates@)),
{
    let ghost input = cands(candidates@);
    assert(input.len() == candidates.len());
    let mut map: BTreeMap<u64, PartitionCandidate> = BTreeMap::new();
    let mut rest = candidates;
    let ghost n = input.len();
    let mut i: usize = 0;
    assert(cands(rest@) =~= input.subrange(0, n as int));
    proof {
        assert(input.take(0) =~= Seq::<CandModel>::empty());
        assert(cand_map(Seq::<CandModel>::empty()) =~= Map::<u64, CandModel>::empty());
    }
    while rest.len() > 0
        invariant
            n == input.len(),
            i + rest@.len() == n,
            n <= usize::MAX,
            cands(rest@) == input.subrange(i as int, n as int),
            map@.dom() == cand_map(dedupe_spec(input.take(i as int))).dom(),
            forall|k: u64| #[trigger] map@.contains_key(k) ==> map@[k]@ == cand_map(dedupe_spec(input.take(i as int)))[k],
        decreases rest.len(),
    {
        let ghost r0 = rest@;
        let c = rest.remove(0);
        proof {
            assert(c == r0[0]);
            assert(cands(r0)[0] == input.subrange(i as int, n as int)[0]);
            assert(c@ == input[i as int]);
            assert forall|k: int| 0 <= k < rest@.len() implies cands(rest@)[k] == input.subrange(i + 1, n as int)[k] by {
                assert(rest@[k] == r0[k + 1]);
                assert(cands(r0)[k + 1] == input.subrange(i as int, n as int)[k + 1]);
            }
            assert(cands(rest@) =~= input.subrange(i + 1, n as int));
            let d = dedupe_spec(input.take(i as int));
            law_dedupe_ordered_and_complete(input.take(i as int));
            lemma_cand_map_insert_merge(d, c@);
            assert(input.take(i + 1).drop_last() =~= input.take(i as int));
            assert(dedupe_spec(input.take(i + 1)) == insert_merge(d, c@));
        }
        let ghost before = map@;
        let off = c.offset;
        match map.remove(&off) {
            Some(e) => {
                let m = merge_candidates(e, &c);
                map.insert(off, m);
            },
            None => {
                map.insert(off, c);
            },
        }
        proof {
            let cm = cand_map(dedupe_spec(input.take(i as int)));
            assert(map@.dom() =~= merged_into(cm, c@).dom());
        }
        i += 1;
    }
    proof {
        assert(input.take(n as int) =~= input);
    }
    let ghost d = dedupe_spec(input);
    let ghost cm = cand_map(d);
    proof {
        law_dedupe_ordered_and_complete(input);
        lemma_cand_map(d);
    }
    let mut keys: Vec<u64> = Vec::new();
    for k in it: map.keys()
        invariant
            keys@.len() == it.index(),
            forall|j: int| 0 <= j < it.index() ==> keys@[j] == *it.seq()[j],
    {
        keys.push(*k);
    }
    proof {
        let ks = vstd::std_specs::iter::IteratorSpec::remaining(&vstd::std_specs::btree::spec_keys_iter(&map));
        lemma_increasing_keys(ks);
        assert(keys@ =~= ks.unref());
        let offs = d.map_values(|x: CandModel| x.offset);
        assert forall|x: u64| keys@.to_set().contains(x) <==> offs.to_set().contains(x) by {
            if offs.to_set().contains(x) {
                let j = choose|j: int| 0 <= j < offs.len() && offs[j] == x;
                assert(has_offset(d, x));
            }
            if has_offset(d, x) {
                let j = choose|j: int| 0 <= j < d.len() && d[j].offset == x;
                assert(offs[j] == x);
            }
        }
        assert(keys@.to_set() =~= offs.to_set());
        lemma_increasing_same_set(keys@, offs);
    }
    let mut out: Vec<PartitionCandidate> = Vec::new();
    let mut j: usize = 0;
    while j < keys.len()
        invariant
            keys@ == d.map_values(|x: CandModel| x.offset),
            strictly_ordered(d),
            j <= keys@.len(),
            cands(out@) == d.take(j as int),
            forall|k: int| j <= k < d.len() ==> #[trigger] map@.contains_key(d[k].offset) && map@[d[k].offset]@ == d[k],
        decreases keys.len() - j,
    {
        let key = keys[j];
        let ghost before = map@;
        let got = map.remove(&key);
        match got {
            Some(v) => {
                proof {
                    assert(v@ == d[j as int]);
                    assert(cands(out@.push(v)) =~= cands(out@).push(v@));
                    assert(d.take(j as int).push(d[j as int]) =~= d.take(j + 1));
                }
                out.push(v);
            },
            None => {
                proof {
                    assert(false);
                }
            },
        }
        proof {
            assert forall|k: int| j + 1 <= k < d.len() implies #[trigger] map@.contains_key(d[k].offset) && map@[d[k].offset]@ == d[k] by {
                assert(d[j as int].offset < d[k].offset);
                assert(before.contains_key(d[k].offset));
            }
        }
        j += 1;
    }
    proof {
        assert(d.take(d.len() as int) =~= d);
    }
    out
}

/// Offsets strictly increase along the list.
pub open spec fn strictly_ordered(s: Seq<CandModel>) -> bool {
    forall|a: int, b: int| 0 <= a < b < s.len() ==> s[a].offset < s[b].offset
}

/// Some entry of `s` sits at offset `o`.
pub open spec fn has_offset(s: Seq<CandModel>, o: u64) -> bool {
    exists|k: int| 0 <= k < s.len() && s[k].offset == o
}

/// The offsets in `r` are exactly those of `s` plus `extra`.
pub open spec fn same_offsets_plus(r: Seq<CandModel>, s: Seq<CandModel>, extra: u64) -> bool {
    &&& forall|k: int| 0 <= k < r.len() ==> (#[trigger] r[k]).offset == extra || has_offset(s, r[k].offset)
    &&& has_offset(r, extra)
    &&& forall|m: int| 0 <= m < s.len() ==> has_offset(r, (#[trigger] s[m]).offset)
}

pub proof fn lemma_insert_merge_offsets(s: Seq<CandModel>, c: CandModel)
    ensures
        same_offsets_plus(insert_merge(s, c), s, c.offset),
    decreases s.len(),
{
    let r = insert_merge(s, c);
    if s.len() > 0 && s[0].offset < c.offset {
        let t = s.drop_first();
        lemma_insert_merge_offsets(t, c);
        let rt = insert_merge(t, c);
        assert(r =~= seq![s[0]] + rt);
        assert forall|k: int| 0 <= k < r.len() implies (#[trigger] r[k]).offset == c.offset || has_offset(s, r[k].offset) by {
            if k == 0 {
                assert(s[0].offset == r[0].offset);
            } else {
                assert(r[k] == rt[k - 1]);
                if rt[k - 1].offset != c.offset {
                    let m = choose|m: int| 0 <= m < t.len() && t[m].offset == rt[k - 1].offset;
                    assert(s[m + 1].offset == r[k].offset);
                }
            }
        }
        let k0 = choose|k: int| 0 <= k < rt.len() && rt[k].offset == c.offset;
        assert(r[k0 + 1].offset == c.offset);
        assert forall|m: int| 0 <= m < s.len() implies has_offset(r, (#[trigger] s[m]).offset) by {
            if m == 0 {
                assert(r[0].offset == s[0].offset);
            } else {
                assert(t[m - 1] == s[m]);
                assert(has_offset(rt, t[m - 1].offset));
                let k = choose|k: int| 0 <= k < rt.len() && rt[k].offset == t[m - 1].offset;
                assert(r[k + 1].offset == s[m].offset);
            }
        }
    } else if s.len() > 0 && s[0].offset == c.offset {
        assert(r =~= seq![merge_cand(s[0], c)] + s.drop_first());
        assert(r[0].offset == c.offset);
        assert forall|m: int| 0 <= m < s.len() implies has_offset(r, (#[trigger] s[m]).offset) by {
            assert(r[m].offset == s[m].offset);
        }
        assert forall|k: int| 0 <= k < r.len() implies (#[trigger] r[k]).offset == c.offset || has_offset(s, r[k].offset) by {
            assert(s[k].offset == r[k].offset);
        }
    } else {
        assert(r =~= seq![c] + s);
        assert(r[0].offset == c.offset);
        assert forall|m: int| 0 <= m < s.len() implies has_offset(r, (#[trigger] s[m]).offset) by {
            assert(r[m + 1].offset == s[m].offset);
        }
        assert forall|k: int| 0 <= k < r.len() implies (#[trigger] r[k]).offset == c.offset || has_offset(s, r[k].offset) by {
            if k > 0 {
                assert(s[k - 1].offset == r[k].offset);
            }
        }
    }
}

pub proof fn lemma_insert_merge_ordered(s: Seq<CandModel>, c: CandModel)
    requires
        strictly_ordered(s),
    ensures
        strictly_ordered(insert_merge(s, c)),
    decreases s.len(),
{
    let r = insert_merge(s, c);
    if s.len() > 0 && s[0].offset < c.offset {
        let t = s.drop_first();
        lemma_insert_merge_ordered(t, c);
        lemma_insert_merge_offsets(t, c);
        let rt = insert_merge(t, c);
        assert(r =~= seq![s[0]] + rt);
        assert forall|a: int, b: int| 0 <= a < b < r.len() implies r[a].offset < r[b].offset by {
            if a == 0 {
                let x = rt[b - 1];
                assert(r[b] == x);
                if x.offset != c.offset {
                    assert(has_offset(t, x.offset));
                    let m = choose|m: int| 0 <= m < t.len() && t[m].offset == x.offset;
                    assert(s[m + 1] == t[m]);
                }
            }
        }
    } else if s.len() > 0 && s[0].offset == c.offset {
        assert(r =~= seq![merge_cand(s[0], c)] + s.drop_first());
        assert forall|a: int, b: int| 0 <= a < b < r.len() implies r[a].offset < r[b].offset by {
            assert(r[b] == s[b]);
            if a > 0 {
                assert(r[a] == s[a]);
            }
        }
    } else {
        assert(r =~= seq![c] + s);
        assert forall|a: int, b: int| 0 <= a < b < r.len() implies r[a].offset < r[b].offset by {
            assert(r[b] == s[b - 1]);
            if a > 0 {
                assert(r[a] == s[a - 1]);
            } else if b > 1 {
                assert(s[0].offset < s[b - 1].offset);
            }
        }
    }
}

/// Partition deduplication yields at most one candidate per offset, in
/// strictly increasing offset order, and keeps exactly the offsets of its input.
pub proof fn law_dedupe_ordered_and_complete(v: Seq<CandModel>)
    ensures
        strictly_ordered(dedupe_spec(v)),
        forall|m: int| 0 <= m < v.len() ==> has_offset(dedupe_spec(v), (#[trigger] v[m]).offset),
        forall|k: int| 0 <= k < dedupe_spec(v).len() ==> has_offset(v, (#[trigger] dedupe_spec(v)[k]).offset),
    decreases v.len(),
{
    if v.len() > 0 {
        let p = v.drop_last();
        law_dedupe_ordered_and_complete(p);
        let d = dedupe_spec(p);
        let c = v.last();
        lemma_insert_merge_ordered(d, c);
        lemma_insert_merge_offsets(d, c);
        let r = dedupe_spec(v);
        assert(r == insert_merge(d, c));
        assert forall|m: int| 0 <= m < v.len() implies has_offset(r, (#[trigger] v[m]).offset) by {
            if m < v.len() - 1 {
                assert(p[m] == v[m]);
                assert(has_offset(d, p[m].offset));
                let k1 = choose|k: int| 0 <= k < d.len() && d[k].offset == p[m].offset;
                assert(has_offset(r, d[k1].offset));
            }
        }
        assert forall|k: int| 0 <= k < r.len() implies has_offset(v, (#[trigger] r[k]).offset) by {
            if r[k].offset == c.offset {
                assert(v[v.len() - 1].offset == r[k].offset);
            } else {
                assert(has_offset(d, r[k].offset));
                let m1 = choose|m: int| 0 <= m < d.len() && d[m].offset == r[k].offset;
                assert(has_offset(p, d[m1].offset));
                let m2 = choose|m: int| 0 <= m < p.len() && p[m].offset == d[m1].offset;
                assert(v[m2] == p[m2]);
            }
        }
    }
}

} // verus!
