//! Partition discovery over a source read one sector (or GPT entry) at a
//! time: the caller performs each read that `pending_read` asks for and hands
//! the bytes, or the error message, to `feed`.
use vstd::prelude::*;
use crate::model::{cands, CandModel, PartitionCandidate};
use crate::partition::{
    boot_sig, chain_start, dedupe_partitions, dedupe_spec, ebr_end_notes, ebr_feed, gpt_entry_candidate,
    gpt_entry_of, gpt_entry_offset, gpt_entry_offset_of, gpt_layout, gpt_layout_of, is_extended,
    primary_candidate, primary_outcome, result_view, slot_lba, slot_sectors, slot_type, table_slot,
    EbrChain, EbrModel, GptLayout,
};
use crate::text::{dec, hex2, owned, push_dec, push_hex2, push_note, push_str, strs};

verus! {

/// What the scan waits for.
#[derive(Debug, Clone, Copy, PartialEq, Eq, Structural)]
pub enum ScanPhase {
    /// The MBR sector at offset 0.
    ReadMbr,
    /// The next EBR of an extended partition's chain.
    ReadEbr,
    /// The GPT header at LBA 1.
    ReadGptHeader,
    /// The next GPT partition entry.
    ReadGptEntry,
    /// Nothing more: the scan is complete.
    Done,
}

/// Abstract state of a partition scan.
pub struct ScanModel {
    pub phase: ScanPhase,
    pub file_size: u64,
    pub max_gpt: usize,
    pub max_ebr: usize,
    pub mbr: Seq<u8>,
    pub mbr_ok: bool,
    pub slot: nat,
    pub protective: bool,
    pub chain: Option<EbrModel>,
    pub layout: Option<GptLayout>,
    pub gpt_index: nat,
    pub mbr_found: Seq<CandModel>,
    pub gpt_found: Seq<CandModel>,
    pub notes: Seq<Seq<char>>,
}

/// A partition scan in progress.
pub struct PartitionScan {
    pub phase: ScanPhase,
    pub file_size: u64,
    pub max_gpt: usize,
    pub max_ebr: usize,
    pub mbr: Vec<u8>,
    pub mbr_ok: bool,
    pub slot: usize,
    pub protective: bool,
    pub chain: Option<EbrChain>,
    pub layout: Option<GptLayout>,
    pub gpt_index: usize,
    pub mbr_found: Vec<PartitionCandidate>,
    pub gpt_found: Vec<PartitionCandidate>,
    pub notes: Vec<String>,
}

impl View for PartitionScan {
    type V = ScanModel;

    open spec fn view(&self) -> ScanModel {
        ScanModel {
            phase: self.phase,
            file_size: self.file_size,
            max_gpt: self.max_gpt,
            max_ebr: self.max_ebr,
            mbr: self.mbr@,
            mbr_ok: self.mbr_ok,
            slot: self.slot as nat,
            protective: self.protective,
            chain: match self.chain {
                Some(c) => Some(c@),
                None => None,
            },
            layout: self.layout,
            gpt_index: self.gpt_index as nat,
            mbr_found: cands(self.mbr_found@),
            gpt_found: cands(self.gpt_found@),
            notes: strs(self.notes@),
        }
    }
}

/// The state a scan of a source of `fs` bytes starts in; the limits are
/// raised to at least one.
pub open spec fn scan_init(fs: u64, max_gpt: usize, max_ebr: usize) -> ScanModel {
    ScanModel {
        phase: if fs < 512 { ScanPhase::Done } else { ScanPhase::ReadMbr },
        file_size: fs,
        max_gpt: if max_gpt < 1 { 1 } else { max_gpt },
        max_ebr: if max_ebr < 1 { 1 } else { max_ebr },
        mbr: Seq::empty(),
        mbr_ok: false,
        slot: 0,
        protective: false,
        chain: None,
        layout: None,
        gpt_index: 0,
        mbr_found: Seq::empty(),
        gpt_found: Seq::empty(),
        notes: if fs < 512 { seq!["分区扫描：源文件小于 512 字节。"@] } else { Seq::empty() },
    }
}

/// The note on what the extended partition of MBR entry `index1` gave.
pub open spec fn ext_note(index1: nat, code: u8, n: nat) -> Seq<char> {
    if n == 0 {
        "分区扫描：MBR 表项 "@ + dec(index1) + " 为扩展分区（类型 0x"@ + hex2(code) + "），但未解析出逻辑分区。"@
    } else {
        "分区扫描：MBR 表项 "@ + dec(index1) + " 扩展出 "@ + dec(n) + " 个逻辑分区。"@
    }
}

/// The scan after the chain `c` of the extended partition in the current slot ended.
pub open spec fn close_chain(m: ScanModel, c: EbrModel) -> ScanModel {
    ScanModel {
        notes: m.notes + ebr_end_notes(c) + seq![ext_note(m.slot + 1, slot_type(m.mbr, m.slot as int), c.found.len())],
        mbr_found: m.mbr_found + c.found,
        slot: m.slot + 1,
        chain: None,
        ..m
    }
}

/// The scan once the four MBR slots are done.
pub open spec fn after_slots(m: ScanModel) -> ScanModel {
    let notes = if m.mbr_found.len() > 0 {
        m.notes.push("分区扫描：检测到 "@ + dec(m.mbr_found.len()) + " 个 MBR 分区候选项。"@)
    } else {
        m.notes
    };
    ScanModel {
        phase: if m.protective { ScanPhase::ReadGptHeader } else { ScanPhase::Done },
        notes,
        ..m
    }
}

/// The MBR slots from `m.slot` on, up to the first extended partition whose
/// chain needs an EBR read.
pub open spec fn advance_slots(m: ScanModel) -> ScanModel
    decreases 4 - m.slot,
{
    if m.slot >= 4 {
        after_slots(m)
    } else {
        let k = m.slot as int;
        let code = slot_type(m.mbr, k);
        let lba = slot_lba(m.mbr, k);
        let sectors = slot_sectors(m.mbr, k);
        let next = ScanModel { slot: m.slot + 1, ..m };
        if code == 0 || sectors == 0 {
            advance_slots(next)
        } else if code == 0xEE {
            advance_slots(ScanModel { protective: true, ..next })
        } else if is_extended(code) {
            let (c, cn) = chain_start(m.slot + 1, lba as u64, sectors as u64, m.file_size, m.max_ebr as nat);
            if c.active {
                ScanModel { phase: ScanPhase::ReadEbr, chain: Some(c), notes: m.notes + cn, ..m }
            } else {
                let closed = close_chain(ScanModel { notes: m.notes + cn, ..m }, c);
                proof {
                    assert(closed.slot == m.slot + 1);
                }
                advance_slots(closed)
            }
        } else {
            match primary_outcome(m.slot + 1, code, lba, sectors, m.file_size) {
                Ok(c) => advance_slots(ScanModel { mbr_found: m.mbr_found.push(c), ..next }),
                Err(n) => advance_slots(ScanModel { notes: m.notes.push(n), ..next }),
            }
        }
    }
}

/// The scan after the MBR sector read gave `data`.
pub open spec fn mbr_step(m: ScanModel, data: Result<Seq<u8>, Seq<char>>) -> ScanModel {
    match data {
        Err(e) => ScanModel { phase: ScanPhase::Done, notes: m.notes.push("分区扫描：无法读取 MBR 扇区："@ + e), ..m },
        Ok(s) => if boot_sig(s) {
            advance_slots(ScanModel { mbr: s, mbr_ok: true, slot: 0, ..m })
        } else {
            ScanModel {
                mbr: s,
                mbr_ok: false,
                phase: ScanPhase::ReadGptHeader,
                notes: m.notes.push("分区扫描：在 LBA0 未发现 MBR 签名。"@),
                ..m
            }
        },
    }
}

/// The scan after an EBR read gave `data`.
pub open spec fn ebr_step(m: ScanModel, data: Result<Seq<u8>, Seq<char>>) -> ScanModel {
    let (c, cn) = ebr_feed(m.chain.unwrap(), data, m.file_size);
    let m1 = ScanModel { notes: m.notes + cn, ..m };
    if c.active {
        ScanModel { chain: Some(c), ..m1 }
    } else {
        advance_slots(close_chain(m1, c))
    }
}

/// The note counting the GPT candidates.
pub open spec fn gpt_count_note(mbr_ok: bool, n: nat) -> Seq<char> {
    if mbr_ok {
        "分区扫描：检测到 "@ + dec(n) + " 个 GPT 分区候选项。"@
    } else {
        "分区扫描：在无有效 MBR 情况下检测到 "@ + dec(n) + " 个 GPT 分区候选项。"@
    }
}

/// The scan once GPT is done.
pub open spec fn gpt_done(m: ScanModel) -> ScanModel {
    ScanModel {
        phase: ScanPhase::Done,
        notes: if m.gpt_found.len() > 0 {
            m.notes.push(gpt_count_note(m.mbr_ok, m.gpt_found.len()))
        } else {
            m.notes
        },
        ..m
    }
}

/// The scan before GPT entry `m.gpt_index`: it is read if it is within the
/// scan count and the source.
pub open spec fn advance_gpt(m: ScanModel) -> ScanModel {
    let l = m.layout.unwrap();
    if m.gpt_index >= l.scan_count {
        gpt_done(m)
    } else {
        match gpt_entry_offset_of(l, m.gpt_index) {
            None => gpt_done(m),
            Some(off) => if off >= m.file_size {
                gpt_done(m)
            } else {
                ScanModel { phase: ScanPhase::ReadGptEntry, ..m }
            },
        }
    }
}

/// The scan after the GPT header read gave `data`.
pub open spec fn gpt_header_step(m: ScanModel, data: Result<Seq<u8>, Seq<char>>) -> ScanModel {
    match data {
        Err(e) => gpt_done(ScanModel { notes: m.notes.push("分区扫描：无法读取 LBA1 的 GPT 头："@ + e), ..m }),
        Ok(h) => {
            let (l, ns) = gpt_layout_of(h, m.max_gpt);
            let m1 = ScanModel { notes: m.notes + ns, layout: l, gpt_index: 0, ..m };
            if l is None {
                gpt_done(m1)
            } else {
                advance_gpt(m1)
            }
        },
    }
}

/// The scan after a GPT entry read gave `data`.
pub open spec fn gpt_entry_step(m: ScanModel, data: Result<Seq<u8>, Seq<char>>) -> ScanModel {
    let m1 = match data {
        Err(e) => ScanModel {
            notes: m.notes.push("分区扫描：无法读取 GPT 分区项 "@ + dec(m.gpt_index + 1) + "："@ + e),
            ..m
        },
        Ok(e) => match gpt_entry_of(e, m.gpt_index + 1, m.file_size) {
            Some(c) => ScanModel { gpt_found: m.gpt_found.push(c), ..m },
            None => m,
        },
    };
    advance_gpt(ScanModel { gpt_index: m.gpt_index + 1, ..m1 })
}

/// One step of the scan: what the read it waited for changes.
pub open spec fn scan_step(m: ScanModel, data: Result<Seq<u8>, Seq<char>>) -> ScanModel {
    match m.phase {
        ScanPhase::ReadMbr => mbr_step(m, data),
        ScanPhase::ReadEbr => ebr_step(m, data),
        ScanPhase::ReadGptHeader => gpt_header_step(m, data),
        ScanPhase::ReadGptEntry => gpt_entry_step(m, data),
        ScanPhase::Done => m,
    }
}

/// Offset and length of the read the scan waits for.
pub open spec fn pending_of(m: ScanModel) -> Option<(u64, usize)> {
    match m.phase {
        ScanPhase::ReadMbr => Some((0u64, 512usize)),
        ScanPhase::ReadEbr => Some(((m.chain.unwrap().current * 512) as u64, 512usize)),
        ScanPhase::ReadGptHeader => Some((512u64, 512usize)),
        ScanPhase::ReadGptEntry => Some(
            (
                gpt_entry_offset_of(m.layout.unwrap(), m.gpt_index).unwrap(),
                m.layout.unwrap().entry_size as usize,
            ),
        ),
        ScanPhase::Done => None,
    }
}

/// Reads at most one EBR chain per MBR slot from `slot` on, each of at most `w` sectors.
pub open spec fn slots_budget(slot: nat, w: nat) -> nat
    decreases 4 - slot,
{
    if slot >= 4 { 0 } else { w + slots_budget(slot + 1, w) }
}

/// What a scan waiting for a read knows of where it stands.
pub open spec fn scan_ok(m: ScanModel) -> bool {
    &&& m.max_gpt >= 1
    &&& m.max_ebr >= 1
    &&& m.slot <= 4
    &&& m.phase is ReadEbr ==> {
        &&& m.slot < 4
        &&& m.chain matches Some(c) && c.active && c.step < c.max_steps && c.max_steps == m.max_ebr
    }
    &&& m.phase is ReadGptEntry ==> (m.layout matches Some(l) && m.gpt_index < l.scan_count
        && l.scan_count <= m.max_gpt)
}

/// A bound on the reads the scan still asks for.
pub open spec fn reads_bound(m: ScanModel) -> nat {
    match m.phase {
        ScanPhase::Done => 0,
        ScanPhase::ReadGptEntry => (m.layout.unwrap().scan_count - m.gpt_index) as nat,
        ScanPhase::ReadGptHeader => (m.max_gpt + 1) as nat,
        ScanPhase::ReadEbr => ((m.chain.unwrap().max_steps - m.chain.unwrap().step) + slots_budget(
            m.slot + 1,
            m.max_ebr as nat,
        ) + m.max_gpt + 1) as nat,
        ScanPhase::ReadMbr => (slots_budget(0, m.max_ebr as nat) + m.max_gpt + 2) as nat,
    }
}

proof fn lemma_advance_slots_bound(m: ScanModel)
    requires
        m.slot <= 4,
        m.max_gpt >= 1,
        m.max_ebr >= 1,
    ensures
        advance_slots(m).max_gpt == m.max_gpt,
        advance_slots(m).max_ebr == m.max_ebr,
        advance_slots(m).phase is ReadEbr || advance_slots(m).phase is ReadGptHeader || advance_slots(m).phase is Done,
        scan_ok(advance_slots(m)),
        reads_bound(advance_slots(m)) <= slots_budget(m.slot, m.max_ebr as nat) + m.max_gpt + 1,
    decreases 4 - m.slot,
{
    if m.slot >= 4 {
        return;
    }
    let k = m.slot as int;
    let code = slot_type(m.mbr, k);
    let lba = slot_lba(m.mbr, k);
    let sectors = slot_sectors(m.mbr, k);
    let next = ScanModel { slot: m.slot + 1, ..m };
    if code == 0 || sectors == 0 {
        lemma_advance_slots_bound(next);
    } else if code == 0xEE {
        lemma_advance_slots_bound(ScanModel { protective: true, ..next });
    } else if is_extended(code) {
        let (c, cn) = chain_start(m.slot + 1, lba as u64, sectors as u64, m.file_size, m.max_ebr as nat);
        if !c.active {
            let closed = close_chain(ScanModel { notes: m.notes + cn, ..m }, c);
            lemma_advance_slots_bound(closed);
        }
    } else {
        match primary_outcome(m.slot + 1, code, lba, sectors, m.file_size) {
            Ok(c) => lemma_advance_slots_bound(ScanModel { mbr_found: m.mbr_found.push(c), ..next }),
            Err(n) => lemma_advance_slots_bound(ScanModel { notes: m.notes.push(n), ..next }),
        }
    }
}

/// Every read fed to a partition scan brings it closer to its end: the
/// scan stays well formed and the bound on the reads it still asks for
/// drops, so a caller serving its reads reaches `Done`.
pub proof fn law_partition_scan_progresses(m: ScanModel, data: Result<Seq<u8>, Seq<char>>)
    requires
        scan_ok(m),
        !(m.phase is Done),
    ensures
        scan_ok(scan_step(m, data)),
        reads_bound(scan_step(m, data)) < reads_bound(m),
{
    match m.phase {
        ScanPhase::ReadMbr => {
            if let Ok(s) = data {
                if boot_sig(s) {
                    lemma_advance_slots_bound(ScanModel { mbr: s, mbr_ok: true, slot: 0, ..m });
                }
            }
        },
        ScanPhase::ReadEbr => {
            let (c, cn) = ebr_feed(m.chain.unwrap(), data, m.file_size);
            let m1 = ScanModel { notes: m.notes + cn, ..m };
            if !c.active {
                lemma_advance_slots_bound(close_chain(m1, c));
            }
        },
        ScanPhase::ReadGptHeader => {},
        ScanPhase::ReadGptEntry => {},
        ScanPhase::Done => {},
    }
}

/// A scan starts well formed.
pub proof fn law_partition_scan_starts_ok(fs: u64, max_gpt: usize, max_ebr: usize)
    ensures
        scan_ok(scan_init(fs, max_gpt, max_ebr)),
{
}

impl PartitionScan {
    /// Invariants that hold in every phase.
    pub open spec fn base_wf(&self) -> bool {
        &&& self.max_gpt >= 1
        &&& self.max_ebr >= 1
        &&& self.slot <= 4
        &&& self.layout matches Some(l) ==> l.entry_size >= 128
    }

    pub open spec fn wf(&self) -> bool {
        &&& self.base_wf()
        &&& !(self.phase is ReadEbr) ==> self.chain is None
        &&& self.phase is ReadEbr ==> {
            &&& self.mbr@.len() == 512
            &&& self.slot < 4
            &&& self.chain matches Some(c) && c.wf() && c.active && c.step < c.max_steps
        }
        &&& self.phase is ReadGptEntry ==> {
            &&& self.layout matches Some(l) && self.gpt_index < l.scan_count && gpt_entry_offset_of(
                l,
                self.gpt_index as nat,
            ) is Some
        }
    }
}

impl PartitionScan {
    /// Starts the scan of a source of `file_size` bytes with the configured
    /// limits on GPT entries and EBR chain length.
    pub fn new(file_size: u64, max_gpt_entries: usize, max_ebr_chain_entries: usize) -> (r: PartitionScan)
        ensures
            r.wf(),
            r@ == scan_init(file_size, max_gpt_entries, max_ebr_chain_entries),
    {
        let mut notes: Vec<String> = Vec::new();
        let phase = if file_size < 512 {
            push_note(&mut notes, owned("分区扫描：源文件小于 512 字节。"));
            ScanPhase::Done
        } else {
            ScanPhase::ReadMbr
        };
        let r = PartitionScan {
            phase,
            file_size,
            max_gpt: if max_gpt_entries < 1 { 1 } else { max_gpt_entries },
            max_ebr: if max_ebr_chain_entries < 1 { 1 } else { max_ebr_chain_entries },
            mbr: Vec::new(),
            mbr_ok: false,
            slot: 0,
            protective: false,
            chain: None,
            layout: None,
            gpt_index: 0,
            mbr_found: Vec::new(),
            gpt_found: Vec::new(),
            notes,
        };
        assert(r@.mbr_found =~= Seq::<CandModel>::empty());
        assert(r@.gpt_found =~= Seq::<CandModel>::empty());
        assert(r@.notes =~= scan_init(file_size, max_gpt_entries, max_ebr_chain_entries).notes);
        r
    }

    /// The read the scan waits for: its offset and length, or `None` once the scan is complete.
    pub fn pending_read(&self) -> (r: Option<(u64, usize)>)
        requires
            self.wf(),
        ensures
            r == pending_of(self@),
    {
        match self.phase {
            ScanPhase::ReadMbr => Some((0, 512)),
            ScanPhase::ReadEbr => {
                let c = self.chain.as_ref().unwrap();
                Some((c.current * 512, 512))
            },
            ScanPhase::ReadGptHeader => Some((512, 512)),
            ScanPhase::ReadGptEntry => {
                let l = self.layout.unwrap();
                Some((gpt_entry_offset(&l, self.gpt_index).unwrap(), l.entry_size as usize))
            },
            ScanPhase::Done => None,
        }
    }

    /// Ends the chain of the extended partition in the current slot.
    fn close_chain(&mut self, chain: EbrChain)
        requires
            old(self).slot < 4,
            old(self).mbr@.len() == 512,
        ensures
            final(self)@ == close_chain(old(self)@, chain@),
            final(self).base_wf() == old(self).base_wf(),
            final(self).mbr@ == old(self).mbr@,
    {
        let k = self.slot;
        let code = self.mbr[446 + 16 * k + 4];
        let ghost n0 = strs(self.notes@);
        let ghost cm = chain@;
        let found = chain.finish(&mut self.notes);
        let count = found.len();
        let mut n = String::new();
        if count == 0 {
            push_str(&mut n, "分区扫描：MBR 表项 ");
            push_dec(&mut n, (k + 1) as u64);
            push_str(&mut n, " 为扩展分区（类型 0x");
            push_hex2(&mut n, code);
            push_str(&mut n, "），但未解析出逻辑分区。");
        } else {
            push_str(&mut n, "分区扫描：MBR 表项 ");
            push_dec(&mut n, (k + 1) as u64);
            push_str(&mut n, " 扩展出 ");
            push_dec(&mut n, count as u64);
            push_str(&mut n, " 个逻辑分区。");
        }
        assert(n@ =~= ext_note((k + 1) as nat, code, cm.found.len()));
        push_note(&mut self.notes, n);
        let ghost before = cands(self.mbr_found@);
        let mut found = found;
        self.mbr_found.append(&mut found);
        self.slot = k + 1;
        self.chain = None;
        assert(cands(self.mbr_found@) =~= before + cm.found);
        assert(strs(self.notes@) =~= n0 + ebr_end_notes(cm) + seq![ext_note((k + 1) as nat, code, cm.found.len())]);
    }
}

impl PartitionScan {
    /// Works through the MBR slots from the current one on.
    fn advance_slots(&mut self)
        requires
            old(self).base_wf(),
            old(self).mbr@.len() == 512,
            old(self).chain is None,
        ensures
            final(self).wf(),
            final(self)@ == advance_slots(old(self)@),
    {
        let ghost target = advance_slots(self@);
        while self.slot < 4
            invariant
                self.base_wf(),
                self.mbr@.len() == 512,
                self.chain is None,
                advance_slots(self@) == target,
                target == advance_slots(old(self)@),
            decreases 4 - self.slot,
        {
            let k = self.slot;
            let (code, lba, sectors) = table_slot(self.mbr.as_slice(), k);
            if code == 0 || sectors == 0 {
                self.slot = k + 1;
            } else if code == 0xEE {
                self.protective = true;
                self.slot = k + 1;
            } else if code == 0x05 || code == 0x0F || code == 0x85 {
                let ghost m = self@;
                let chain = EbrChain::start(k + 1, lba, sectors, self.file_size, self.max_ebr, &mut self.notes);
                let ghost st = chain_start((k + 1) as nat, lba, sectors, m.file_size, m.max_ebr as nat);
                assert(strs(self.notes@) == m.notes + st.1);
                if chain.active {
                    self.chain = Some(chain);
                    self.phase = ScanPhase::ReadEbr;
                    assert(self@ == ScanModel { phase: ScanPhase::ReadEbr, chain: Some(st.0), notes: m.notes + st.1, ..m });
                    assert(slot_type(m.mbr, k as int) == code);
                    assert(is_extended(code));
                    assert(st.0.active);
                    assert(advance_slots(m) == ScanModel { phase: ScanPhase::ReadEbr, chain: Some(st.0), notes: m.notes + st.1, ..m });
                    return;
                }
                assert(self@ == ScanModel { notes: m.notes + st.1, ..m });
                self.close_chain(chain);
            } else {
                let ghost m = self@;
                match primary_candidate(k + 1, code, lba, sectors, self.file_size) {
                    Ok(c) => {
                        self.mbr_found.push(c);
                        assert(cands(self.mbr_found@) =~= m.mbr_found.push(c@));
                    },
                    Err(n) => {
                        push_note(&mut self.notes, n);
                    },
                }
                self.slot = k + 1;
            }
        }
        let ghost m = self@;
        let count = self.mbr_found.len();
        if count > 0 {
            let mut n = String::new();
            push_str(&mut n, "分区扫描：检测到 ");
            push_dec(&mut n, count as u64);
            push_str(&mut n, " 个 MBR 分区候选项。");
            push_note(&mut self.notes, n);
        }
        self.phase = if self.protective { ScanPhase::ReadGptHeader } else { ScanPhase::Done };
    }
}

impl PartitionScan {
    /// Ends the GPT part of the scan.
    fn gpt_done(&mut self)
        requires
            old(self).base_wf(),
            old(self).chain is None,
        ensures
            final(self).wf(),
            final(self)@ == gpt_done(old(self)@),
    {
        let count = self.gpt_found.len();
        if count > 0 {
            let mut n = String::new();
            if self.mbr_ok {
                push_str(&mut n, "分区扫描：检测到 ");
                push_dec(&mut n, count as u64);
                push_str(&mut n, " 个 GPT 分区候选项。");
            } else {
                push_str(&mut n, "分区扫描：在无有效 MBR 情况下检测到 ");
                push_dec(&mut n, count as u64);
                push_str(&mut n, " 个 GPT 分区候选项。");
            }
            assert(n@ =~= gpt_count_note(self.mbr_ok, count as nat));
            push_note(&mut self.notes, n);
        }
        self.phase = ScanPhase::Done;
    }

    /// Moves to the GPT entry at `gpt_index`, or ends GPT.
    fn advance_gpt(&mut self)
        requires
            old(self).base_wf(),
            old(self).chain is None,
            old(self).layout is Some,
        ensures
            final(self).wf(),
            final(self)@ == advance_gpt(old(self)@),
    {
        let l = self.layout.unwrap();
        if self.gpt_index >= l.scan_count {
            self.gpt_done();
            return;
        }
        match gpt_entry_offset(&l, self.gpt_index) {
            None => {
                self.gpt_done();
            },
            Some(off) => {
                if off >= self.file_size {
                    self.gpt_done();
                } else {
                    self.phase = ScanPhase::ReadGptEntry;
                }
            },
        }
    }

    fn feed_gpt_header(&mut self, data: Result<Vec<u8>, String>)
        requires
            old(self).base_wf(),
            old(self).chain is None,
            data matches Ok(v) ==> v@.len() == 512,
        ensures
            final(self).wf(),
            final(self)@ == gpt_header_step(old(self)@, result_view(data)),
    {
        match data {
            Err(e) => {
                let mut n = String::new();
                push_str(&mut n, "分区扫描：无法读取 LBA1 的 GPT 头：");
                push_str(&mut n, e.as_str());
                push_note(&mut self.notes, n);
                self.gpt_done();
            },
            Ok(h) => {
                let l = gpt_layout(h.as_slice(), self.max_gpt, &mut self.notes);
                self.layout = l;
                self.gpt_index = 0;
                if l.is_none() {
                    self.gpt_done();
                } else {
                    self.advance_gpt();
                }
            },
        }
    }

    fn feed_gpt_entry(&mut self, data: Result<Vec<u8>, String>)
        requires
            old(self).wf(),
            old(self).phase is ReadGptEntry,
            data matches Ok(v) ==> v@.len() == old(self).layout.unwrap().entry_size,
        ensures
            final(self).wf(),
            final(self)@ == gpt_entry_step(old(self)@, result_view(data)),
    {
        let ghost m = self@;
        let index1 = self.gpt_index + 1;
        match data {
            Err(e) => {
                let mut n = String::new();
                push_str(&mut n, "分区扫描：无法读取 GPT 分区项 ");
                push_dec(&mut n, index1 as u64);
                push_str(&mut n, "：");
                push_str(&mut n, e.as_str());
                push_note(&mut self.notes, n);
            },
            Ok(e) => {
                match gpt_entry_candidate(e.as_slice(), index1, self.file_size) {
                    Some(c) => {
                        self.gpt_found.push(c);
                        assert(cands(self.gpt_found@) =~= m.gpt_found.push(c@));
                    },
                    None => {},
                }
            },
        }
        self.gpt_index = index1;
        self.advance_gpt();
    }
}

impl PartitionScan {
    fn feed_mbr(&mut self, data: Result<Vec<u8>, String>)
        requires
            old(self).wf(),
            old(self).phase is ReadMbr,
            data matches Ok(v) ==> v@.len() == 512,
        ensures
            final(self).wf(),
            final(self)@ == mbr_step(old(self)@, result_view(data)),
    {
        match data {
            Err(e) => {
                let mut n = String::new();
                push_str(&mut n, "分区扫描：无法读取 MBR 扇区：");
                push_str(&mut n, e.as_str());
                push_note(&mut self.notes, n);
                self.phase = ScanPhase::Done;
            },
            Ok(sector) => {
                let ok = sector[510] == 0x55 && sector[511] == 0xAA;
                self.mbr = sector;
                if ok {
                    self.mbr_ok = true;
                    self.slot = 0;
                    self.advance_slots();
                } else {
                    self.mbr_ok = false;
                    push_note(&mut self.notes, owned("分区扫描：在 LBA0 未发现 MBR 签名。"));
                    self.phase = ScanPhase::ReadGptHeader;
                }
            },
        }
    }

    fn feed_ebr(&mut self, data: Result<Vec<u8>, String>)
        requires
            old(self).wf(),
            old(self).phase is ReadEbr,
            data matches Ok(v) ==> v@.len() == 512,
        ensures
            final(self).wf(),
            final(self)@ == ebr_step(old(self)@, result_view(data)),
    {
        let ghost m = self@;
        let mut chain = self.chain.take().unwrap();
        let ghost n0 = self.notes@.len();
        chain.feed(data, self.file_size, &mut self.notes);
        assert(strs(self.notes@) =~= m.notes + strs(self.notes@).subrange(n0 as int, self.notes@.len() as int));
        if chain.active {
            self.chain = Some(chain);
        } else {
            self.close_chain(chain);
            self.advance_slots();
        }
    }

    /// Takes in what the pending read gave: the bytes read (exactly the
    /// length asked for), or the message of the error it met.
    pub fn feed(&mut self, data: Result<Vec<u8>, String>)
        requires
            old(self).wf(),
            pending_of(old(self)@) matches Some((_, len)) && (data matches Ok(v) ==> v@.len() == len),
        ensures
            final(self).wf(),
            final(self)@ == scan_step(old(self)@, result_view(data)),
    {
        match self.phase {
            ScanPhase::ReadMbr => self.feed_mbr(data),
            ScanPhase::ReadEbr => self.feed_ebr(data),
            ScanPhase::ReadGptHeader => self.feed_gpt_header(data),
            ScanPhase::ReadGptEntry => self.feed_gpt_entry(data),
            ScanPhase::Done => {},
        }
    }

    /// The candidates found, one per offset in increasing offset order, and
    /// the notes the scan gave.
    pub fn finish(self) -> (r: (Vec<PartitionCandidate>, Vec<String>))
        requires
            self@.phase is Done,
        ensures
            cands(r.0@) == dedupe_spec(self@.mbr_found + self@.gpt_found),
            strs(r.1@) == self@.notes,
    {
        let mut all = self.mbr_found;
        let mut gpt = self.gpt_found;
        let ghost a = cands(all@);
        let ghost g = cands(gpt@);
        all.append(&mut gpt);
        assert(cands(all@) =~= a + g);
        (dedupe_partitions(all), self.notes)
    }
}

} // verus!
