//! What the console shows of plans, scans and recoveries, and the file name
//! of a scan report. Printing and writing files happen outside the library.
use vstd::prelude::*;
use crate::model::{
    DeviceSnapshot, Ext4DataSummary, FatDataSummary, FsHint, FsMetrics, NtfsDataSummary, RecoverySession, ScanDepth,
    ScanPlan, ScanReport,
};
use crate::recovery::{action_views, count_status, count_status_of};
use crate::scanner::{stage_views, target_kind_label, target_kind_text, StageModel};
use crate::text::{
    char_is_ascii_alphanumeric, dec, is_ascii_alnum, owned, push_char, push_dec, push_note, push_str,
    str_chars, starts_with, strs,
};

verus! {

pub open spec fn scan_depth_text(depth: ScanDepth) -> Seq<char> {
    match depth {
        ScanDepth::Metadata => "元数据扫描"@,
        ScanDepth::Deep => "深度扫描"@,
    }
}

pub fn scan_depth_label(depth: ScanDepth) -> (r: &'static str)
    ensures
        r@ == scan_depth_text(depth),
{
    match depth {
        ScanDepth::Metadata => "元数据扫描",
        ScanDepth::Deep => "深度扫描",
    }
}

pub open spec fn fs_hint_text(hint: FsHint) -> Seq<char> {
    match hint {
        FsHint::Auto => "自动识别"@,
        FsHint::Ntfs => "NTFS"@,
        FsHint::Fat32 => "FAT32"@,
        FsHint::Exfat => "exFAT"@,
        FsHint::Ext4 => "ext4"@,
        FsHint::Apfs => "APFS"@,
        FsHint::F2fs => "F2FS"@,
    }
}

pub fn fs_hint_label(hint: FsHint) -> (r: &'static str)
    ensures
        r@ == fs_hint_text(hint),
{
    match hint {
        FsHint::Auto => "自动识别",
        FsHint::Ntfs => "NTFS",
        FsHint::Fat32 => "FAT32",
        FsHint::Exfat => "exFAT",
        FsHint::Ext4 => "ext4",
        FsHint::Apfs => "APFS",
        FsHint::F2fs => "F2FS",
    }
}

/// The characters allowed in a report file name as they are, others become `_`.
pub open spec fn case_char(c: char) -> char {
    if is_ascii_alnum(c) || c == '-' || c == '_' { c } else { '_' }
}

/// A case id made safe for a file name (`case` when empty).
pub open spec fn sanitized_case_id(v: Seq<char>) -> Seq<char> {
    if v.len() == 0 { "case"@ } else { v.map_values(|c: char| case_char(c)) }
}

pub fn sanitize_case_id(value: &str) -> (r: String)
    ensures
        r@ == sanitized_case_id(value@),
{
    let cs = str_chars(value);
    if cs.len() == 0 {
        return owned("case");
    }
    let mut out = String::new();
    let mut i: usize = 0;
    while i < cs.len()
        invariant
            i <= cs.len(),
            out@ == cs@.subrange(0, i as int).map_values(|c: char| case_char(c)),
        decreases cs.len() - i,
    {
        let c = cs[i];
        push_char(&mut out, if char_is_ascii_alphanumeric(c) || c == '-' || c == '_' { c } else { '_' });
        i += 1;
        assert(out@ =~= cs@.subrange(0, i as int).map_values(|c: char| case_char(c)));
    }
    assert(cs@.subrange(0, cs@.len() as int) =~= cs@);
    out
}

/// File name of the scan report of a case.
pub open spec fn report_file_name_of(case_id: Seq<char>) -> Seq<char> {
    sanitized_case_id(case_id) + "-scan-report.json"@
}

pub fn report_file_name(case_id: &str) -> (r: String)
    ensures
        r@ == report_file_name_of(case_id@),
{
    let mut r = sanitize_case_id(case_id);
    push_str(&mut r, "-scan-report.json");
    r
}

/// Readable name of one part of a `mixed-…` detection.
pub open spec fn mixed_part_name(p: Seq<char>) -> Option<Seq<char>> {
    if p == "ntfs"@ {
        Some("NTFS"@)
    } else if p == "fat"@ {
        Some("FAT"@)
    } else if p == "family"@ {
        Some("exFAT"@)
    } else if p == "ext4"@ {
        Some("ext4"@)
    } else if p == "apfs"@ {
        Some("APFS"@)
    } else if p == "f2fs"@ {
        Some("F2FS"@)
    } else {
        None
    }
}

/// Index of the first `-` in `s`.
pub open spec fn first_dash(s: Seq<char>) -> Option<int>
    decreases s.len(),
{
    if s.len() == 0 {
        None
    } else if s[0] == '-' {
        Some(0)
    } else {
        match first_dash(s.drop_first()) {
            Some(k) => Some(k + 1),
            None => None,
        }
    }
}

/// The parts of `s` between dashes, in order (`str::split('-')`).
pub open spec fn dash_parts(s: Seq<char>) -> Seq<Seq<char>>
    decreases s.len(),
{
    match first_dash(s) {
        None => seq![s],
        Some(k) => {
            proof {
                lemma_first_dash(s);
            }
            seq![s.subrange(0, k)] + dash_parts(s.subrange(k + 1, s.len() as int))
        },
    }
}

pub proof fn lemma_first_dash(s: Seq<char>)
    ensures
        first_dash(s) matches Some(k) ==> 0 <= k < s.len() && s[k] == '-' && forall|j: int|
            0 <= j < k ==> s[j] != '-',
        first_dash(s) is None ==> forall|j: int| 0 <= j < s.len() ==> s[j] != '-',
    decreases s.len(),
{
    if s.len() > 0 && s[0] != '-' {
        lemma_first_dash(s.drop_first());
        assert forall|j: int| 1 <= j < s.len() implies s[j] == s.drop_first()[j - 1] by {}
    }
}

/// The readable names of the known parts, in order.
pub open spec fn known_names(parts: Seq<Seq<char>>) -> Seq<Seq<char>>
    decreases parts.len(),
{
    if parts.len() == 0 {
        Seq::empty()
    } else {
        match mixed_part_name(parts[0]) {
            Some(n) => seq![n] + known_names(parts.drop_first()),
            None => known_names(parts.drop_first()),
        }
    }
}

/// `names` joined by `sep`.
pub open spec fn join(names: Seq<Seq<char>>, sep: Seq<char>) -> Seq<char>
    decreases names.len(),
{
    if names.len() == 0 {
        Seq::empty()
    } else if names.len() == 1 {
        names[0]
    } else {
        names[0] + sep + join(names.drop_first(), sep)
    }
}

/// Readable form of a detected file-system value.
pub open spec fn detected_fs_text(v: Seq<char>) -> Seq<char> {
    if starts_with(v, "mixed-"@) {
        let names = known_names(dash_parts(v.subrange(6, v.len() as int)));
        if names.len() == 0 {
            "混合（未知）"@
        } else {
            "混合（"@ + join(names, " + "@) + "）"@
        }
    } else if v == "ntfs"@ {
        "NTFS"@
    } else if v == "fat32"@ {
        "FAT32"@
    } else if v == "exfat"@ {
        "exFAT"@
    } else if v == "fat-family"@ {
        "FAT/exFAT"@
    } else if v == "ext4"@ {
        "ext4"@
    } else if v == "apfs"@ {
        "APFS"@
    } else if v == "f2fs"@ {
        "F2FS"@
    } else {
        "未知（"@ + v + "）"@
    }
}

fn chars_eq_str(cs: &Vec<char>, lo: usize, hi: usize, s: &str) -> (r: bool)
    requires
        lo <= hi <= cs@.len(),
    ensures
        r == (cs@.subrange(lo as int, hi as int) == s@),
{
    let sc = str_chars(s);
    if sc.len() != hi - lo {
        proof {
            assert(cs@.subrange(lo as int, hi as int).len() != s@.len());
        }
        return false;
    }
    let mut i: usize = 0;
    while i < sc.len()
        invariant
            lo <= hi <= cs@.len(),
            sc@ == s@,
            sc@.len() == hi - lo,
            i <= sc@.len(),
            forall|j: int| 0 <= j < i ==> cs@[lo + j] == sc@[j],
        decreases sc.len() - i,
    {
        if cs[lo + i] != sc[i] {
            assert(cs@.subrange(lo as int, hi as int)[i as int] != s@[i as int]);
            return false;
        }
        i += 1;
    }
    assert(cs@.subrange(lo as int, hi as int) =~= s@);
    true
}

fn part_name(cs: &Vec<char>, lo: usize, hi: usize) -> (r: Option<&'static str>)
    requires
        lo <= hi <= cs@.len(),
    ensures
        match mixed_part_name(cs@.subrange(lo as int, hi as int)) {
            Some(n) => r matches Some(t) && t@ == n,
            None => r is None,
        },
{
    if chars_eq_str(cs, lo, hi, "ntfs") {
        Some("NTFS")
    } else if chars_eq_str(cs, lo, hi, "fat") {
        Some("FAT")
    } else if chars_eq_str(cs, lo, hi, "family") {
        Some("exFAT")
    } else if chars_eq_str(cs, lo, hi, "ext4") {
        Some("ext4")
    } else if chars_eq_str(cs, lo, hi, "apfs") {
        Some("APFS")
    } else if chars_eq_str(cs, lo, hi, "f2fs") {
        Some("F2FS")
    } else {
        None
    }
}

pub proof fn lemma_join_push(names: Seq<Seq<char>>, n: Seq<char>, sep: Seq<char>)
    ensures
        join(names.push(n), sep) == if names.len() == 0 { n } else { join(names, sep) + sep + n },
    decreases names.len(),
{
    if names.len() >= 1 {
        lemma_join_push(names.drop_first(), n, sep);
        assert(names.push(n).drop_first() =~= names.drop_first().push(n));
        if names.len() == 1 {
            assert(names.drop_first().len() == 0);
        }
    }
}

/// Known names of the dash-separated parts of `s`, written out in reverse
/// order of recursion: `known_names(dash_parts(s)) == known_names(parts before) + …`.
proof fn lemma_known_names_append(a: Seq<Seq<char>>, b: Seq<Seq<char>>)
    ensures
        known_names(a + b) == known_names(a) + known_names(b),
    decreases a.len(),
{
    if a.len() > 0 {
        lemma_known_names_append(a.drop_first(), b);
        assert((a + b).drop_first() =~= a.drop_first() + b);
    } else {
        assert(a + b =~= b);
    }
}

proof fn lemma_known_single(p: Seq<char>)
    ensures
        known_names(seq![p]) == (match mixed_part_name(p) {
            Some(n) => seq![n],
            None => Seq::<Seq<char>>::empty(),
        }),
{
    assert(seq![p].drop_first() =~= Seq::<Seq<char>>::empty());
    assert(known_names(Seq::<Seq<char>>::empty()) == Seq::<Seq<char>>::empty());
    match mixed_part_name(p) {
        Some(n) => {
            assert(seq![n] + Seq::<Seq<char>>::empty() =~= seq![n]);
        },
        None => {},
    }
}

/// Readable form of a detected file-system value.
pub fn detected_fs_label(value: &str) -> (r: String)
    ensures
        r@ == detected_fs_text(value@),
{
    let cs = str_chars(value);
    let n = cs.len();
    if n >= 6 && chars_eq_str(&cs, 0, 6, "mixed-") {
        let ghost rest = cs@.subrange(6, n as int);
        proof {
            reveal_strlit("mixed-");
            assert(starts_with(value@, "mixed-"@));
        }
        let mut names: Vec<&'static str> = Vec::new();
        let ghost mut done: Seq<Seq<char>> = Seq::empty();
        let mut start: usize = 6;
        let mut i: usize = 6;
        assert(cs@.subrange(6, n as int) =~= rest);
        while i < n
            invariant
                6 <= start <= i <= n,
                n == cs@.len(),
                rest == cs@.subrange(6, n as int),
                forall|j: int| start <= j < i ==> cs@[j] != '-',
                dash_parts(rest) == done + dash_parts(cs@.subrange(start as int, n as int)),
                names@.len() == known_names(done).len(),
                forall|j: int| 0 <= j < names@.len() ==> (#[trigger] names@[j])@ == known_names(done)[j],
            decreases n - i,
        {
            if cs[i] == '-' {
                let ghost part = cs@.subrange(start as int, i as int);
                let ghost tail = cs@.subrange(start as int, n as int);
                proof {
                    lemma_first_dash(tail);
                    assert(tail[i - start] == '-');
                    assert forall|j: int| 0 <= j < i - start implies tail[j] != '-' by {
                        assert(tail[j] == cs@[start + j]);
                    }
                    if first_dash(tail) != Some((i - start) as int) {
                        assert(false);
                    }
                    assert(tail.subrange(0, (i - start) as int) =~= part);
                    assert(tail.subrange(i - start + 1, tail.len() as int) =~= cs@.subrange(i + 1, n as int));
                    assert(dash_parts(tail) == seq![part] + dash_parts(cs@.subrange(i + 1, n as int)));
                    lemma_known_names_append(done, seq![part]);
                    lemma_known_single(part);
                    assert(done.push(part) =~= done + seq![part]);
                }
                match part_name(&cs, start, i) {
                    Some(t) => {
                        names.push(t);
                    },
                    None => {},
                }
                proof {
                    assert(done + (seq![part] + dash_parts(cs@.subrange(i + 1, n as int))) =~= done.push(part)
                        + dash_parts(cs@.subrange(i + 1, n as int)));
                    done = done.push(part);
                }
                start = i + 1;
            }
            i += 1;
        }
        proof {
            let tail = cs@.subrange(start as int, n as int);
            lemma_first_dash(tail);
            assert forall|j: int| 0 <= j < tail.len() implies tail[j] != '-' by {
                assert(tail[j] == cs@[start + j]);
            }
            assert(first_dash(tail) is None);
            lemma_known_names_append(done, seq![tail]);
            lemma_known_single(tail);
            assert(done.push(tail) =~= done + seq![tail]);
        }
        match part_name(&cs, start, n) {
            Some(t) => {
                names.push(t);
            },
            None => {},
        }
        proof {
            done = done.push(cs@.subrange(start as int, n as int));
            assert(done =~= dash_parts(rest));
        }
        if names.len() == 0 {
            return owned("混合（未知）");
        }
        let mut r = owned("混合（");
        let ghost known = known_names(dash_parts(rest));
        let mut k: usize = 0;
        while k < names.len()
            invariant
                k <= names@.len(),
                names@.len() == known.len(),
                names@.len() > 0,
                forall|j: int| 0 <= j < names@.len() ==> (#[trigger] names@[j])@ == known[j],
                r@ == "混合（"@ + join(known.subrange(0, k as int), " + "@),
            decreases names.len() - k,
        {
            proof {
                lemma_join_push(known.subrange(0, k as int), known[k as int], " + "@);
                assert(known.subrange(0, k + 1) =~= known.subrange(0, k as int).push(known[k as int]));
            }
            if k > 0 {
                push_str(&mut r, " + ");
            }
            push_str(&mut r, names[k]);
            k += 1;
        }
        assert(known.subrange(0, names@.len() as int) =~= known);
        push_str(&mut r, "）");
        return r;
    }
    proof {
        reveal_strlit("mixed-");
        if starts_with(value@, "mixed-"@) {
            assert(cs@.subrange(0, 6) == "mixed-"@);
        }
    }
    let ghost v = value@;
    if chars_eq_str(&cs, 0, n, "ntfs") {
        proof { assert(cs@.subrange(0, n as int) =~= v); }
        owned("NTFS")
    } else if chars_eq_str(&cs, 0, n, "fat32") {
        proof { assert(cs@.subrange(0, n as int) =~= v); }
        owned("FAT32")
    } else if chars_eq_str(&cs, 0, n, "exfat") {
        proof { assert(cs@.subrange(0, n as int) =~= v); }
        owned("exFAT")
    } else if chars_eq_str(&cs, 0, n, "fat-family") {
        proof { assert(cs@.subrange(0, n as int) =~= v); }
        owned("FAT/exFAT")
    } else if chars_eq_str(&cs, 0, n, "ext4") {
        proof { assert(cs@.subrange(0, n as int) =~= v); }
        owned("ext4")
    } else if chars_eq_str(&cs, 0, n, "apfs") {
        proof { assert(cs@.subrange(0, n as int) =~= v); }
        owned("APFS")
    } else if chars_eq_str(&cs, 0, n, "f2fs") {
        proof { assert(cs@.subrange(0, n as int) =~= v); }
        owned("F2FS")
    } else {
        proof { assert(cs@.subrange(0, n as int) =~= v); }
        let mut r = owned("未知（");
        push_str(&mut r, value);
        push_str(&mut r, "）");
        r
    }
}

/// Each item behind a `- ` bullet.
pub open spec fn bullets(items: Seq<Seq<char>>) -> Seq<Seq<char>> {
    items.map_values(|s: Seq<char>| "- "@ + s)
}

fn push_bullets(lines: &mut Vec<String>, items: &Vec<String>)
    ensures
        strs(final(lines)@) == strs(old(lines)@) + bullets(strs(items@)),
{
    let ghost l0 = strs(lines@);
    let mut i: usize = 0;
    while i < items.len()
        invariant
            i <= items@.len(),
            strs(lines@) == l0 + bullets(strs(items@.subrange(0, i as int))),
        decreases items.len() - i,
    {
        let mut b = owned("- ");
        push_str(&mut b, items[i].as_str());
        push_note(lines, b);
        i += 1;
        assert(strs(lines@) =~= l0 + bullets(strs(items@.subrange(0, i as int))));
    }
    assert(items@.subrange(0, items@.len() as int) =~= items@);
}

/// The numbered stage lines `k. title: detail`.
pub open spec fn stage_lines(stages: Seq<StageModel>) -> Seq<Seq<char>> {
    Seq::new(stages.len(), |i: int| dec((i + 1) as nat) + ". "@ + stages[i].title + ": "@ + stages[i].detail)
}

/// What the console shows of a plan.
pub open spec fn plan_lines_of(plan: ScanPlan) -> Seq<Seq<char>> {
    seq![
        "=== 恢复方案 ==="@,
        "案件编号："@ + plan.case_id@,
        "目标类型："@ + target_kind_text(plan.target_kind),
        "扫描深度："@ + scan_depth_text(plan.depth),
        "文件系统提示："@ + fs_hint_text(plan.fs_hint),
        Seq::empty(),
        "执行阶段："@,
    ] + stage_lines(stage_views(plan.stages@)) + seq![Seq::empty(), "安全规则："@] + bullets(strs(plan.safety_rules@))
        + seq![Seq::empty(), "前置假设："@] + bullets(strs(plan.assumptions@))
}

fn labeled(label: &str, value: &str) -> (r: String)
    ensures
        r@ == label@ + value@,
{
    let mut r = owned(label);
    push_str(&mut r, value);
    r
}

pub fn plan_lines(plan: &ScanPlan) -> (r: Vec<String>)
    ensures
        strs(r@) == plan_lines_of(*plan),
{
    let mut lines: Vec<String> = Vec::new();
    push_note(&mut lines, owned("=== 恢复方案 ==="));
    push_note(&mut lines, labeled("案件编号：", plan.case_id.as_str()));
    push_note(&mut lines, labeled("目标类型：", target_kind_label(plan.target_kind)));
    push_note(&mut lines, labeled("扫描深度：", scan_depth_label(plan.depth)));
    push_note(&mut lines, labeled("文件系统提示：", fs_hint_label(plan.fs_hint)));
    push_note(&mut lines, String::new());
    push_note(&mut lines, owned("执行阶段："));
    let ghost l0 = strs(lines@);
    let mut i: usize = 0;
    while i < plan.stages.len()
        invariant
            i <= plan.stages@.len(),
            strs(lines@) == l0 + stage_lines(stage_views(plan.stages@.subrange(0, i as int))),
        decreases plan.stages.len() - i,
    {
        let mut l = String::new();
        push_dec(&mut l, (i + 1) as u64);
        push_str(&mut l, ". ");
        push_str(&mut l, plan.stages[i].title.as_str());
        push_str(&mut l, ": ");
        push_str(&mut l, plan.stages[i].detail.as_str());
        push_note(&mut lines, l);
        i += 1;
        assert(strs(lines@) =~= l0 + stage_lines(stage_views(plan.stages@.subrange(0, i as int))));
    }
    assert(plan.stages@.subrange(0, plan.stages@.len() as int) =~= plan.stages@);
    push_note(&mut lines, String::new());
    push_note(&mut lines, owned("安全规则："));
    push_bullets(&mut lines, &plan.safety_rules);
    push_note(&mut lines, String::new());
    push_note(&mut lines, owned("前置假设："));
    push_bullets(&mut lines, &plan.assumptions);
    assert(strs(lines@) =~= plan_lines_of(*plan));
    lines
}

/// What the console shows of a recovery session.
pub open spec fn session_lines_of(session: RecoverySession) -> Seq<Seq<char>> {
    let acts = action_views(session.actions@);
    let head = seq![
        "=== 恢复结果 ==="@,
        "案件编号："@ + session.case_id@,
        "运行模式："@ + (if session.dry_run { "预演"@ } else { "执行"@ }),
        "输出目录："@ + session.destination@,
        "候选总数："@ + dec(session.action_count as nat),
        "成功数量："@ + dec(count_status_of(acts, "成功"@)),
        "失败数量："@ + dec(count_status_of(acts, "失败"@)),
        "清单路径："@ + session.manifest_path@,
    ];
    if session.notes@.len() > 0 {
        head + seq!["补充说明："@] + bullets(strs(session.notes@))
    } else {
        head
    }
}

pub fn session_lines(session: &RecoverySession) -> (r: Vec<String>)
    ensures
        strs(r@) == session_lines_of(*session),
{
    let recovered = count_status(&session.actions, "成功");
    let failed = count_status(&session.actions, "失败");
    let mut lines: Vec<String> = Vec::new();
    push_note(&mut lines, owned("=== 恢复结果 ==="));
    push_note(&mut lines, labeled("案件编号：", session.case_id.as_str()));
    push_note(&mut lines, labeled("运行模式：", if session.dry_run { "预演" } else { "执行" }));
    push_note(&mut lines, labeled("输出目录：", session.destination.as_str()));
    let mut a = owned("候选总数：");
    push_dec(&mut a, session.action_count);
    push_note(&mut lines, a);
    let mut b = owned("成功数量：");
    push_dec(&mut b, recovered as u64);
    push_note(&mut lines, b);
    let mut c = owned("失败数量：");
    push_dec(&mut c, failed as u64);
    push_note(&mut lines, c);
    push_note(&mut lines, labeled("清单路径：", session.manifest_path.as_str()));
    if session.notes.len() > 0 {
        push_note(&mut lines, owned("补充说明："));
        push_bullets(&mut lines, &session.notes);
    }
    assert(strs(lines@) =~= session_lines_of(*session));
    lines
}

pub open spec fn ntfs_line(m: NtfsDataSummary) -> Seq<char> {
    "NTFS 统计：可恢复="@ + dec(m.recoverable as nat) + " | 仅元数据="@ + dec(m.metadata_only as nat) + " | 压缩="@
        + dec(m.unsupported_compressed as nat) + " | 加密="@ + dec(m.unsupported_encrypted as nat)
        + " | 压缩且加密="@ + dec(m.unsupported_compressed_encrypted as nat) + " | 运行列表失败="@ + dec(
        m.runlist_failed as nat,
    ) + " | 含稀疏段可恢复="@ + dec(m.recoverable_with_sparse as nat)
}

pub open spec fn fat_line(m: FatDataSummary) -> Seq<char> {
    "FAT 统计：卷数="@ + dec(m.volumes_scanned as nat) + " | FAT12="@ + dec(m.fat12_volumes as nat) + " | FAT16="@
        + dec(m.fat16_volumes as nat) + " | FAT32="@ + dec(m.fat32_volumes as nat) + " | exFAT="@ + dec(
        m.exfat_volumes as nat,
    ) + " | 删除文件="@ + dec(m.deleted_files as nat) + " | 删除目录="@ + dec(m.deleted_directories as nat)
        + " | 可分段恢复="@ + dec(m.with_recovery_segments as nat) + " | 仅元数据="@ + dec(m.metadata_only as nat)
}

pub open spec fn ext4_line(m: Ext4DataSummary) -> Seq<char> {
    "ext4 统计：卷数="@ + dec(m.volumes_scanned as nat) + " | 删除文件="@ + dec(m.deleted_files as nat)
        + " | 删除目录="@ + dec(m.deleted_directories as nat) + " | 可分段恢复="@ + dec(
        m.with_recovery_segments as nat,
    ) + " | 稀疏段="@ + dec(m.with_sparse_segments as nat) + " | 仅元数据="@ + dec(m.metadata_only as nat)
        + " | 深度不支持="@ + dec(m.extents_depth_unsupported as nat) + " | 旧指针文件="@ + dec(
        m.legacy_pointer_files as nat,
    )
}

/// The statistics lines of the file systems that have them.
pub open spec fn metrics_lines_of(m: FsMetrics) -> Seq<Seq<char>> {
    let a: Seq<Seq<char>> = match m.ntfs {
        Some(n) => seq![ntfs_line(n)],
        None => Seq::empty(),
    };
    let b = match m.fat {
        Some(f) => a.push(fat_line(f)),
        None => a,
    };
    match m.ext4 {
        Some(e) => b.push(ext4_line(e)),
        None => b,
    }
}

fn push_stat(s: &mut String, label: &str, v: u64)
    ensures
        final(s)@ == old(s)@ + label@ + dec(v as nat),
{
    push_str(s, label);
    push_dec(s, v);
}

pub fn fs_metrics_lines(metrics: &FsMetrics) -> (r: Vec<String>)
    ensures
        strs(r@) == metrics_lines_of(*metrics),
{
    let mut lines: Vec<String> = Vec::new();
    match metrics.ntfs {
        Some(m) => {
            let mut l = String::new();
            push_stat(&mut l, "NTFS 统计：可恢复=", m.recoverable);
            push_stat(&mut l, " | 仅元数据=", m.metadata_only);
            push_stat(&mut l, " | 压缩=", m.unsupported_compressed);
            push_stat(&mut l, " | 加密=", m.unsupported_encrypted);
            push_stat(&mut l, " | 压缩且加密=", m.unsupported_compressed_encrypted);
            push_stat(&mut l, " | 运行列表失败=", m.runlist_failed);
            push_stat(&mut l, " | 含稀疏段可恢复=", m.recoverable_with_sparse);
            push_note(&mut lines, l);
        },
        None => {},
    }
    match metrics.fat {
        Some(m) => {
            let mut l = String::new();
            push_stat(&mut l, "FAT 统计：卷数=", m.volumes_scanned);
            push_stat(&mut l, " | FAT12=", m.fat12_volumes);
            push_stat(&mut l, " | FAT16=", m.fat16_volumes);
            push_stat(&mut l, " | FAT32=", m.fat32_volumes);
            push_stat(&mut l, " | exFAT=", m.exfat_volumes);
            push_stat(&mut l, " | 删除文件=", m.deleted_files);
            push_stat(&mut l, " | 删除目录=", m.deleted_directories);
            push_stat(&mut l, " | 可分段恢复=", m.with_recovery_segments);
            push_stat(&mut l, " | 仅元数据=", m.metadata_only);
            push_note(&mut lines, l);
        },
        None => {},
    }
    match metrics.ext4 {
        Some(m) => {
            let mut l = String::new();
            push_stat(&mut l, "ext4 统计：卷数=", m.volumes_scanned);
            push_stat(&mut l, " | 删除文件=", m.deleted_files);
            push_stat(&mut l, " | 删除目录=", m.deleted_directories);
            push_stat(&mut l, " | 可分段恢复=", m.with_recovery_segments);
            push_stat(&mut l, " | 稀疏段=", m.with_sparse_segments);
            push_stat(&mut l, " | 仅元数据=", m.metadata_only);
            push_stat(&mut l, " | 深度不支持=", m.extents_depth_unsupported);
            push_stat(&mut l, " | 旧指针文件=", m.legacy_pointer_files);
            push_note(&mut lines, l);
        },
        None => {},
    }
    assert(strs(lines@) =~= metrics_lines_of(*metrics));
    lines
}

/// The opening lines of a scan summary.
pub open spec fn summary_head(report: ScanReport) -> Seq<Seq<char>> {
    seq![
        "=== 扫描结果 ==="@,
        "案件编号："@ + report.plan.case_id@,
        "数据来源："@ + report.source@,
        "候选项总数："@ + dec(report.findings@.len()) + "（文件系统："@ + dec(report.fs_result.items@.len())
            + "，签名雕刻："@ + dec(report.carve_result.items@.len()) + "）"@,
        "识别到的文件系统："@ + match report.fs_result.detected_fs {
            Some(v) => detected_fs_text(v@),
            None => "未知"@,
        },
    ]
}

/// The device lines of a scan summary.
pub open spec fn device_part(snap: DeviceSnapshot) -> Seq<Seq<char>> {
    let a: Seq<Seq<char>> = match snap.detected_target_kind {
        Some(k) => seq!["识别到的设备类型："@ + target_kind_text(k)],
        None => Seq::empty(),
    };
    let b = match snap.device_hint {
        Some(h) => a.push("设备识别依据："@ + h@),
        None => a,
    };
    let c = match snap.low_level_source_path {
        Some(p) => b.push("底层扫描路径："@ + p@),
        None => b,
    };
    if snap.notes@.len() > 0 { c + seq!["设备说明："@] + bullets(strs(snap.notes@)) } else { c }
}

/// The statistics and warnings closing a scan summary.
pub open spec fn summary_tail(report: ScanReport) -> Seq<Seq<char>> {
    let a: Seq<Seq<char>> = match report.fs_result.metrics {
        Some(m) => metrics_lines_of(m),
        None => Seq::empty(),
    };
    if report.warnings@.len() > 0 { a + seq!["风险提示："@] + bullets(strs(report.warnings@)) } else { a }
}

/// What the console shows of a scan report.
pub open spec fn scan_summary_lines_of(report: ScanReport) -> Seq<Seq<char>> {
    summary_head(report) + device_part(report.device_snapshot) + summary_tail(report)
}

fn push_summary_head(lines: &mut Vec<String>, report: &ScanReport)
    ensures
        strs(final(lines)@) == strs(old(lines)@) + summary_head(*report),
{
    push_note(lines, owned("=== 扫描结果 ==="));
    push_note(lines, labeled("案件编号：", report.plan.case_id.as_str()));
    push_note(lines, labeled("数据来源：", report.source.as_str()));
    let mut t = owned("候选项总数：");
    push_dec(&mut t, report.findings.len() as u64);
    push_str(&mut t, "（文件系统：");
    push_dec(&mut t, report.fs_result.items.len() as u64);
    push_str(&mut t, "，签名雕刻：");
    push_dec(&mut t, report.carve_result.items.len() as u64);
    push_str(&mut t, "）");
    push_note(lines, t);
    let fs = match &report.fs_result.detected_fs {
        Some(v) => detected_fs_label(v.as_str()),
        None => owned("未知"),
    };
    push_note(lines, labeled("识别到的文件系统：", fs.as_str()));
    assert(strs(lines@) =~= strs(old(lines)@) + summary_head(*report));
}

fn push_device_part(lines: &mut Vec<String>, snap: &DeviceSnapshot)
    ensures
        strs(final(lines)@) == strs(old(lines)@) + device_part(*snap),
{
    match snap.detected_target_kind {
        Some(k) => {
            push_note(lines, labeled("识别到的设备类型：", target_kind_label(k)));
        },
        None => {},
    }
    match &snap.device_hint {
        Some(h) => {
            push_note(lines, labeled("设备识别依据：", h.as_str()));
        },
        None => {},
    }
    match &snap.low_level_source_path {
        Some(p) => {
            push_note(lines, labeled("底层扫描路径：", p.as_str()));
        },
        None => {},
    }
    if snap.notes.len() > 0 {
        push_note(lines, owned("设备说明："));
        push_bullets(lines, &snap.notes);
    }
    assert(strs(lines@) =~= strs(old(lines)@) + device_part(*snap));
}

fn push_summary_tail(lines: &mut Vec<String>, report: &ScanReport)
    ensures
        strs(final(lines)@) == strs(old(lines)@) + summary_tail(*report),
{
    match &report.fs_result.metrics {
        Some(m) => {
            let mut ml = fs_metrics_lines(m);
            let ghost l0 = strs(lines@);
            let ghost mv = strs(ml@);
            lines.append(&mut ml);
            assert(strs(lines@) =~= l0 + mv);
        },
        None => {},
    }
    if report.warnings.len() > 0 {
        push_note(lines, owned("风险提示："));
        push_bullets(lines, &report.warnings);
    }
    assert(strs(lines@) =~= strs(old(lines)@) + summary_tail(*report));
}

pub fn scan_summary_lines(report: &ScanReport) -> (r: Vec<String>)
    ensures
        strs(r@) == scan_summary_lines_of(*report),
{
    let mut lines: Vec<String> = Vec::new();
    push_summary_head(&mut lines, report);
    push_device_part(&mut lines, &report.device_snapshot);
    push_summary_tail(&mut lines, report);
    assert(strs(lines@) =~= scan_summary_lines_of(*report));
    lines
}

} // verus!
