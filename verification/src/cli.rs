//! The commands and their arguments, the requests they make, and the
//! decisions the command flow takes on its own.
use vstd::prelude::*;
use crate::model::{DeviceCandidate, FsHint, PlanInput, RecoveryRequest, ScanDepth, ScanRequest, TargetKind};
use crate::scanner::{target_kind_label, target_kind_text};
use crate::text::{char_to_lower, dec, lower_seq, owned, push_dec, push_note, push_str, str_chars, strs, trim, trim_string};

verus! {

/// The command line.
#[derive(Debug)]
pub struct Cli {
    /// Path of the TOML settings file.
    pub config: Option<String>,
    pub command: Commands,
}

/// The subcommands.
#[derive(Debug)]
pub enum Commands {
    /// Build a recovery plan for the target medium.
    Design(DesignArgs),
    /// List the devices available here, with their detected kind.
    Devices,
    /// Run a read-only scan and write a JSON report.
    Scan(ScanArgs),
    /// Recover from a scan report.
    Recover(RecoverArgs),
}

#[derive(Debug)]
pub struct DesignArgs {
    pub case_id: String,
    pub target_kind: TargetKind,
    pub depth: ScanDepth,
    pub fs_hint: FsHint,
    pub include_carving: bool,
}

#[derive(Debug)]
pub struct ScanArgs {
    pub case_id: String,
    pub source: String,
    pub output: String,
    pub target_kind: TargetKind,
    pub depth: ScanDepth,
    pub fs_hint: FsHint,
    pub include_carving: bool,
    /// Skip the confirmation of an automatic detection.
    pub yes: bool,
}

#[derive(Debug)]
pub struct RecoverArgs {
    pub report: String,
    pub destination: String,
    /// Write the recovered files (otherwise a dry run).
    pub execute: bool,
    pub no_keep_original_name: bool,
    pub no_preserve_timestamps: bool,
    pub skip_carved: bool,
}

impl DesignArgs {
    /// The plan input the `design` command builds its plan from.
    pub fn plan_input(self) -> (r: PlanInput)
        ensures
            r.case_id == self.case_id,
            r.target_kind == self.target_kind,
            r.depth == self.depth,
            r.fs_hint == self.fs_hint,
            r.include_carving == self.include_carving,
    {
        PlanInput {
            case_id: self.case_id,
            target_kind: self.target_kind,
            depth: self.depth,
            fs_hint: self.fs_hint,
            include_carving: self.include_carving,
        }
    }
}

impl ScanArgs {
    /// The request the `scan` command runs.
    pub fn scan_request(self) -> (r: ScanRequest)
        ensures
            r.plan.case_id == self.case_id,
            r.plan.target_kind == self.target_kind,
            r.plan.depth == self.depth,
            r.plan.fs_hint == self.fs_hint,
            r.plan.include_carving == self.include_carving,
            r.source == self.source,
            r.output_dir == self.output,
            r.target_kind == self.target_kind,
            r.depth == self.depth,
            r.fs_hint == self.fs_hint,
            r.include_carving == self.include_carving,
    {
        ScanRequest {
            plan: PlanInput {
                case_id: self.case_id,
                target_kind: self.target_kind,
                depth: self.depth,
                fs_hint: self.fs_hint,
                include_carving: self.include_carving,
            },
            source: self.source,
            output_dir: self.output,
            target_kind: self.target_kind,
            depth: self.depth,
            fs_hint: self.fs_hint,
            include_carving: self.include_carving,
        }
    }
}

impl RecoverArgs {
    /// The request the `recover` command runs: a dry run unless asked to
    /// execute, original names and timestamps kept unless turned off.
    pub fn recovery_request(self) -> (r: RecoveryRequest)
        ensures
            r.report_path == self.report,
            r.destination == self.destination,
            r.dry_run == !self.execute,
            r.keep_original_name == !self.no_keep_original_name,
            r.preserve_timestamps == !self.no_preserve_timestamps,
            r.skip_carved == self.skip_carved,
    {
        RecoveryRequest {
            report_path: self.report,
            destination: self.destination,
            dry_run: !self.execute,
            keep_original_name: !self.no_keep_original_name,
            preserve_timestamps: !self.no_preserve_timestamps,
            skip_carved: self.skip_carved,
        }
    }
}

/// Whether a scan asks the user to confirm the detected kind: only when
/// the kind is detected automatically and confirmation is not skipped.
pub open spec fn asks_confirmation(kind: TargetKind, skip_confirm: bool) -> bool {
    kind == TargetKind::Auto && !skip_confirm
}

pub fn needs_confirmation(kind: TargetKind, skip_confirm: bool) -> (r: bool)
    ensures
        r == asks_confirmation(kind, skip_confirm),
{
    kind == TargetKind::Auto && !skip_confirm
}

/// Whether an answer confirms: `y` or `yes`, ignoring surrounding white
/// space and ASCII case.
pub open spec fn confirms(answer: Seq<char>) -> bool {
    lower_seq(trim(answer)) == seq!['y'] || lower_seq(trim(answer)) == seq!['y', 'e', 's']
}

pub fn is_confirmation(answer: &str) -> (r: bool)
    ensures
        r == confirms(answer@),
{
    let t = trim_string(answer);
    let cs = str_chars(t.as_str());
    let lc = crate::text::lower_chars(&cs);
    if lc.len() == 1 {
        let r = lc[0] == 'y';
        proof {
            if r {
                assert(lc@ =~= seq!['y']);
            } else {
                assert(lc@[0] != 'y');
                assert(lc@ != seq!['y']);
            }
            assert(lc@.len() != 3);
        }
        r
    } else if lc.len() == 3 {
        let r = lc[0] == 'y' && lc[1] == 'e' && lc[2] == 's';
        proof {
            if r {
                assert(lc@ =~= seq!['y', 'e', 's']);
            } else {
                assert(lc@ != seq!['y', 'e', 's']);
            }
        }
        r
    } else {
        false
    }
}

/// The kind shown for a detection (other when none was made) and its basis.
pub open spec fn confirm_prompt_of(detected: Option<TargetKind>, hint: Option<Seq<char>>) -> Seq<char> {
    let kind = match detected {
        Some(k) => k,
        None => TargetKind::Other,
    };
    let basis = match hint {
        Some(h) => h,
        None => "无可用识别依据"@,
    };
    "自动识别结果："@ + target_kind_text(kind) + "（"@ + basis + "）"@
}

pub fn confirm_prompt(detected: Option<TargetKind>, hint: &Option<String>) -> (r: String)
    ensures
        r@ == confirm_prompt_of(detected, match hint {
            Some(h) => Some(h@),
            None => None,
        }),
{
    let kind = match detected {
        Some(k) => k,
        None => TargetKind::Other,
    };
    let mut r = owned("自动识别结果：");
    push_str(&mut r, target_kind_label(kind));
    push_str(&mut r, "（");
    match hint {
        Some(h) => push_str(&mut r, h.as_str()),
        None => push_str(&mut r, "无可用识别依据"),
    }
    push_str(&mut r, "）");
    r
}

/// The lines the `devices` command prints for a device list.
pub open spec fn device_lines_of(paths: Seq<Seq<char>>, kinds: Seq<TargetKind>, notes: Seq<Seq<char>>) -> Seq<Seq<char>> {
    if paths.len() == 0 {
        seq!["未检测到可用设备。可手动使用 --source 指定路径。"@]
    } else {
        seq!["共检测到 "@ + dec(paths.len()) + " 个设备："@] + Seq::new(
            paths.len(),
            |i: int| dec((i + 1) as nat) + ". "@ + paths[i] + " | 类型："@ + target_kind_text(kinds[i]) + " | 说明："@ + notes[i],
        ) + seq!["可直接复制以上路径用于 scan --source <路径>。"@]
    }
}

pub open spec fn device_paths(v: Seq<DeviceCandidate>) -> Seq<Seq<char>> {
    v.map_values(|d: DeviceCandidate| d.path@)
}

pub open spec fn device_kinds(v: Seq<DeviceCandidate>) -> Seq<TargetKind> {
    v.map_values(|d: DeviceCandidate| d.target_kind)
}

pub open spec fn device_notes(v: Seq<DeviceCandidate>) -> Seq<Seq<char>> {
    v.map_values(|d: DeviceCandidate| d.note@)
}

pub fn device_lines(devices: &Vec<DeviceCandidate>) -> (r: Vec<String>)
    ensures
        strs(r@) == device_lines_of(device_paths(devices@), device_kinds(devices@), device_notes(devices@)),
{
    let mut lines: Vec<String> = Vec::new();
    if devices.len() == 0 {
        push_note(&mut lines, owned("未检测到可用设备。可手动使用 --source 指定路径。"));
        assert(strs(lines@) =~= device_lines_of(device_paths(devices@), device_kinds(devices@), device_notes(devices@)));
        return lines;
    }
    let mut h = owned("共检测到 ");
    push_dec(&mut h, devices.len() as u64);
    push_str(&mut h, " 个设备：");
    push_note(&mut lines, h);
    let ghost l0 = strs(lines@);
    let ghost paths = device_paths(devices@);
    let ghost kinds = device_kinds(devices@);
    let ghost notes = device_notes(devices@);
    let mut i: usize = 0;
    while i < devices.len()
        invariant
            i <= devices@.len(),
            paths == device_paths(devices@),
            kinds == device_kinds(devices@),
            notes == device_notes(devices@),
            strs(lines@) == l0 + Seq::new(
                i as nat,
                |k: int| dec((k + 1) as nat) + ". "@ + paths[k] + " | 类型："@ + target_kind_text(kinds[k]) + " | 说明："@ + notes[k],
            ),
        decreases devices.len() - i,
    {
        let d = &devices[i];
        let mut l = String::new();
        push_dec(&mut l, (i + 1) as u64);
        push_str(&mut l, ". ");
        push_str(&mut l, d.path.as_str());
        push_str(&mut l, " | 类型：");
        push_str(&mut l, target_kind_label(d.target_kind));
        push_str(&mut l, " | 说明：");
        push_str(&mut l, d.note.as_str());
        push_note(&mut lines, l);
        i += 1;
        assert(strs(lines@) =~= l0 + Seq::new(
            i as nat,
            |k: int| dec((k + 1) as nat) + ". "@ + paths[k] + " | 类型："@ + target_kind_text(kinds[k]) + " | 说明："@ + notes[k],
        ));
    }
    push_note(&mut lines, owned("可直接复制以上路径用于 scan --source <路径>。"));
    assert(strs(lines@) =~= device_lines_of(device_paths(devices@), device_kinds(devices@), device_notes(devices@)));
    lines
}

} // verus!
