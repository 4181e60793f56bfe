//! Source inspection rules: file names and extensions of paths, phone and
//! image detection, the platform's volume classification, and the device
//! snapshot a scan starts from. Querying the platform happens outside the
//! library, which is handed what it found.
use vstd::prelude::*;
use crate::model::{DeviceCandidate, DeviceSnapshot, TargetKind};
use crate::recovery::{last_dot, split_file_name, split_name, plain_file_name};
use crate::scanner::{target_kind_label, target_kind_text};
use crate::text::{
    char_to_upper, chars_contain, contains_seq, lower_seq, owned, push_char, push_note, push_str,
    starts_with, str_chars, strs, upper,
};

verus! {

/// Length of the run of characters other than `sep` at the start of `s`.
pub open spec fn run_len(s: Seq<char>, sep: char) -> nat
    decreases s.len(),
{
    if s.len() == 0 || s[0] == sep { 0 } else { 1 + run_len(s.drop_first(), sep) }
}

/// The non-empty pieces of `s` between separators `sep`, in order.
pub open spec fn runs(s: Seq<char>, sep: char) -> Seq<Seq<char>>
    decreases s.len(),
{
    if s.len() == 0 {
        Seq::empty()
    } else if s[0] == sep {
        runs(s.drop_first(), sep)
    } else {
        proof {
            lemma_run_len(s, sep);
        }
        seq![s.subrange(0, run_len(s, sep) as int)] + runs(s.subrange(run_len(s, sep) as int, s.len() as int), sep)
    }
}

pub proof fn lemma_run_len(s: Seq<char>, sep: char)
    ensures
        run_len(s, sep) <= s.len(),
        s.len() > 0 && s[0] != sep ==> run_len(s, sep) >= 1,
        forall|j: int| 0 <= j < run_len(s, sep) ==> s[j] != sep,
        run_len(s, sep) < s.len() ==> s[run_len(s, sep) as int] == sep,
    decreases s.len(),
{
    if s.len() > 0 && s[0] != sep {
        lemma_run_len(s.drop_first(), sep);
        assert forall|j: int| 0 <= j < run_len(s, sep) implies s[j] != sep by {
            if j > 0 {
                assert(s[j] == s.drop_first()[j - 1]);
            }
        }
    }
}

/// Where the last component of `p` starts: just after its last `/`.
pub open spec fn comp_start(p: Seq<char>) -> nat
    decreases p.len(),
{
    if p.len() == 0 || p.last() == '/' { p.len() } else { comp_start(p.drop_last()) }
}

pub proof fn lemma_comp_start(p: Seq<char>)
    ensures
        comp_start(p) <= p.len(),
        forall|j: int| comp_start(p) <= j < p.len() ==> p[j] != '/',
        comp_start(p) > 0 ==> p[comp_start(p) - 1] == '/',
    decreases p.len(),
{
    if p.len() > 0 && p.last() != '/' {
        lemma_comp_start(p.drop_last());
        assert forall|j: int| comp_start(p) <= j < p.len() implies p[j] != '/' by {
            if j < p.len() - 1 {
                assert(p[j] == p.drop_last()[j]);
            }
        }
    }
}

/// The file name of a `/`-separated path, as `Path::file_name` gives it:
/// trailing separators and `.` components are passed over from the end,
/// and a final `..` names no file.
pub open spec fn file_name_of(p: Seq<char>) -> Option<Seq<char>>
    decreases p.len(),
{
    if p.len() == 0 {
        None
    } else if p.last() == '/' {
        file_name_of(p.drop_last())
    } else {
        proof {
            lemma_comp_start(p);
        }
        let k = comp_start(p) as int;
        let comp = p.subrange(k, p.len() as int);
        if comp == seq!['.'] {
            file_name_of(p.subrange(0, k))
        } else if comp == seq!['.', '.'] {
            None
        } else {
            Some(comp)
        }
    }
}

/// The extension of a path, as `Path::extension` gives it.
pub open spec fn extension_of(p: Seq<char>) -> Option<Seq<char>> {
    match file_name_of(p) {
        None => None,
        Some(n) => split_name(n).1,
    }
}

/// Start of the last component of `cs[..end]`.
fn component_start(cs: &Vec<char>, end: usize) -> (r: usize)
    requires
        end <= cs@.len(),
    ensures
        r == comp_start(cs@.subrange(0, end as int)),
{
    let mut k = end;
    while k > 0 && cs[k - 1] != '/'
        invariant
            k <= end <= cs@.len(),
            comp_start(cs@.subrange(0, end as int)) == comp_start(cs@.subrange(0, k as int)),
        decreases k,
    {
        assert(cs@.subrange(0, k as int).drop_last() =~= cs@.subrange(0, k - 1));
        k -= 1;
    }
    k
}

/// The file name of a `/`-separated path, as `Path::file_name` gives it.
pub fn path_file_name(path: &str) -> (r: Option<String>)
    ensures
        match file_name_of(path@) {
            Some(n) => r matches Some(s) && s@ == n,
            None => r is None,
        },
{
    let cs = str_chars(path);
    let mut end = cs.len();
    assert(cs@.subrange(0, end as int) =~= cs@);
    loop
        invariant
            end <= cs@.len(),
            cs@ == path@,
            file_name_of(cs@.subrange(0, end as int)) == file_name_of(path@),
        decreases end,
    {
        let ghost pre = cs@.subrange(0, end as int);
        if end == 0 {
            return None;
        }
        if cs[end - 1] == '/' {
            assert(pre.drop_last() =~= cs@.subrange(0, end - 1));
            end = end - 1;
            continue;
        }
        let start = component_start(&cs, end);
        proof {
            lemma_comp_start(pre);
        }
        let len = end - start;
        let is_dot = len == 1 && cs[start] == '.';
        let is_dotdot = len == 2 && cs[start] == '.' && cs[start + 1] == '.';
        let ghost comp = pre.subrange(start as int, end as int);
        proof {
            assert(comp =~= cs@.subrange(start as int, end as int));
            if is_dot {
                assert(comp =~= seq!['.']);
            }
            if is_dotdot {
                assert(comp =~= seq!['.', '.']);
            }
            if comp == seq!['.'] {
                assert(comp[0] == '.');
            }
            if comp == seq!['.', '.'] {
                assert(comp[0] == '.' && comp[1] == '.');
            }
        }
        if is_dotdot {
            return None;
        }
        if is_dot {
            assert(pre.subrange(0, start as int) =~= cs@.subrange(0, start as int));
            end = start;
            continue;
        }
        let mut out = String::new();
        let mut i = start;
        while i < end
            invariant
                start <= i <= end <= cs@.len(),
                out@ == cs@.subrange(start as int, i as int),
            decreases end - i,
        {
            push_char(&mut out, cs[i]);
            i += 1;
            assert(out@ =~= cs@.subrange(start as int, i as int));
        }
        return Some(out);
    }
}

/// The extension of a `/`-separated path, as `Path::extension` gives it.
pub fn path_extension(path: &str) -> (r: Option<String>)
    ensures
        match extension_of(path@) {
            Some(e) => r matches Some(s) && s@ == e,
            None => r is None,
        },
{
    match path_file_name(path) {
        None => None,
        Some(n) => {
            proof {
                lemma_file_name_plain(path@);
            }
            let (_, ext) = split_file_name(n.as_str());
            ext
        },
    }
}

proof fn lemma_file_name_plain(p: Seq<char>)
    ensures
        file_name_of(p) matches Some(n) ==> plain_file_name(n),
    decreases p.len(),
{
    if p.len() > 0 {
        if p.last() == '/' {
            lemma_file_name_plain(p.drop_last());
        } else {
            lemma_comp_start(p);
            let k = comp_start(p) as int;
            let comp = p.subrange(k, p.len() as int);
            if comp == seq!['.'] {
                lemma_file_name_plain(p.subrange(0, k));
            } else {
                assert forall|i: int| 0 <= i < comp.len() implies comp[i] != '/' by {
                    assert(comp[i] == p[k + i]);
                }
            }
        }
    }
}

fn lower_string(s: &str) -> (r: Vec<char>)
    ensures
        r@ == lower_seq(s@),
{
    let cs = str_chars(s);
    crate::text::lower_chars(&cs)
}

fn chars_are(cs: &Vec<char>, s: &str) -> (r: bool)
    ensures
        r == (cs@ == s@),
{
    let sc = str_chars(s);
    if cs.len() != sc.len() {
        return false;
    }
    let mut i: usize = 0;
    while i < cs.len()
        invariant
            cs@.len() == sc@.len(),
            sc@ == s@,
            i <= cs@.len(),
            forall|j: int| 0 <= j < i ==> cs@[j] == sc@[j],
        decreases cs.len() - i,
    {
        if cs[i] != sc[i] {
            return false;
        }
        i += 1;
    }
    assert(cs@ =~= s@);
    true
}

/// An image or virtual-disk extension (ASCII case ignored).
pub open spec fn image_ext(e: Seq<char>) -> bool {
    let l = lower_seq(e);
    l == "img"@ || l == "raw"@ || l == "dd"@ || l == "e01"@ || l == "vhd"@ || l == "vhdx"@
}

/// Whether a path has the extension of a disk image.
pub fn is_image_like_extension(path: &str) -> (r: bool)
    ensures
        r == (match extension_of(path@) {
            Some(e) => image_ext(e),
            None => false,
        }),
{
    match path_extension(path) {
        None => false,
        Some(e) => {
            let l = lower_string(e.as_str());
            chars_are(&l, "img") || chars_are(&l, "raw") || chars_are(&l, "dd") || chars_are(&l, "e01")
                || chars_are(&l, "vhd") || chars_are(&l, "vhdx")
        },
    }
}

/// Path fragments of phone backups and storage.
pub open spec fn phone_tokens() -> Seq<Seq<char>> {
    seq!["mobilesync\\backup"@, "mobilesync/backup"@, "dcim"@, "android"@, "iphone"@, "itunes"@]
}

/// Directory entries that mark phone storage.
pub open spec fn phone_entry(n: Seq<char>) -> bool {
    let l = lower_seq(n);
    l == "dcim"@ || l == "android"@ || l == "mobilesync"@ || l == "apple computer"@
}

/// Whether a source looks like a phone backup or phone storage: a phone
/// path fragment, else for a file a `.ab` or `.ipsw` extension, else for a
/// directory one of the listed entry names (the first entries of the
/// directory, as the caller read them).
pub open spec fn phone_source(path: Seq<char>, is_dir: bool, entries: Seq<Seq<char>>) -> bool {
    if exists|i: int| 0 <= i < phone_tokens().len() && contains_seq(lower_seq(path), #[trigger] phone_tokens()[i]) {
        true
    } else if !is_dir {
        match extension_of(path) {
            Some(e) => lower_seq(e) == "ab"@ || lower_seq(e) == "ipsw"@,
            None => false,
        }
    } else {
        exists|i: int| 0 <= i < entries.len() && phone_entry(#[trigger] entries[i])
    }
}

fn phone_token_list() -> (r: Vec<&'static str>)
    ensures
        r@.len() == phone_tokens().len(),
        forall|i: int| 0 <= i < r@.len() ==> (#[trigger] r@[i])@ == phone_tokens()[i],
{
    vec!["mobilesync\\backup", "mobilesync/backup", "dcim", "android", "iphone", "itunes"]
}

pub fn looks_like_phone_source(path: &str, is_dir: bool, entry_names: &Vec<String>) -> (r: bool)
    ensures
        r == phone_source(path@, is_dir, strs(entry_names@)),
{
    let text = lower_string(path);
    let tokens = phone_token_list();
    let mut i: usize = 0;
    while i < tokens.len()
        invariant
            i <= tokens@.len(),
            tokens@.len() == phone_tokens().len(),
            forall|j: int| 0 <= j < tokens@.len() ==> (#[trigger] tokens@[j])@ == phone_tokens()[j],
            text@ == lower_seq(path@),
            forall|j: int| 0 <= j < i ==> !contains_seq(lower_seq(path@), #[trigger] phone_tokens()[j]),
        decreases tokens.len() - i,
    {
        let t = str_chars(tokens[i]);
        if chars_contain(text.as_slice(), t.as_slice()) {
            return true;
        }
        i += 1;
    }
    if !is_dir {
        return match path_extension(path) {
            Some(e) => {
                let l = lower_string(e.as_str());
                chars_are(&l, "ab") || chars_are(&l, "ipsw")
            },
            None => false,
        };
    }
    let mut k: usize = 0;
    while k < entry_names.len()
        invariant
            k <= entry_names@.len(),
            is_dir,
            forall|j: int| 0 <= j < phone_tokens().len() ==> !contains_seq(lower_seq(path@), #[trigger] phone_tokens()[j]),
            forall|j: int| 0 <= j < k ==> !phone_entry(#[trigger] strs(entry_names@)[j]),
        decreases entry_names.len() - k,
    {
        let l = lower_string(entry_names[k].as_str());
        if chars_are(&l, "dcim") || chars_are(&l, "android") || chars_are(&l, "mobilesync") || chars_are(
            &l,
            "apple computer",
        ) {
            assert(phone_entry(strs(entry_names@)[k as int]));
            return true;
        }
        k += 1;
    }
    false
}

/// The classification of a Unix path by where it is mounted.
pub open spec fn unix_class(p: Seq<char>) -> Option<(TargetKind, Seq<char>)> {
    if starts_with(p, "/run/media/"@) || starts_with(p, "/media/"@) || starts_with(p, "/Volumes/"@) {
        Some((TargetKind::UsbDisk, "命中可移动设备挂载目录规则"@))
    } else if starts_with(p, "/mnt/"@) {
        Some((TargetKind::Other, "命中 /mnt 挂载目录规则"@))
    } else if p.len() > 0 && p[0] == '/' {
        Some((TargetKind::PcDisk, "命中系统本地路径规则"@))
    } else {
        None
    }
}

fn has_prefix(cs: &Vec<char>, p: &str) -> (r: bool)
    ensures
        r == starts_with(cs@, p@),
{
    let pc = str_chars(p);
    if pc.len() > cs.len() {
        return false;
    }
    let mut i: usize = 0;
    while i < pc.len()
        invariant
            pc@.len() <= cs@.len(),
            pc@ == p@,
            i <= pc@.len(),
            forall|j: int| 0 <= j < i ==> cs@[j] == pc@[j],
        decreases pc.len() - i,
    {
        if cs[i] != pc[i] {
            assert(cs@.subrange(0, p@.len() as int)[i as int] != p@[i as int]);
            return false;
        }
        i += 1;
    }
    assert(cs@.subrange(0, p@.len() as int) =~= p@);
    true
}

pub fn classify_unix_path(path: &str) -> (r: Option<(TargetKind, String)>)
    ensures
        match unix_class(path@) {
            Some((k, h)) => r matches Some((rk, rh)) && rk == k && rh@ == h,
            None => r is None,
        },
{
    let cs = str_chars(path);
    if has_prefix(&cs, "/run/media/") || has_prefix(&cs, "/media/") || has_prefix(&cs, "/Volumes/") {
        return Some((TargetKind::UsbDisk, owned("命中可移动设备挂载目录规则")));
    }
    if has_prefix(&cs, "/mnt/") {
        return Some((TargetKind::Other, owned("命中 /mnt 挂载目录规则")));
    }
    if cs.len() > 0 && cs[0] == '/' {
        return Some((TargetKind::PcDisk, owned("命中系统本地路径规则")));
    }
    None
}

/// The kind a Windows drive type code gives, with its basis; none for a
/// drive without a root directory.
pub open spec fn drive_class(code: u32) -> Option<(TargetKind, Seq<char>)> {
    if code == 2 {
        Some((TargetKind::UsbDisk, "Windows 盘符类型为可移动存储"@))
    } else if code == 3 {
        Some((TargetKind::PcDisk, "Windows 盘符类型为固定磁盘"@))
    } else if code == 4 {
        Some((TargetKind::Other, "Windows 盘符类型为网络存储"@))
    } else if code == 5 {
        Some((TargetKind::Other, "Windows 盘符类型为光驱"@))
    } else if code == 6 {
        Some((TargetKind::Other, "Windows 盘符类型为内存盘"@))
    } else if code == 1 {
        None
    } else if code == 0 {
        Some((TargetKind::Other, "Windows 盘符类型未知"@))
    } else {
        Some((TargetKind::Other, "Windows 盘符类型未定义"@))
    }
}

/// Classifies a Windows volume root by the drive type the platform reports for it.
pub fn classify_windows_root(drive_type: u32) -> (r: Option<(TargetKind, String)>)
    ensures
        match drive_class(drive_type) {
            Some((k, h)) => r matches Some((rk, rh)) && rk == k && rh@ == h,
            None => r is None,
        },
{
    if drive_type == 2 {
        Some((TargetKind::UsbDisk, owned("Windows 盘符类型为可移动存储")))
    } else if drive_type == 3 {
        Some((TargetKind::PcDisk, owned("Windows 盘符类型为固定磁盘")))
    } else if drive_type == 4 {
        Some((TargetKind::Other, owned("Windows 盘符类型为网络存储")))
    } else if drive_type == 5 {
        Some((TargetKind::Other, owned("Windows 盘符类型为光驱")))
    } else if drive_type == 6 {
        Some((TargetKind::Other, owned("Windows 盘符类型为内存盘")))
    } else if drive_type == 1 {
        None
    } else if drive_type == 0 {
        Some((TargetKind::Other, owned("Windows 盘符类型未知")))
    } else {
        Some((TargetKind::Other, owned("Windows 盘符类型未定义")))
    }
}

/// The drive letters set in a logical-drive bit mask, `A` for bit 0.
pub open spec fn mask_letters(mask: u32, from: nat) -> Seq<char>
    decreases 26 - from,
{
    if from >= 26 {
        Seq::empty()
    } else if (mask >> (from as u32)) & 1 == 1 {
        seq![(65 + from) as char] + mask_letters(mask, from + 1)
    } else {
        mask_letters(mask, from + 1)
    }
}

pub fn drive_letters(mask: u32) -> (r: Vec<char>)
    ensures
        r@ == mask_letters(mask, 0),
{
    let mut out: Vec<char> = Vec::new();
    let mut i: u32 = 0;
    while i < 26
        invariant
            i <= 26,
            out@ + mask_letters(mask, i as nat) == mask_letters(mask, 0),
        decreases 26 - i,
    {
        let ghost before = out@;
        if (mask >> i) & 1 == 1 {
            let c = (65u8 + i as u8) as char;
            assert(c == (65 + i) as char);
            out.push(c);
            assert(before + mask_letters(mask, i as nat) =~= out@ + mask_letters(mask, (i + 1) as nat));
        }
        i += 1;
    }
    assert(out@ + Seq::<char>::empty() =~= out@);
    out
}

/// The root directory `X:\` of a drive letter.
pub open spec fn drive_root_of(letter: char) -> Seq<char> {
    seq![letter, ':', '\\']
}

pub fn drive_root(letter: char) -> (r: String)
    ensures
        r@ == drive_root_of(letter),
{
    let mut r = String::new();
    push_char(&mut r, letter);
    push_char(&mut r, ':');
    push_char(&mut r, '\\');
    assert(r@ =~= drive_root_of(letter));
    r
}

/// The device the `devices` listing shows for a drive, unless it has no root directory.
pub fn windows_device(letter: char, drive_type: u32) -> (r: Option<DeviceCandidate>)
    ensures
        match drive_class(drive_type) {
            Some((k, h)) => r matches Some(d) && d.path@ == drive_root_of(letter) && d.target_kind == k && d.note@ == h,
            None => r is None,
        },
{
    match classify_windows_root(drive_type) {
        Some((target_kind, note)) => Some(DeviceCandidate { path: drive_root(letter), target_kind, note }),
        None => None,
    }
}

/// A directory mounted under `base`, listed as removable storage.
pub fn mounted_device(path: String, base: &str) -> (r: DeviceCandidate)
    ensures
        r.path@ == path@,
        r.target_kind == TargetKind::UsbDisk,
        r.note@ == "挂载于 "@ + base@,
{
    let mut note = owned("挂载于 ");
    push_str(&mut note, base);
    DeviceCandidate { path, target_kind: TargetKind::UsbDisk, note }
}

/// The system root volume, listed when no removable storage is mounted.
pub fn root_device() -> (r: DeviceCandidate)
    ensures
        r.path@ == "/"@,
        r.target_kind == TargetKind::PcDisk,
        r.note@ == "系统根卷"@,
{
    DeviceCandidate { path: owned("/"), target_kind: TargetKind::PcDisk, note: owned("系统根卷") }
}

/// The run of non-separator characters at or after `from`, and what
/// `runs` gives for the rest.
fn next_run(cs: &Vec<char>, from: usize, sep: char) -> (r: (usize, usize))
    requires
        from <= cs@.len(),
    ensures
        from <= r.0 <= r.1 <= cs@.len(),
        r.0 == r.1 ==> runs(cs@.subrange(from as int, cs@.len() as int), sep) == Seq::<Seq<char>>::empty(),
        r.0 < r.1 ==> runs(cs@.subrange(from as int, cs@.len() as int), sep) == seq![cs@.subrange(r.0 as int, r.1 as int)]
            + runs(cs@.subrange(r.1 as int, cs@.len() as int), sep),
{
    let n = cs.len();
    let mut i = from;
    while i < n && cs[i] == sep
        invariant
            from <= i <= n == cs@.len(),
            runs(cs@.subrange(from as int, n as int), sep) == runs(cs@.subrange(i as int, n as int), sep),
        decreases n - i,
    {
        assert(cs@.subrange(i as int, n as int).drop_first() =~= cs@.subrange(i + 1, n as int));
        i += 1;
    }
    if i == n {
        assert(cs@.subrange(n as int, n as int).len() == 0);
        return (n, n);
    }
    let mut j = i;
    while j < n && cs[j] != sep
        invariant
            i <= j <= n == cs@.len(),
            run_len(cs@.subrange(i as int, n as int), sep) == (j - i) + run_len(cs@.subrange(j as int, n as int), sep),
        decreases n - j,
    {
        assert(cs@.subrange(j as int, n as int).drop_first() =~= cs@.subrange(j + 1, n as int));
        j += 1;
    }
    proof {
        let t = cs@.subrange(i as int, n as int);
        assert(run_len(cs@.subrange(j as int, n as int), sep) == 0);
        assert(t.subrange(0, (j - i) as int) =~= cs@.subrange(i as int, j as int));
        assert(t.subrange((j - i) as int, t.len() as int) =~= cs@.subrange(j as int, n as int));
    }
    (i, j)
}

fn chars_between(cs: &Vec<char>, lo: usize, hi: usize, out: &mut String)
    requires
        lo <= hi <= cs@.len(),
    ensures
        final(out)@ == old(out)@ + cs@.subrange(lo as int, hi as int),
{
    let mut i = lo;
    while i < hi
        invariant
            lo <= i <= hi <= cs@.len(),
            out@ == old(out)@ + cs@.subrange(lo as int, i as int),
        decreases hi - i,
    {
        push_char(out, cs[i]);
        i += 1;
        assert(out@ =~= old(out)@ + cs@.subrange(lo as int, i as int));
    }
}

/// `/` read as `\`.
pub open spec fn backslashed(s: Seq<char>) -> Seq<char> {
    s.map_values(|c: char| if c == '/' { '\\' } else { c })
}

/// The Windows volume root of a path: `X:\` for a drive path, or
/// `\\server\share\` for a network path; a `\\?\` prefix is passed over.
pub open spec fn volume_root_of(path: Seq<char>) -> Option<Seq<char>> {
    let t0 = backslashed(path);
    let t = if starts_with(t0, seq!['\\', '\\', '?', '\\']) { t0.subrange(4, t0.len() as int) } else { t0 };
    if t.len() >= 2 && (t[0] as u32) < 128 && t[1] == ':' {
        Some(seq![upper(t[0]), ':', '\\'])
    } else if starts_with(t, seq!['\\', '\\']) && runs(t.subrange(2, t.len() as int), '\\').len() >= 2 {
        let ps = runs(t.subrange(2, t.len() as int), '\\');
        Some(seq!['\\', '\\'] + ps[0] + seq!['\\'] + ps[1] + seq!['\\'])
    } else {
        None
    }
}

pub fn windows_volume_root(path: &str) -> (r: Option<String>)
    ensures
        match volume_root_of(path@) {
            Some(v) => r matches Some(s) && s@ == v,
            None => r is None,
        },
{
    let cs0 = str_chars(path);
    let mut t0: Vec<char> = Vec::new();
    let mut i: usize = 0;
    while i < cs0.len()
        invariant
            i <= cs0@.len(),
            t0@ == backslashed(cs0@.subrange(0, i as int)),
        decreases cs0.len() - i,
    {
        t0.push(if cs0[i] == '/' { '\\' } else { cs0[i] });
        i += 1;
        assert(t0@ =~= backslashed(cs0@.subrange(0, i as int)));
    }
    assert(cs0@.subrange(0, cs0@.len() as int) =~= cs0@);
    let ghost gt0 = t0@;
    let verbatim = t0.len() >= 4 && t0[0] == '\\' && t0[1] == '\\' && t0[2] == '?' && t0[3] == '\\';
    proof {
        if verbatim {
            assert(gt0.subrange(0, 4) =~= seq!['\\', '\\', '?', '\\']);
        } else if gt0.len() >= 4 && gt0.subrange(0, 4) == seq!['\\', '\\', '?', '\\'] {
            assert(gt0.subrange(0, 4)[0] == '\\');
            assert(gt0.subrange(0, 4)[1] == '\\');
            assert(gt0.subrange(0, 4)[2] == '?');
            assert(gt0.subrange(0, 4)[3] == '\\');
        }
    }
    let mut t: Vec<char> = Vec::new();
    let mut k: usize = if verbatim { 4 } else { 0 };
    let ghost k0 = k;
    while k < t0.len()
        invariant
            k0 <= k <= t0@.len(),
            t@ == t0@.subrange(k0 as int, k as int),
        decreases t0.len() - k,
    {
        t.push(t0[k]);
        k += 1;
        assert(t@ =~= t0@.subrange(k0 as int, k as int));
    }
    proof {
        if !verbatim {
            assert(t@ =~= gt0);
        }
    }
    if t.len() >= 2 && (t[0] as u32) < 128 && t[1] == ':' {
        let mut r = String::new();
        push_char(&mut r, char_to_upper(t[0]));
        push_char(&mut r, ':');
        push_char(&mut r, '\\');
        assert(r@ =~= seq![upper(t@[0]), ':', '\\']);
        return Some(r);
    }
    if t.len() >= 2 && t[0] == '\\' && t[1] == '\\' {
        assert(t@.subrange(0, 2) =~= seq!['\\', '\\']);
        let (a0, a1) = next_run(&t, 2, '\\');
        if a0 < a1 {
            let (b0, b1) = next_run(&t, a1, '\\');
            if b0 < b1 {
                let mut r = String::new();
                push_char(&mut r, '\\');
                push_char(&mut r, '\\');
                chars_between(&t, a0, a1, &mut r);
                push_char(&mut r, '\\');
                chars_between(&t, b0, b1, &mut r);
                push_char(&mut r, '\\');
                proof {
                    let ps = runs(t@.subrange(2, t@.len() as int), '\\');
                    assert(ps[0] == t@.subrange(a0 as int, a1 as int));
                    assert(ps.drop_first() == runs(t@.subrange(a1 as int, t@.len() as int), '\\'));
                    assert(ps[1] == t@.subrange(b0 as int, b1 as int));
                    assert(r@ =~= seq!['\\', '\\'] + ps[0] + seq!['\\'] + ps[1] + seq!['\\']);
                }
                return Some(r);
            } else {
                proof {
                    let ps = runs(t@.subrange(2, t@.len() as int), '\\');
                    assert(ps.len() == 1);
                }
            }
        }
        return None;
    }
    proof {
        if t@.len() >= 2 && t@.subrange(0, 2) == seq!['\\', '\\'] {
            assert(t@.subrange(0, 2)[0] == '\\' && t@.subrange(0, 2)[1] == '\\');
        }
    }
    None
}

/// The raw device path `\\.\X:` of a drive root `X:\`.
pub open spec fn raw_volume_of(root: Seq<char>) -> Option<Seq<char>> {
    if root.len() >= 2 && (root[0] as u32) < 128 && root[1] == ':' {
        Some(seq!['\\', '\\', '.', '\\', upper(root[0]), ':'])
    } else {
        None
    }
}

pub fn raw_volume_path(root: &str) -> (r: Option<String>)
    ensures
        match raw_volume_of(root@) {
            Some(v) => r matches Some(s) && s@ == v,
            None => r is None,
        },
{
    let cs = str_chars(root);
    if cs.len() >= 2 && (cs[0] as u32) < 128 && cs[1] == ':' {
        let mut r = String::new();
        push_char(&mut r, '\\');
        push_char(&mut r, '\\');
        push_char(&mut r, '.');
        push_char(&mut r, '\\');
        push_char(&mut r, char_to_upper(cs[0]));
        push_char(&mut r, ':');
        assert(r@ =~= seq!['\\', '\\', '.', '\\', upper(cs@[0]), ':']);
        Some(r)
    } else {
        None
    }
}

/// The kind of target a source is, with the basis of the decision: an
/// explicit request, else phone features, else the platform's volume
/// classification (`platform`), else an image extension, else other.
pub open spec fn resolved_kind(
    requested: TargetKind,
    path: Seq<char>,
    is_dir: bool,
    entries: Seq<Seq<char>>,
    platform: Option<(TargetKind, Seq<char>)>,
    source_type: Seq<char>,
) -> (TargetKind, Seq<char>) {
    if requested != TargetKind::Auto {
        (requested, "命令行参数已显式指定目标类型"@)
    } else if phone_source(path, is_dir, entries) {
        (TargetKind::Phone, "命中手机备份/目录特征（如 DCIM、MobileSync、Android）"@)
    } else if platform is Some {
        platform.unwrap()
    } else if source_type == "image-file"@ && (match extension_of(path) {
        Some(e) => image_ext(e),
        None => false,
    }) {
        (TargetKind::PcDisk, "检测到镜像文件扩展名（img/raw/dd/e01/vhd/vhdx）"@)
    } else if source_type == "mounted-path"@ {
        (TargetKind::Other, "目录来源未匹配已知盘符规则，按其他设备处理"@)
    } else {
        (TargetKind::Other, "未识别设备类型，按其他设备处理"@)
    }
}

pub fn resolve_target_kind(
    requested: TargetKind,
    path: &str,
    is_dir: bool,
    entry_names: &Vec<String>,
    platform: Option<(TargetKind, String)>,
    source_type: &str,
) -> (r: (TargetKind, String))
    ensures
        (r.0, r.1@) == resolved_kind(
            requested,
            path@,
            is_dir,
            strs(entry_names@),
            match platform {
                Some((k, h)) => Some((k, h@)),
                None => None,
            },
            source_type@,
        ),
{
    if requested != TargetKind::Auto {
        return (requested, owned("命令行参数已显式指定目标类型"));
    }
    if looks_like_phone_source(path, is_dir, entry_names) {
        return (TargetKind::Phone, owned("命中手机备份/目录特征（如 DCIM、MobileSync、Android）"));
    }
    match platform {
        Some((k, h)) => {
            return (k, h);
        },
        None => {},
    }
    let st = str_chars(source_type);
    if chars_are(&st, "image-file") && is_image_like_extension(path) {
        return (TargetKind::PcDisk, owned("检测到镜像文件扩展名（img/raw/dd/e01/vhd/vhdx）"));
    }
    if chars_are(&st, "mounted-path") {
        return (TargetKind::Other, owned("目录来源未匹配已知盘符规则，按其他设备处理"));
    }
    (TargetKind::Other, owned("未识别设备类型，按其他设备处理"))
}

/// What became of the raw volume behind a directory source.
#[derive(Debug)]
pub enum RawVolume {
    /// The source is not a drive root (or the platform has no raw volumes).
    NotApplicable,
    /// The drive's raw volume at this path could be opened.
    Opened(String),
    /// The source is a drive root, but its raw volume could not be opened.
    Denied,
}

/// `mounted-path` for a directory, `image-file` otherwise.
pub open spec fn source_type_of(is_dir: bool) -> Seq<char> {
    if is_dir { "mounted-path"@ } else { "image-file"@ }
}

/// The notes of a device snapshot.
pub open spec fn snapshot_notes_of(
    is_dir: bool,
    raw: RawVolume,
    requested: TargetKind,
    kind: TargetKind,
    hint: Seq<char>,
) -> Seq<Seq<char>> {
    let a = seq!["源数据将以只读流程处理。"@];
    let b = if is_dir {
        let d = a.push("目录输入将按挂载卷或逻辑备份处理。"@);
        match raw {
            RawVolume::Opened(p) => d.push("检测到盘符根目录，已启用底层卷扫描路径："@ + p@ + "。"@),
            RawVolume::Denied => d.push("检测到盘符根目录，但未获取到底层卷访问权限（请尝试以管理员身份运行）。"@),
            RawVolume::NotApplicable => d,
        }
    } else {
        a.push("文件输入将按原始镜像或设备导出转储处理。"@)
    };
    let c = b.push(
        if requested == TargetKind::Auto {
            "自动识别设备类型："@ + target_kind_text(kind) + "。"@
        } else {
            "按参数指定设备类型："@ + target_kind_text(kind) + "。"@
        },
    );
    let d = c.push("识别依据："@ + hint);
    if kind == TargetKind::Phone { d.push("手机恢复通常需要 ADB/iTunes 备份或 Root 后物理转储。"@) } else { d }
}

/// How many entries of a source directory are looked at for phone-backup markers.
pub const PHONE_ENTRY_SAMPLE: usize = 64;

/// The source type of a directory or of a file source.
pub fn source_type(is_dir: bool) -> (r: &'static str)
    ensures
        r@ == source_type_of(is_dir),
{
    if is_dir { "mounted-path" } else { "image-file" }
}

/// The local device inspector.
#[derive(Debug, Default)]
pub struct LocalDeviceInspector;

impl LocalDeviceInspector {
    /// The snapshot of a source at `source` (its resolved path) of `size`
    /// bytes, once its kind was resolved.
    pub fn snapshot(
        &self,
        source: String,
        is_dir: bool,
        size: u64,
        requested: TargetKind,
        resolved: (TargetKind, String),
        raw: RawVolume,
    ) -> (r: DeviceSnapshot)
        ensures
            r.source@ == source@,
            r.source_type@ == source_type_of(is_dir),
            r.size_bytes == size,
            r.detected_target_kind == Some(resolved.0),
            r.device_hint matches Some(h) && h@ == resolved.1@,
            r.low_level_source_path == (match raw {
                RawVolume::Opened(p) => if is_dir { Some(p) } else { None },
                _ => None::<String>,
            }),
            strs(r.notes@) == snapshot_notes_of(is_dir, raw, requested, resolved.0, resolved.1@),
    {
        let (kind, hint) = resolved;
        let mut notes: Vec<String> = Vec::new();
        push_note(&mut notes, owned("源数据将以只读流程处理。"));
        let mut low_level: Option<String> = None;
        let ghost raw0 = raw;
        let source_type = if is_dir {
            push_note(&mut notes, owned("目录输入将按挂载卷或逻辑备份处理。"));
            match raw {
                RawVolume::Opened(p) => {
                    let mut n = owned("检测到盘符根目录，已启用底层卷扫描路径：");
                    push_str(&mut n, p.as_str());
                    push_str(&mut n, "。");
                    push_note(&mut notes, n);
                    low_level = Some(p);
                },
                RawVolume::Denied => {
                    push_note(&mut notes, owned("检测到盘符根目录，但未获取到底层卷访问权限（请尝试以管理员身份运行）。"));
                },
                RawVolume::NotApplicable => {},
            }
            owned("mounted-path")
        } else {
            push_note(&mut notes, owned("文件输入将按原始镜像或设备导出转储处理。"));
            owned("image-file")
        };
        let mut k = if requested == TargetKind::Auto { owned("自动识别设备类型：") } else { owned("按参数指定设备类型：") };
        push_str(&mut k, target_kind_label(kind));
        push_str(&mut k, "。");
        push_note(&mut notes, k);
        let mut h = owned("识别依据：");
        push_str(&mut h, hint.as_str());
        push_note(&mut notes, h);
        if kind == TargetKind::Phone {
            push_note(&mut notes, owned("手机恢复通常需要 ADB/iTunes 备份或 Root 后物理转储。"));
        }
        assert(strs(notes@) =~= snapshot_notes_of(is_dir, raw0, requested, kind, hint@));
        DeviceSnapshot {
            source,
            source_type,
            size_bytes: size,
            detected_target_kind: Some(kind),
            device_hint: Some(hint),
            low_level_source_path: low_level,
            notes,
        }
    }
}

} // verus!
