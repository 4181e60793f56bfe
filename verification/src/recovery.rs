//! Recovery rules: output naming, destination safety, how each candidate is
//! recovered, the segment and aligned-read plans, and the session summary.
//! Copying bytes and touching the file system happen outside the library.
use vstd::prelude::*;
use crate::model::{item_views, opt_str_view, ActionModel, ItemModel, RecoverableItem, RecoveryAction, SourceSegment};
use crate::error::RecoveryError;
use crate::partition::raw_device_prefix;
use crate::text::{
    char_is_control, char_to_lower, char_to_upper, first_non_ws, is_ctrl, lemma_trim_end_prefix,
    lemma_trim_start_suffix, lower, lower_seq, owned,
    push_char, push_dec, push_note, push_str, str_chars, string_from_chars, stripped, strs, trim,
    trim_end_by, trim_end_len, trim_start, upper_seq, dec, starts_with,
};

verus! {

/// `value` rounded up to a multiple of `alignment`; `None` for a zero
/// alignment or when the result does not fit.
pub open spec fn align_up(value: nat, alignment: nat) -> Option<nat> {
    if alignment == 0 {
        None
    } else if value % alignment == 0 {
        Some(value)
    } else if value + (alignment - value % alignment) > usize::MAX {
        None
    } else {
        Some((value + (alignment - value % alignment)) as nat)
    }
}

pub fn align_up_usize(value: usize, alignment: usize) -> (r: Option<usize>)
    ensures
        match align_up(value as nat, alignment as nat) {
            Some(v) => r == Some(v as usize),
            None => r is None,
        },
{
    if alignment == 0 {
        return None;
    }
    let remainder = value % alignment;
    if remainder == 0 {
        Some(value)
    } else {
        value.checked_add(alignment - remainder)
    }
}

/// Rounding up gives the least multiple of the alignment that is not below the value.
pub proof fn law_align_up(value: nat, alignment: nat)
    requires
        alignment > 0,
    ensures
        align_up(value, alignment) matches Some(v) ==> {
            &&& v % alignment == 0
            &&& value <= v < value + alignment
        },
{
    if value % alignment != 0 {
        let a = alignment as int;
        let x = value as int;
        let q = x / a;
        vstd::arithmetic::div_mod::lemma_fundamental_div_mod(x, a);
        let v: int = x + (a - x % a);
        assert(v == (q + 1) * a) by (nonlinear_arith)
            requires
                x == a * q + x % a,
                v == x + (a - x % a),
        ;
        vstd::arithmetic::div_mod::lemma_mod_multiples_basic(q + 1, a);
    }
}

/// The drive letter, lower-cased, of a Windows device path `\\.\X:` or `\\?\X:`.
pub open spec fn device_letter(s: Seq<char>) -> Option<char> {
    if raw_device_prefix(s) { Some(lower(s[4])) } else { None }
}

pub fn drive_letter_from_device_path(value: &str) -> (r: Option<char>)
    ensures
        r == device_letter(value@),
{
    let cs = str_chars(value);
    if crate::partition::is_windows_raw_device_path(value) {
        Some(char_to_lower(cs[4]))
    } else {
        None
    }
}

/// The volume a path lies on: the drive of a device path, else the path's
/// prefix component lower-cased (`prefix`, as the platform's path parser
/// gives it), else none.
pub open spec fn volume_key(path: Seq<char>, prefix: Option<Seq<char>>) -> Option<Seq<char>> {
    match device_letter(path) {
        Some(l) => Some(seq![l, ':']),
        None => match prefix {
            Some(p) => Some(lower_seq(p)),
            None => None,
        },
    }
}

fn lower_string(s: &str) -> (r: String)
    ensures
        r@ == lower_seq(s@),
{
    let cs = str_chars(s);
    let lc = crate::text::lower_chars(&cs);
    string_from_chars(lc.as_slice())
}

/// The key that decides whether two paths share a Windows volume.
pub fn windows_volume_key(path: &str, prefix: Option<&str>) -> (r: Option<String>)
    ensures
        match volume_key(path@, match prefix { Some(p) => Some(p@), None => None }) {
            Some(k) => r matches Some(s) && s@ == k,
            None => r is None,
        },
{
    match drive_letter_from_device_path(path) {
        Some(l) => {
            let mut s = String::new();
            push_char(&mut s, l);
            push_char(&mut s, ':');
            assert(s@ =~= seq![l, ':']);
            Some(s)
        },
        None => match prefix {
            Some(p) => Some(lower_string(p)),
            None => None,
        },
    }
}

/// The reserved Windows device names.
pub open spec fn reserved_names() -> Seq<Seq<char>> {
    seq![
        "CON"@, "PRN"@, "AUX"@, "NUL"@, "COM1"@, "COM2"@, "COM3"@, "COM4"@, "COM5"@, "COM6"@,
        "COM7"@, "COM8"@, "COM9"@, "LPT1"@, "LPT2"@, "LPT3"@, "LPT4"@, "LPT5"@, "LPT6"@, "LPT7"@,
        "LPT8"@, "LPT9"@,
    ]
}

/// A name that, upper-cased (ASCII), is a reserved Windows device name.
pub open spec fn is_reserved(s: Seq<char>) -> bool {
    reserved_names().contains(upper_seq(s))
}

fn reserved_list() -> (r: Vec<&'static str>)
    ensures
        r@.len() == reserved_names().len(),
        forall|i: int| 0 <= i < r@.len() ==> (#[trigger] r@[i])@ == reserved_names()[i],
{
    let r = vec![
        "CON", "PRN", "AUX", "NUL", "COM1", "COM2", "COM3", "COM4", "COM5", "COM6", "COM7", "COM8",
        "COM9", "LPT1", "LPT2", "LPT3", "LPT4", "LPT5", "LPT6", "LPT7", "LPT8", "LPT9",
    ];
    assert(r@.len() == 22);
    r
}

fn chars_equal(a: &[char], b: &[char]) -> (r: bool)
    ensures
        r == (a@ == b@),
{
    if a.len() != b.len() {
        return false;
    }
    let mut i: usize = 0;
    while i < a.len()
        invariant
            a.len() == b.len(),
            i <= a.len(),
            forall|j: int| 0 <= j < i ==> a@[j] == b@[j],
        decreases a.len() - i,
    {
        if a[i] != b[i] {
            return false;
        }
        i += 1;
    }
    assert(a@ =~= b@);
    true
}

fn upper_chars(cs: &[char]) -> (r: Vec<char>)
    ensures
        r@ == upper_seq(cs@),
{
    let mut out: Vec<char> = Vec::new();
    let mut i: usize = 0;
    while i < cs.len()
        invariant
            i <= cs.len(),
            out@ == upper_seq(cs@.subrange(0, i as int)),
        decreases cs.len() - i,
    {
        out.push(char_to_upper(cs[i]));
        i += 1;
        assert(out@ =~= upper_seq(cs@.subrange(0, i as int)));
    }
    assert(cs@.subrange(0, cs@.len() as int) =~= cs@);
    out
}

fn is_reserved_chars(cs: &[char]) -> (r: bool)
    ensures
        r == is_reserved(cs@),
{
    let up = upper_chars(cs);
    let names = reserved_list();
    let mut i: usize = 0;
    while i < names.len()
        invariant
            i <= names@.len(),
            names@.len() == reserved_names().len(),
            forall|j: int| 0 <= j < names@.len() ==> (#[trigger] names@[j])@ == reserved_names()[j],
            up@ == upper_seq(cs@),
            forall|j: int| 0 <= j < i ==> reserved_names()[j] != up@,
        decreases names.len() - i,
    {
        let nc = str_chars(names[i]);
        if chars_equal(up.as_slice(), nc.as_slice()) {
            assert(reserved_names()[i as int] == up@);
            return true;
        }
        i += 1;
    }
    false
}

/// Whether a name is a reserved Windows device name (ASCII case ignored).
pub fn is_windows_reserved_name(name: &str) -> (r: bool)
    ensures
        r == is_reserved(name@),
{
    let cs = str_chars(name);
    is_reserved_chars(cs.as_slice())
}

/// Characters Windows forbids in file names.
pub open spec fn forbidden(c: char) -> bool {
    c == '<' || c == '>' || c == ':' || c == '"' || c == '/' || c == '\\' || c == '|' || c == '?' || c
        == '*'
}

pub open spec fn clean_char(c: char) -> char {
    if is_ctrl(c) || forbidden(c) { '_' } else { c }
}

/// A file name made safe: control and forbidden characters become `_`,
/// surrounding white space and trailing spaces and dots go, an empty result
/// becomes `item.bin` and a reserved device name gets a `_` in front.
pub open spec fn sanitized(name: Seq<char>) -> Seq<char> {
    let n = trim_end_by(trim(name.map_values(|c: char| clean_char(c))), true);
    if n.len() == 0 {
        "item.bin"@
    } else if is_reserved(n) {
        "_"@ + n
    } else {
        n
    }
}

pub fn sanitize_name(name: &str) -> (r: String)
    ensures
        r@ == sanitized(name@),
{
    let cs = str_chars(name);
    let mut mapped: Vec<char> = Vec::new();
    let mut i: usize = 0;
    while i < cs.len()
        invariant
            i <= cs.len(),
            mapped@ == cs@.subrange(0, i as int).map_values(|c: char| clean_char(c)),
        decreases cs.len() - i,
    {
        let c = cs[i];
        let f = c == '<' || c == '>' || c == ':' || c == '"' || c == '/' || c == '\\' || c == '|'
            || c == '?' || c == '*';
        mapped.push(if char_is_control(c) || f { '_' } else { c });
        i += 1;
        assert(mapped@ =~= cs@.subrange(0, i as int).map_values(|c: char| clean_char(c)));
    }
    assert(cs@.subrange(0, cs@.len() as int) =~= cs@);
    let ghost m = mapped@;
    let a = first_non_ws(&mapped);
    let b = trim_end_len(&mapped, a, mapped.len(), false);
    let e = trim_end_len(&mapped, a, b, true);
    proof {
        assert(trim(m) == m.subrange(a as int, b as int));
        assert(m.subrange(a as int, b as int) =~= mapped@.subrange(a as int, b as int));
    }
    let mut n: Vec<char> = Vec::new();
    let mut k = a;
    while k < e
        invariant
            a <= k <= e <= mapped@.len(),
            n@ == mapped@.subrange(a as int, k as int),
        decreases e - k,
    {
        n.push(mapped[k]);
        k += 1;
        assert(n@ =~= mapped@.subrange(a as int, k as int));
    }
    assert(n@ == trim_end_by(trim(m), true));
    if n.len() == 0 {
        return owned("item.bin");
    }
    if is_reserved_chars(n.as_slice()) {
        let mut s = owned("_");
        let t = string_from_chars(n.as_slice());
        push_str(&mut s, t.as_str());
        s
    } else {
        string_from_chars(n.as_slice())
    }
}

/// Every reserved name starts with one of `C`, `P`, `A`, `N`, `L`.
proof fn lemma_reserved_first_char(x: Seq<char>)
    requires
        reserved_names().contains(x),
    ensures
        x.len() >= 3,
        x[0] == 'C' || x[0] == 'P' || x[0] == 'A' || x[0] == 'N' || x[0] == 'L',
        x.len() <= 4,
{
    reveal_strlit("CON");
    reveal_strlit("PRN");
    reveal_strlit("AUX");
    reveal_strlit("NUL");
    reveal_strlit("COM1");
    reveal_strlit("COM2");
    reveal_strlit("COM3");
    reveal_strlit("COM4");
    reveal_strlit("COM5");
    reveal_strlit("COM6");
    reveal_strlit("COM7");
    reveal_strlit("COM8");
    reveal_strlit("COM9");
    reveal_strlit("LPT1");
    reveal_strlit("LPT2");
    reveal_strlit("LPT3");
    reveal_strlit("LPT4");
    reveal_strlit("LPT5");
    reveal_strlit("LPT6");
    reveal_strlit("LPT7");
    reveal_strlit("LPT8");
    reveal_strlit("LPT9");
    let i = choose|i: int| 0 <= i < reserved_names().len() && reserved_names()[i] == x;
}

/// A sanitized name is never empty, holds no control or forbidden
/// character, does not end with a space or a dot, and is no reserved
/// Windows device name.
pub proof fn law_sanitized_name_is_safe(name: Seq<char>)
    ensures
        sanitized(name).len() > 0,
        forall|i: int|
            0 <= i < sanitized(name).len() ==> !is_ctrl(#[trigger] sanitized(name)[i]) && !forbidden(
                sanitized(name)[i],
            ),
        !stripped(sanitized(name).last(), true),
        !is_reserved(sanitized(name)),
{
    let m = name.map_values(|c: char| clean_char(c));
    let t0 = trim_start(m);
    lemma_trim_start_suffix(m);
    let t1 = trim_end_by(t0, false);
    lemma_trim_end_prefix(t0, false);
    let n = trim_end_by(t1, true);
    lemma_trim_end_prefix(t1, true);
    assert(trim(m) == t1);
    assert forall|i: int| 0 <= i < n.len() implies !is_ctrl(#[trigger] n[i]) && !forbidden(n[i]) by {
        assert(n[i] == t1[i]);
        assert(t1[i] == t0[i]);
        assert(t0[i] == m[m.len() - t0.len() + i]);
    }
    let r = sanitized(name);
    if n.len() == 0 {
        reveal_strlit("item.bin");
        assert(r =~= "item.bin"@);
        if is_reserved(r) {
            lemma_reserved_first_char(upper_seq(r));
        }
    } else if is_reserved(n) {
        reveal_strlit("_");
        assert(r =~= "_"@ + n);
        assert(r[0] == '_');
        assert forall|i: int| 0 <= i < r.len() implies !is_ctrl(#[trigger] r[i]) && !forbidden(r[i]) by {
            if i > 0 {
                assert(r[i] == n[i - 1]);
            }
        }
        assert(r.last() == n.last());
        if is_reserved(r) {
            lemma_reserved_first_char(upper_seq(r));
            assert(upper_seq(r)[0] == '_');
        }
    } else {
        assert(r == n);
    }
}

/// The characters `cs[lo..hi]` as a string.
fn chars_range(cs: &Vec<char>, lo: usize, hi: usize) -> (r: String)
    requires
        lo <= hi <= cs@.len(),
    ensures
        r@ == cs@.subrange(lo as int, hi as int),
{
    let mut out = String::new();
    let mut i = lo;
    while i < hi
        invariant
            lo <= i <= hi <= cs@.len(),
            out@ == cs@.subrange(lo as int, i as int),
        decreases hi - i,
    {
        push_char(&mut out, cs[i]);
        i += 1;
        assert(out@ =~= cs@.subrange(lo as int, i as int));
    }
    out
}

/// Index of the last `.` in `s`.
pub open spec fn last_dot(s: Seq<char>) -> Option<int>
    decreases s.len(),
{
    if s.len() == 0 {
        None
    } else if s.last() == '.' {
        Some(s.len() - 1)
    } else {
        last_dot(s.drop_last())
    }
}

/// Stem and extension of a file name, as `Path::file_stem` and
/// `Path::extension` give them (a missing stem reads `item`).
pub open spec fn split_name(name: Seq<char>) -> (Seq<char>, Option<Seq<char>>) {
    if name.len() == 0 || name == seq!['.'] || name == seq!['.', '.'] {
        ("item"@, None)
    } else {
        match last_dot(name) {
            None => (name, None),
            Some(k) => if k == 0 {
                (name, None)
            } else {
                (name.subrange(0, k), Some(name.subrange(k + 1, name.len() as int)))
            },
        }
    }
}

/// A single path component: no `/` separator.
pub open spec fn plain_file_name(name: Seq<char>) -> bool {
    forall|i: int| 0 <= i < name.len() ==> name[i] != '/'
}

/// Splits a file name into its stem and extension.
pub fn split_file_name(name: &str) -> (r: (String, Option<String>))
    requires
        plain_file_name(name@),
    ensures
        r.0@ == split_name(name@).0,
        opt_str_view(r.1) == split_name(name@).1,
{
    let cs = str_chars(name);
    let n = cs.len();
    let is_dot = n == 1 && cs[0] == '.';
    let is_dotdot = n == 2 && cs[0] == '.' && cs[1] == '.';
    if n == 0 || is_dot || is_dotdot {
        proof {
            if n == 1 && cs@[0] == '.' {
                assert(cs@ =~= seq!['.']);
            }
            if n == 2 && cs@[0] == '.' && cs@[1] == '.' {
                assert(cs@ =~= seq!['.', '.']);
            }
        }
        return (owned("item"), None);
    }
    proof {
        assert(cs@ != seq!['.']) by {
            if cs@ == seq!['.'] {
                assert(cs@[0] == '.');
            }
        }
        assert(cs@ != seq!['.', '.']) by {
            if cs@ == seq!['.', '.'] {
                assert(cs@[0] == '.' && cs@[1] == '.');
            }
        }
    }
    let mut j = n;
    assert(cs@.subrange(0, n as int) =~= cs@);
    while j > 0 && cs[j - 1] != '.'
        invariant
            j <= n == cs@.len(),
            last_dot(cs@) == last_dot(cs@.subrange(0, j as int)),
        decreases j,
    {
        assert(cs@.subrange(0, j as int).drop_last() =~= cs@.subrange(0, j - 1));
        j -= 1;
    }
    proof {
        assert(cs@.subrange(0, n as int) =~= cs@);
    }
    if j <= 1 {
        proof {
            if j == 1 {
                assert(last_dot(cs@.subrange(0, 1)) == Some(0int));
            }
        }
        return (owned(name), None);
    }
    let k = j - 1;
    assert(last_dot(cs@) == Some(k as int));
    let stem = chars_range(&cs, 0, k);
    let ext = chars_range(&cs, k + 1, n);
    (stem, Some(ext))
}

/// The output name tried at attempt `counter` (from 0): the preferred name
/// first, then the stem with `_1`, `_2`, … before the extension.
pub open spec fn numbered_name(preferred: Seq<char>, counter: nat) -> Seq<char> {
    if counter == 0 {
        preferred
    } else {
        let (stem, ext) = split_name(preferred);
        match ext {
            Some(e) => stem + "_"@ + dec(counter) + "."@ + e,
            None => stem + "_"@ + dec(counter),
        }
    }
}

proof fn lemma_last_dot_in_range(s: Seq<char>)
    ensures
        last_dot(s) matches Some(k) ==> 0 <= k < s.len() && s[k] == '.',
    decreases s.len(),
{
    if s.len() > 0 && s.last() != '.' {
        lemma_last_dot_in_range(s.drop_last());
    }
}

/// A numbered name is longer than the name it numbers, so a numbered
/// attempt never repeats the preferred name.
pub proof fn law_numbered_name_differs(preferred: Seq<char>, counter: nat)
    requires
        counter >= 1,
    ensures
        numbered_name(preferred, counter).len() > preferred.len(),
        numbered_name(preferred, counter) != preferred,
{
    lemma_last_dot_in_range(preferred);
    let (stem, ext) = split_name(preferred);
    if preferred.len() == 0 || preferred == seq!['.'] || preferred == seq!['.', '.'] {
        assert(preferred.len() <= 2);
        assert(("item"@).len() == 4) by {
            reveal_strlit("item");
        }
    }
    assert(("_"@).len() == 1) by {
        reveal_strlit("_");
    }
    assert(("."@).len() == 1) by {
        reveal_strlit(".");
    }
}

/// The name to try at attempt `counter` when `preferred` is taken.
pub fn candidate_name(preferred: &str, counter: u32) -> (r: String)
    requires
        plain_file_name(preferred@),
    ensures
        r@ == numbered_name(preferred@, counter as nat),
{
    if counter == 0 {
        return owned(preferred);
    }
    let (stem, ext) = split_file_name(preferred);
    let mut r = stem;
    push_str(&mut r, "_");
    push_dec(&mut r, counter as u64);
    match ext {
        Some(e) => {
            push_str(&mut r, ".");
            push_str(&mut r, e.as_str());
        },
        None => {},
    }
    r
}

/// The output name tried at attempt `counter` for `item`: the preferred
/// name first, then numbered ones.
pub fn output_name_at(item: &RecoverableItem, keep_original_name: bool, counter: u32) -> (r: String)
    ensures
        r@ == numbered_name(preferred_name(item.id@, item.suggested_name@, keep_original_name), counter as nat),
{
    let preferred = preferred_output_name(item, keep_original_name);
    candidate_name(preferred.as_str(), counter)
}

/// The attempt after attempt `counter` when its name is `taken`: none once a
/// free name was found, else the next counter (saturating at `u32::MAX`).
pub fn next_name_attempt(counter: u32, taken: bool) -> (r: Option<u32>)
    ensures
        !taken ==> r is None,
        taken ==> r == Some(if counter == u32::MAX { u32::MAX } else { (counter + 1) as u32 }),
{
    if !taken {
        None
    } else if counter == u32::MAX {
        Some(u32::MAX)
    } else {
        Some(counter + 1)
    }
}

/// The preferred output name: the sanitized suggested name, prefixed with
/// the sanitized item id and `_` unless original names are kept.
pub open spec fn preferred_name(id: Seq<char>, suggested: Seq<char>, keep_original_name: bool) -> Seq<char> {
    if keep_original_name {
        sanitized(suggested)
    } else {
        sanitized(id) + "_"@ + sanitized(suggested)
    }
}

pub fn preferred_output_name(item: &RecoverableItem, keep_original_name: bool) -> (r: String)
    ensures
        r@ == preferred_name(item.id@, item.suggested_name@, keep_original_name),
        plain_file_name(r@),
{
    let clean = sanitize_name(item.suggested_name.as_str());
    proof {
        law_sanitized_name_is_safe(item.suggested_name@);
        law_sanitized_name_is_safe(item.id@);
    }
    if keep_original_name {
        clean
    } else {
        let mut r = sanitize_name(item.id.as_str());
        push_str(&mut r, "_");
        push_str(&mut r, clean.as_str());
        proof {
            reveal_strlit("_");
            let a = sanitized(item.id@);
            let b = sanitized(item.suggested_name@);
            assert(r@ =~= a + "_"@ + b);
            assert forall|i: int| 0 <= i < r@.len() implies r@[i] != '/' by {
                if i < a.len() {
                    assert(r@[i] == a[i]);
                } else if i > a.len() {
                    assert(r@[i] == b[i - a.len() - 1]);
                }
            }
        }
        r
    }
}

/// How a candidate is recovered.
#[derive(Debug, Clone, Copy, PartialEq, Eq, Structural)]
pub enum RecoveryRoute {
    /// Skipped on request: a signature-carved candidate.
    SkipCarved,
    /// Assembled from its source segments.
    Segments,
    /// An NTFS entry with metadata only.
    NtfsMetadataOnly,
    /// An ext4 entry without data segments.
    Ext4WithoutSegments,
    /// Copied from its logical path.
    Logical,
    /// Extracted from the source at an offset.
    Carved { offset: u64, size: u64 },
    /// Nothing locates its data.
    NoCoordinates,
}

/// The route of a candidate, checked in this order: a skipped carved
/// candidate, segments, NTFS metadata only, ext4 without segments, a logical
/// path, an offset with a size.
pub open spec fn route_of(item: ItemModel, skip_carved: bool) -> RecoveryRoute {
    if skip_carved && item.category == "signature-carved"@ {
        RecoveryRoute::SkipCarved
    } else if item.source_segments.len() > 0 {
        RecoveryRoute::Segments
    } else if starts_with(item.category, "ntfs-mft-deleted-"@) {
        RecoveryRoute::NtfsMetadataOnly
    } else if starts_with(item.category, "ext4-deleted-"@) {
        RecoveryRoute::Ext4WithoutSegments
    } else if item.source_path is Some {
        RecoveryRoute::Logical
    } else if item.source_offset is Some && item.size_bytes is Some {
        RecoveryRoute::Carved { offset: item.source_offset.unwrap(), size: item.size_bytes.unwrap() }
    } else {
        RecoveryRoute::NoCoordinates
    }
}

fn str_starts_with(s: &str, p: &str) -> (r: bool)
    ensures
        r == starts_with(s@, p@),
{
    let sc = str_chars(s);
    let pc = str_chars(p);
    if pc.len() > sc.len() {
        return false;
    }
    let mut i: usize = 0;
    while i < pc.len()
        invariant
            pc.len() <= sc.len(),
            sc@ == s@,
            pc@ == p@,
            i <= pc.len(),
            forall|j: int| 0 <= j < i ==> sc@[j] == pc@[j],
        decreases pc.len() - i,
    {
        if sc[i] != pc[i] {
            assert(s@.subrange(0, p@.len() as int)[i as int] == sc@[i as int]);
            assert(s@.subrange(0, p@.len() as int) != p@);
            return false;
        }
        i += 1;
    }
    assert(sc@.subrange(0, pc@.len() as int) =~= pc@);
    true
}

pub fn recovery_route(item: &RecoverableItem, skip_carved: bool) -> (r: RecoveryRoute)
    ensures
        r == route_of(item@, skip_carved),
{
    if skip_carved && item.category == owned("signature-carved") {
        return RecoveryRoute::SkipCarved;
    }
    if item.source_segments.len() > 0 {
        return RecoveryRoute::Segments;
    }
    if str_starts_with(item.category.as_str(), "ntfs-mft-deleted-") {
        return RecoveryRoute::NtfsMetadataOnly;
    }
    if str_starts_with(item.category.as_str(), "ext4-deleted-") {
        return RecoveryRoute::Ext4WithoutSegments;
    }
    if item.source_path.is_some() {
        return RecoveryRoute::Logical;
    }
    match (item.source_offset, item.size_bytes) {
        (Some(offset), Some(size)) => RecoveryRoute::Carved { offset, size },
        _ => RecoveryRoute::NoCoordinates,
    }
}

pub open spec fn action(id: Seq<char>, status: Seq<char>, note: Seq<char>, output: Option<Seq<char>>, bytes: Option<u64>) -> ActionModel {
    ActionModel { item_id: id, status, note, output_path: output, bytes_written: bytes }
}

/// The action for a route that recovers nothing.
pub open spec fn skip_action_of(item: ItemModel, route: RecoveryRoute) -> ActionModel {
    let note = match route {
        RecoveryRoute::SkipCarved => "按参数要求跳过签名雕刻候选项。"@,
        RecoveryRoute::NtfsMetadataOnly => "该 NTFS 条目仅有元数据，当前版本无法恢复数据段。扫描详情："@ + item.note,
        RecoveryRoute::Ext4WithoutSegments => "该 ext4 条目缺少可恢复数据段。扫描详情："@ + item.note,
        _ => "缺少恢复坐标（path/offset/size）。"@,
    };
    action(item.id, "跳过"@, note, None, None)
}

/// The routes that recover nothing.
pub open spec fn is_skip_route(route: RecoveryRoute) -> bool {
    route is SkipCarved || route is NtfsMetadataOnly || route is Ext4WithoutSegments || route is NoCoordinates
}

pub fn skip_action(item: &RecoverableItem, route: RecoveryRoute) -> (r: RecoveryAction)
    requires
        is_skip_route(route),
    ensures
        r@ == skip_action_of(item@, route),
{
    let note = match route {
        RecoveryRoute::SkipCarved => owned("按参数要求跳过签名雕刻候选项。"),
        RecoveryRoute::NtfsMetadataOnly => {
            let mut n = owned("该 NTFS 条目仅有元数据，当前版本无法恢复数据段。扫描详情：");
            push_str(&mut n, item.note.as_str());
            n
        },
        RecoveryRoute::Ext4WithoutSegments => {
            let mut n = owned("该 ext4 条目缺少可恢复数据段。扫描详情：");
            push_str(&mut n, item.note.as_str());
            n
        },
        _ => owned("缺少恢复坐标（path/offset/size）。"),
    };
    RecoveryAction { item_id: item.id.clone(), status: owned("跳过"), note, output_path: None, bytes_written: None }
}

/// The action of a dry run: planned, nothing extracted.
pub open spec fn planned_action_of(item: ItemModel) -> ActionModel {
    action(item.id, "计划"@, "预演模式：不执行实际提取。"@, None, item.size_bytes)
}

pub fn planned_action(item: &RecoverableItem) -> (r: RecoveryAction)
    ensures
        r@ == planned_action_of(item@),
{
    RecoveryAction {
        item_id: item.id.clone(),
        status: owned("计划"),
        note: owned("预演模式：不执行实际提取。"),
        output_path: None,
        bytes_written: item.size_bytes,
    }
}

/// The actions of a dry run over `findings`: one planned action per finding, in order.
pub fn planned_actions(findings: &Vec<RecoverableItem>) -> (r: Vec<RecoveryAction>)
    ensures
        r@.len() == findings@.len(),
        forall|i: int| 0 <= i < findings@.len() ==> (#[trigger] r@[i])@ == planned_action_of(findings@[i]@),
{
    let mut out: Vec<RecoveryAction> = Vec::new();
    let mut i: usize = 0;
    while i < findings.len()
        invariant
            i <= findings@.len(),
            out@.len() == i,
            forall|k: int| 0 <= k < i ==> (#[trigger] out@[k])@ == planned_action_of(findings@[k]@),
        decreases findings.len() - i,
    {
        out.push(planned_action(&findings[i]));
        i += 1;
    }
    out
}

pub open spec fn result_note(r: Result<u64, String>) -> Result<u64, Seq<char>> {
    match r {
        Ok(n) => Ok(n),
        Err(e) => Err(e@),
    }
}

/// The action after assembling segments into `target` gave `outcome` (bytes
/// written, or the error message).
pub open spec fn segment_action_of(id: Seq<char>, target: Seq<char>, outcome: Result<u64, Seq<char>>, preserve: bool) -> ActionModel {
    match outcome {
        Ok(n) => action(
            id,
            "成功"@,
            if preserve {
                "已按分段源区间完成恢复。该条目来自底层数据段，缺少可用原始时间戳。"@
            } else {
                "已按分段源区间完成恢复。"@
            },
            Some(target),
            Some(n),
        ),
        Err(e) => action(id, "失败"@, "分段提取失败："@ + e, Some(target), None),
    }
}

pub fn segment_action(item: &RecoverableItem, target: &str, outcome: Result<u64, String>, preserve_timestamps: bool) -> (r: RecoveryAction)
    ensures
        r@ == segment_action_of(item.id@, target@, result_note(outcome), preserve_timestamps),
{
    match outcome {
        Ok(n) => RecoveryAction {
            item_id: item.id.clone(),
            status: owned("成功"),
            note: if preserve_timestamps {
                owned("已按分段源区间完成恢复。该条目来自底层数据段，缺少可用原始时间戳。")
            } else {
                owned("已按分段源区间完成恢复。")
            },
            output_path: Some(owned(target)),
            bytes_written: Some(n),
        },
        Err(e) => {
            let mut note = owned("分段提取失败：");
            push_str(&mut note, e.as_str());
            RecoveryAction {
                item_id: item.id.clone(),
                status: owned("失败"),
                note,
                output_path: Some(owned(target)),
                bytes_written: None,
            }
        },
    }
}

/// The action for a logical file that no longer exists at `source`.
pub open spec fn logical_missing_action_of(id: Seq<char>, source: Seq<char>) -> ActionModel {
    action(id, "失败"@, "未找到源逻辑文件："@ + source, None, None)
}

pub fn logical_missing_action(item: &RecoverableItem, source: &str) -> (r: RecoveryAction)
    ensures
        r@ == logical_missing_action_of(item.id@, source@),
{
    let mut note = owned("未找到源逻辑文件：");
    push_str(&mut note, source);
    RecoveryAction { item_id: item.id.clone(), status: owned("失败"), note, output_path: None, bytes_written: None }
}

/// The action after copying a logical file to `target` gave `outcome`;
/// `sync_error` is the error of the timestamp sync when it failed (it is
/// attempted only when timestamps are preserved and the copy succeeded).
pub open spec fn logical_action_of(
    id: Seq<char>,
    target: Seq<char>,
    outcome: Result<u64, Seq<char>>,
    preserve: bool,
    sync_error: Option<Seq<char>>,
) -> ActionModel {
    match outcome {
        Ok(n) => action(
            id,
            "成功"@,
            if preserve {
                match sync_error {
                    None => "已从回收站/垃圾桶路径复制逻辑删除文件，并同步原始时间戳。"@,
                    Some(e) => "已从回收站/垃圾桶路径复制逻辑删除文件，但同步时间戳失败："@ + e,
                }
            } else {
                "已从回收站/垃圾桶路径复制逻辑删除文件。"@
            },
            Some(target),
            Some(n),
        ),
        Err(e) => action(id, "失败"@, "复制失败："@ + e, Some(target), None),
    }
}

pub fn logical_action(
    item: &RecoverableItem,
    target: &str,
    outcome: Result<u64, String>,
    preserve_timestamps: bool,
    sync_error: Option<String>,
) -> (r: RecoveryAction)
    ensures
        r@ == logical_action_of(item.id@, target@, result_note(outcome), preserve_timestamps, opt_str_view(sync_error)),
{
    match outcome {
        Ok(n) => {
            let note = if preserve_timestamps {
                match sync_error {
                    None => owned("已从回收站/垃圾桶路径复制逻辑删除文件，并同步原始时间戳。"),
                    Some(e) => {
                        let mut n = owned("已从回收站/垃圾桶路径复制逻辑删除文件，但同步时间戳失败：");
                        push_str(&mut n, e.as_str());
                        n
                    },
                }
            } else {
                owned("已从回收站/垃圾桶路径复制逻辑删除文件。")
            };
            RecoveryAction {
                item_id: item.id.clone(),
                status: owned("成功"),
                note,
                output_path: Some(owned(target)),
                bytes_written: Some(n),
            }
        },
        Err(e) => {
            let mut note = owned("复制失败：");
            push_str(&mut note, e.as_str());
            RecoveryAction {
                item_id: item.id.clone(),
                status: owned("失败"),
                note,
                output_path: Some(owned(target)),
                bytes_written: None,
            }
        },
    }
}

/// The action after extracting carved data at `offset` into `target` gave `outcome`.
pub open spec fn carved_action_of(id: Seq<char>, target: Seq<char>, offset: u64, outcome: Result<u64, Seq<char>>, preserve: bool) -> ActionModel {
    match outcome {
        Ok(n) => action(
            id,
            "成功"@,
            if preserve {
                "已从偏移 "@ + dec(offset as nat) + " 提取雕刻数据。该条目来自底层数据段，缺少可用原始时间戳。"@
            } else {
                "已从偏移 "@ + dec(offset as nat) + " 提取雕刻数据。"@
            },
            Some(target),
            Some(n),
        ),
        Err(e) => action(id, "失败"@, "雕刻提取失败："@ + e, Some(target), None),
    }
}

pub fn carved_action(item: &RecoverableItem, target: &str, offset: u64, outcome: Result<u64, String>, preserve_timestamps: bool) -> (r: RecoveryAction)
    ensures
        r@ == carved_action_of(item.id@, target@, offset, result_note(outcome), preserve_timestamps),
{
    match outcome {
        Ok(n) => {
            let mut note = owned("已从偏移 ");
            push_dec(&mut note, offset);
            if preserve_timestamps {
                push_str(&mut note, " 提取雕刻数据。该条目来自底层数据段，缺少可用原始时间戳。");
            } else {
                push_str(&mut note, " 提取雕刻数据。");
            }
            RecoveryAction {
                item_id: item.id.clone(),
                status: owned("成功"),
                note,
                output_path: Some(owned(target)),
                bytes_written: Some(n),
            }
        },
        Err(e) => {
            let mut note = owned("雕刻提取失败：");
            push_str(&mut note, e.as_str());
            RecoveryAction {
                item_id: item.id.clone(),
                status: owned("失败"),
                note,
                output_path: Some(owned(target)),
                bytes_written: None,
            }
        },
    }
}

/// Sum of the segment lengths.
pub open spec fn seg_total(segs: Seq<SourceSegment>) -> nat
    decreases segs.len(),
{
    if segs.len() == 0 { 0 } else { segs[0].length as nat + seg_total(segs.drop_first()) }
}

/// One write of an assembled file: zeros for a sparse piece, else bytes
/// copied from the source at `offset`.
#[derive(Debug, Clone, Copy, PartialEq, Eq, Structural)]
pub struct CopyPiece {
    pub offset: u64,
    pub length: u64,
    pub sparse: bool,
}

/// The pieces that write the first `remaining` bytes of the segments, in order.
pub open spec fn seg_pieces(segs: Seq<SourceSegment>, remaining: nat) -> Seq<CopyPiece>
    decreases segs.len(),
{
    if segs.len() == 0 || remaining == 0 {
        Seq::empty()
    } else {
        let take: nat = if (segs[0].length as nat) < remaining { segs[0].length as nat } else { remaining };
        seq![CopyPiece { offset: segs[0].offset, length: take as u64, sparse: segs[0].sparse }] + seg_pieces(
            segs.drop_first(),
            (remaining - take) as nat,
        )
    }
}

/// Sum of the piece lengths.
pub open spec fn piece_total(p: Seq<CopyPiece>) -> nat
    decreases p.len(),
{
    if p.len() == 0 { 0 } else { p[0].length as nat + piece_total(p.drop_first()) }
}

proof fn lemma_seg_total_skip(segs: Seq<SourceSegment>, i: int)
    requires
        0 <= i < segs.len(),
    ensures
        seg_total(segs.subrange(i, segs.len() as int)) == segs[i].length + seg_total(segs.subrange(i + 1, segs.len() as int)),
{
    assert(segs.subrange(i, segs.len() as int).drop_first() =~= segs.subrange(i + 1, segs.len() as int));
}

/// Plans how the segments of a candidate are written: the first `requested`
/// bytes (all of them when no size is requested), or an error when the
/// segment lengths overflow.
pub fn segment_plan(segments: &[SourceSegment], requested: Option<u64>) -> (r: Result<Vec<CopyPiece>, String>)
    ensures
        seg_total(segments@) > u64::MAX ==> (r matches Err(e) && e@ == "分段长度发生溢出"@),
        seg_total(segments@) <= u64::MAX ==> (r matches Ok(v) && v@ == seg_pieces(
            segments@,
            match requested {
                Some(q) => q as nat,
                None => seg_total(segments@),
            },
        )),
{
    let n = segments.len();
    let mut total: u64 = 0;
    let mut i: usize = 0;
    assert(segments@.subrange(0, n as int) =~= segments@);
    while i < n
        invariant
            i <= n == segments@.len(),
            total + seg_total(segments@.subrange(i as int, n as int)) == seg_total(segments@),
        decreases n - i,
    {
        proof {
            lemma_seg_total_skip(segments@, i as int);
        }
        total = match total.checked_add(segments[i].length) {
            Some(t) => t,
            None => {
                return Err(owned("分段长度发生溢出"));
            },
        };
        i += 1;
    }
    proof {
        assert(segments@.subrange(n as int, n as int).len() == 0);
    }
    let mut remaining: u64 = match requested {
        Some(q) => q,
        None => total,
    };
    let ghost target = seg_pieces(segments@, remaining as nat);
    let mut pieces: Vec<CopyPiece> = Vec::new();
    let mut k: usize = 0;
    assert(segments@.subrange(0, n as int) =~= segments@);
    while k < n && remaining > 0
        invariant
            k <= n == segments@.len(),
            pieces@ + seg_pieces(segments@.subrange(k as int, n as int), remaining as nat) == target,
        decreases n - k,
    {
        let seg = segments[k];
        let take = if seg.length < remaining { seg.length } else { remaining };
        proof {
            let rest = segments@.subrange(k as int, n as int);
            assert(rest.drop_first() =~= segments@.subrange(k + 1, n as int));
            assert(rest[0] == seg);
        }
        let ghost before = pieces@;
        pieces.push(CopyPiece { offset: seg.offset, length: take, sparse: seg.sparse });
        remaining = remaining - take;
        k += 1;
        proof {
            let piece = CopyPiece { offset: seg.offset, length: take, sparse: seg.sparse };
            assert(pieces@ =~= before.push(piece));
            assert(before + seg_pieces(segments@.subrange(k - 1, n as int), (remaining + take) as nat)
                =~= before + (seq![piece] + seg_pieces(segments@.subrange(k as int, n as int), remaining as nat)));
            assert(before.push(piece) + seg_pieces(segments@.subrange(k as int, n as int), remaining as nat)
                =~= before + (seq![piece] + seg_pieces(segments@.subrange(k as int, n as int), remaining as nat)));
        }
    }
    proof {
        if k == n {
            assert(segments@.subrange(n as int, n as int).len() == 0);
        }
        assert(pieces@ + Seq::<CopyPiece>::empty() =~= pieces@);
    }
    Ok(pieces)
}

/// The pieces write the smaller of the requested size and the segments' total.
pub proof fn law_segment_pieces_total(segs: Seq<SourceSegment>, remaining: nat)
    ensures
        piece_total(seg_pieces(segs, remaining)) == if seg_total(segs) < remaining { seg_total(segs) } else { remaining },
    decreases segs.len(),
{
    if segs.len() > 0 && remaining > 0 {
        let take: nat = if (segs[0].length as nat) < remaining { segs[0].length as nat } else { remaining };
        law_segment_pieces_total(segs.drop_first(), (remaining - take) as nat);
        let p = seg_pieces(segs, remaining);
        assert(p.drop_first() =~= seg_pieces(segs.drop_first(), (remaining - take) as nat));
    }
}

/// Whether some segment must be read from the source image.
pub open spec fn needs_source(segs: Seq<SourceSegment>) -> bool {
    exists|i: int| 0 <= i < segs.len() && !segs[i].sparse
}

pub fn needs_source_image(segments: &[SourceSegment]) -> (r: bool)
    ensures
        r == needs_source(segments@),
{
    let mut i: usize = 0;
    while i < segments.len()
        invariant
            i <= segments@.len(),
            forall|j: int| 0 <= j < i ==> segments@[j].sparse,
        decreases segments.len() - i,
    {
        if !segments[i].sparse {
            return true;
        }
        i += 1;
    }
    false
}

/// The error when fewer bytes were written than the candidate's size.
pub open spec fn shortfall_of(requested: Option<u64>, written: u64) -> Option<Seq<char>> {
    match requested {
        Some(e) => if written < e {
            Some("请求从分段恢复 "@ + dec(e as nat) + " 字节，但仅写入 "@ + dec(written as nat) + " 字节"@)
        } else {
            None
        },
        None => None,
    }
}

pub fn segment_shortfall(requested: Option<u64>, written: u64) -> (r: Option<String>)
    ensures
        opt_str_view(r) == shortfall_of(requested, written),
{
    match requested {
        Some(e) => if written < e {
            let mut n = owned("请求从分段恢复 ");
            push_dec(&mut n, e);
            push_str(&mut n, " 字节，但仅写入 ");
            push_dec(&mut n, written);
            push_str(&mut n, " 字节");
            Some(n)
        } else {
            None
        },
        None => None,
    }
}

/// `n` is a power of two.
pub open spec fn is_pow2(n: nat) -> bool
    decreases n,
{
    if n == 1 {
        true
    } else if n == 0 || n % 2 == 1 {
        false
    } else {
        is_pow2(n / 2)
    }
}

fn power_of_two(n: u64) -> (r: bool)
    ensures
        r == is_pow2(n as nat),
{
    if n == 0 {
        return false;
    }
    let mut m = n;
    while m > 1 && m % 2 == 0
        invariant
            m >= 1,
            is_pow2(m as nat) == is_pow2(n as nat),
        decreases m,
    {
        m = m / 2;
    }
    m == 1
}

/// The length of the read buffer for aligned raw-volume copies, or why the
/// alignment cannot be used.
pub open spec fn aligned_buffer_len(alignment: u64, buffer: usize) -> Result<usize, Seq<char>> {
    if alignment == 0 {
        Err("原始卷对齐读取的对齐值不能为 0"@)
    } else if !is_pow2(alignment as nat) {
        Err("原始卷对齐值必须是 2 的幂"@)
    } else if alignment > usize::MAX {
        Err("原始卷对齐值过大"@)
    } else if alignment + buffer > usize::MAX {
        Err("对齐缓存长度溢出"@)
    } else {
        Ok((alignment + buffer) as usize)
    }
}

pub fn check_alignment(alignment: u64, buffer: usize) -> (r: Result<usize, String>)
    ensures
        match aligned_buffer_len(alignment, buffer) {
            Ok(n) => r == Ok::<usize, String>(n),
            Err(e) => r matches Err(m) && m@ == e,
        },
{
    if alignment == 0 {
        return Err(owned("原始卷对齐读取的对齐值不能为 0"));
    }
    if !power_of_two(alignment) {
        return Err(owned("原始卷对齐值必须是 2 的幂"));
    }
    if alignment > usize::MAX as u64 {
        return Err(owned("原始卷对齐值过大"));
    }
    let a = alignment as usize;
    match a.checked_add(buffer) {
        Some(n) => Ok(n),
        None => Err(owned("对齐缓存长度溢出")),
    }
}

/// One aligned read of a raw-volume copy.
#[derive(Debug, Clone, Copy, PartialEq, Eq, Structural)]
pub struct AlignedRead {
    /// Where the read starts: the copy position rounded down to the alignment.
    pub start: u64,
    /// Bytes of the read before the copy position.
    pub skip: usize,
    /// Bytes of the copy this read serves.
    pub chunk: usize,
    /// Length of the read: `skip + chunk` rounded up to the alignment.
    pub len: usize,
}

/// The aligned read that serves the next `min(remaining, buffer)` bytes at `current`.
pub open spec fn aligned_read_of(current: u64, remaining: u64, alignment: u64, buffer: usize) -> Result<AlignedRead, Seq<char>> {
    let chunk: nat = if (remaining as nat) < (buffer as nat) { remaining as nat } else { buffer as nat };
    let start: nat = (current as nat / alignment as nat) * alignment as nat;
    let skip: nat = (current - start) as nat;
    if skip + chunk > usize::MAX {
        Err("读取长度溢出"@)
    } else {
        match align_up(skip + chunk, alignment as nat) {
            None => Err("对齐长度溢出"@),
            Some(len) => Ok(AlignedRead { start: start as u64, skip: skip as usize, chunk: chunk as usize, len: len as usize }),
        }
    }
}

pub fn aligned_read(current: u64, remaining: u64, alignment: u64, buffer: usize) -> (r: Result<AlignedRead, String>)
    requires
        0 < alignment <= usize::MAX,
    ensures
        match aligned_read_of(current, remaining, alignment, buffer) {
            Ok(a) => r == Ok::<AlignedRead, String>(a),
            Err(e) => r matches Err(m) && m@ == e,
        },
{
    let chunk: usize = if remaining < buffer as u64 { remaining as usize } else { buffer };
    let q = current / alignment;
    assert(q * alignment <= current) by (nonlinear_arith)
        requires
            q == current / alignment,
            alignment > 0,
    ;
    let start = q * alignment;
    let skip = (current - start) as usize;
    assert(current - start < alignment) by (nonlinear_arith)
        requires
            q == current / alignment,
            alignment > 0,
            start == q * alignment,
    ;
    let required = match skip.checked_add(chunk) {
        Some(v) => v,
        None => {
            return Err(owned("读取长度溢出"));
        },
    };
    match align_up_usize(required, alignment as usize) {
        None => Err(owned("对齐长度溢出")),
        Some(len) => Ok(AlignedRead { start, skip, chunk, len }),
    }
}

/// An aligned read starts on the alignment at or before the copy position
/// and covers the bytes it serves, and its length is a multiple of the alignment.
pub proof fn law_aligned_read_covers(current: u64, remaining: u64, alignment: u64, buffer: usize)
    requires
        alignment > 0,
    ensures
        aligned_read_of(current, remaining, alignment, buffer) matches Ok(a) ==> {
            &&& (a.start as int) % (alignment as int) == 0
            &&& a.start <= current < a.start + alignment
            &&& a.skip == current - a.start
            &&& a.skip + a.chunk <= a.len
            &&& (a.len as int) % (alignment as int) == 0
            &&& a.chunk == (if remaining < buffer { remaining as nat } else { buffer as nat })
        },
{
    let c = current as int;
    let al = alignment as int;
    let q = c / al;
    vstd::arithmetic::div_mod::lemma_fundamental_div_mod(c, al);
    vstd::arithmetic::div_mod::lemma_mod_multiples_basic(q, al);
    assert(q * al <= c < q * al + al) by (nonlinear_arith)
        requires
            c == al * q + c % al,
            0 <= c % al < al,
    ;
    let chunk: nat = if (remaining as nat) < (buffer as nat) { remaining as nat } else { buffer as nat };
    let skip: nat = (current - q * al) as nat;
    law_align_up(skip + chunk, alignment as nat);
}

/// How many actions have status `status`.
pub open spec fn count_status_of(actions: Seq<ActionModel>, status: Seq<char>) -> nat
    decreases actions.len(),
{
    if actions.len() == 0 {
        0
    } else {
        (if actions.last().status == status { 1nat } else { 0nat }) + count_status_of(actions.drop_last(), status)
    }
}

pub open spec fn action_views(v: Seq<RecoveryAction>) -> Seq<ActionModel> {
    v.map_values(|a: RecoveryAction| a@)
}

pub fn count_status(actions: &Vec<RecoveryAction>, status: &str) -> (r: usize)
    ensures
        r == count_status_of(action_views(actions@), status@),
{
    let mut n: usize = 0;
    let mut i: usize = 0;
    while i < actions.len()
        invariant
            i <= actions@.len(),
            n == count_status_of(action_views(actions@.subrange(0, i as int)), status@),
            n <= i,
        decreases actions.len() - i,
    {
        proof {
            assert(action_views(actions@.subrange(0, i + 1)).drop_last() =~= action_views(actions@.subrange(0, i as int)));
        }
        if actions[i].status == owned(status) {
            n = n + 1;
        }
        i += 1;
    }
    assert(actions@.subrange(0, actions@.len() as int) =~= actions@);
    n
}

/// The notes of a recovery session.
pub open spec fn session_notes_of(
    recovered: nat,
    failed: nat,
    dry_run: bool,
    keep_original_name: bool,
    preserve_timestamps: bool,
    skip_carved: bool,
    no_findings: bool,
) -> Seq<Seq<char>> {
    let a = seq!["本命令不会修改源介质。"@, "成功恢复数量："@ + dec(recovered)];
    let b = if failed > 0 { a.push("失败数量："@ + dec(failed)) } else { a };
    let c = if dry_run { b.push("当前为预演模式。"@) } else { b };
    let d = c.push(
        if keep_original_name {
            "输出文件名策略：优先使用原文件名，冲突时自动追加序号。"@
        } else {
            "输出文件名策略：使用案件条目前缀命名。"@
        },
    );
    let e = d.push(
        if preserve_timestamps {
            "时间戳策略：可获取时同步原文件访问/修改时间。"@
        } else {
            "时间戳策略：不额外同步，使用恢复写入时间。"@
        },
    );
    let f = e.push(
        if skip_carved {
            "候选过滤策略：已跳过签名雕刻候选项，仅恢复文件系统候选项。"@
        } else {
            "候选过滤策略：恢复全部候选项（含签名雕刻）。"@
        },
    );
    if no_findings { f.push("扫描报告中没有可恢复候选项。"@) } else { f }
}

pub fn session_notes(
    recovered: usize,
    failed: usize,
    dry_run: bool,
    keep_original_name: bool,
    preserve_timestamps: bool,
    skip_carved: bool,
    no_findings: bool,
) -> (r: Vec<String>)
    ensures
        strs(r@) == session_notes_of(
            recovered as nat,
            failed as nat,
            dry_run,
            keep_original_name,
            preserve_timestamps,
            skip_carved,
            no_findings,
        ),
{
    let mut notes: Vec<String> = Vec::new();
    push_note(&mut notes, owned("本命令不会修改源介质。"));
    let mut n = owned("成功恢复数量：");
    push_dec(&mut n, recovered as u64);
    push_note(&mut notes, n);
    if failed > 0 {
        let mut f = owned("失败数量：");
        push_dec(&mut f, failed as u64);
        push_note(&mut notes, f);
    }
    if dry_run {
        push_note(&mut notes, owned("当前为预演模式。"));
    }
    push_note(
        &mut notes,
        if keep_original_name {
            owned("输出文件名策略：优先使用原文件名，冲突时自动追加序号。")
        } else {
            owned("输出文件名策略：使用案件条目前缀命名。")
        },
    );
    push_note(
        &mut notes,
        if preserve_timestamps {
            owned("时间戳策略：可获取时同步原文件访问/修改时间。")
        } else {
            owned("时间戳策略：不额外同步，使用恢复写入时间。")
        },
    );
    push_note(
        &mut notes,
        if skip_carved {
            owned("候选过滤策略：已跳过签名雕刻候选项，仅恢复文件系统候选项。")
        } else {
            owned("候选过滤策略：恢复全部候选项（含签名雕刻）。")
        },
    );
    if no_findings {
        push_note(&mut notes, owned("扫描报告中没有可恢复候选项。"));
    }
    assert(strs(notes@) =~= session_notes_of(
        recovered as nat,
        failed as nat,
        dry_run,
        keep_original_name,
        preserve_timestamps,
        skip_carved,
        no_findings,
    ));
    notes
}

/// The progress message while candidate `index` (from 0) of `total` is processed.
pub open spec fn progress_message_of(index: nat, total: nat, name: Seq<char>) -> Seq<char> {
    "正在处理 "@ + dec(index + 1) + "/"@ + dec(total) + "："@ + name
}

pub fn progress_message(index: usize, total: usize, name: &str) -> (r: String)
    requires
        index < total,
    ensures
        r@ == progress_message_of(index as nat, total as nat, name@),
{
    let mut m = owned("正在处理 ");
    push_dec(&mut m, (index + 1) as u64);
    push_str(&mut m, "/");
    push_dec(&mut m, total as u64);
    push_str(&mut m, "：");
    push_str(&mut m, name);
    m
}

/// The name of the manifest a recovery run writes into its destination.
pub fn manifest_file_name() -> (r: &'static str)
    ensures
        r@ == "恢复清单.json"@,
{
    "恢复清单.json"
}

/// An absolute path as the recovery checks see it: its text, its
/// components, and the text of its prefix component where the platform
/// gives it one.
#[derive(Debug)]
pub struct PathView {
    pub text: String,
    pub components: Vec<String>,
    pub prefix: Option<String>,
}

/// `a` starts with `b` component by component.
pub open spec fn path_starts_with(a: Seq<Seq<char>>, b: Seq<Seq<char>>) -> bool {
    b.len() <= a.len() && a.subrange(0, b.len() as int) == b
}

pub open spec fn view_key(p: PathView) -> Option<Seq<char>> {
    volume_key(p.text@, opt_str_view(p.prefix))
}

/// Why writing recovered files to `dst` could harm the source `src`, if it could.
pub open spec fn destination_problem(src: PathView, dst: PathView) -> Option<Seq<char>> {
    let s = strs(src.components@);
    let d = strs(dst.components@);
    if path_starts_with(d, s) {
        Some("目标路径 "@ + dst.text@ + " 位于源路径 "@ + src.text@ + " 内部"@)
    } else if path_starts_with(s, d) {
        Some("目标路径 "@ + dst.text@ + " 是源路径 "@ + src.text@ + " 的上级目录"@)
    } else if s == d {
        Some("目标路径 "@ + dst.text@ + " 与源路径相同"@)
    } else if view_key(src) is Some && view_key(dst) is Some && view_key(src) == view_key(dst) {
        Some("源路径（"@ + src.text@ + "）与目标路径（"@ + dst.text@ + "）位于同一 Windows 卷"@)
    } else {
        None
    }
}

/// A destination the check accepts lies apart from the source: not inside
/// it, not above it, not the source itself, and not on the source's
/// Windows volume.
pub proof fn law_accepted_destination_is_apart(src: PathView, dst: PathView)
    requires
        destination_problem(src, dst) is None,
    ensures
        !path_starts_with(strs(dst.components@), strs(src.components@)),
        !path_starts_with(strs(src.components@), strs(dst.components@)),
        strs(src.components@) != strs(dst.components@),
        view_key(src) is Some && view_key(dst) is Some ==> view_key(src) != view_key(dst),
{
}

fn components_start_with(a: &Vec<String>, b: &Vec<String>) -> (r: bool)
    ensures
        r == path_starts_with(strs(a@), strs(b@)),
{
    if b.len() > a.len() {
        return false;
    }
    let mut i: usize = 0;
    while i < b.len()
        invariant
            b@.len() <= a@.len(),
            i <= b@.len(),
            forall|j: int| 0 <= j < i ==> a@[j]@ == b@[j]@,
        decreases b.len() - i,
    {
        if a[i] != b[i] {
            assert(strs(a@).subrange(0, b@.len() as int)[i as int] != strs(b@)[i as int]);
            return false;
        }
        i += 1;
    }
    assert(strs(a@).subrange(0, b@.len() as int) =~= strs(b@));
    true
}

/// Checks that recovered files written under `destination` cannot land
/// on the source: not inside it, not above it, not the same path, and not
/// on the same Windows volume.
pub fn validate_destination_path(source: &PathView, destination: &PathView) -> (r: Result<(), RecoveryError>)
    ensures
        match destination_problem(*source, *destination) {
            None => r is Ok,
            Some(m) => r matches Err(RecoveryError::UnsafeDestination(t)) && t@ == m,
        },
{
    if components_start_with(&destination.components, &source.components) {
        let mut m = owned("目标路径 ");
        push_str(&mut m, destination.text.as_str());
        push_str(&mut m, " 位于源路径 ");
        push_str(&mut m, source.text.as_str());
        push_str(&mut m, " 内部");
        return Err(RecoveryError::UnsafeDestination(m));
    }
    if components_start_with(&source.components, &destination.components) {
        let mut m = owned("目标路径 ");
        push_str(&mut m, destination.text.as_str());
        push_str(&mut m, " 是源路径 ");
        push_str(&mut m, source.text.as_str());
        push_str(&mut m, " 的上级目录");
        return Err(RecoveryError::UnsafeDestination(m));
    }
    if source.components.len() == destination.components.len() && components_start_with(
        &source.components,
        &destination.components,
    ) {
        proof {
            assert(strs(source.components@).subrange(0, source.components@.len() as int) =~= strs(source.components@));
        }
        let mut m = owned("目标路径 ");
        push_str(&mut m, destination.text.as_str());
        push_str(&mut m, " 与源路径相同");
        return Err(RecoveryError::UnsafeDestination(m));
    }
    proof {
        let s = strs(source.components@);
        let d = strs(destination.components@);
        if s == d {
            assert(s.subrange(0, d.len() as int) =~= d);
        }
    }
    let sk = windows_volume_key(source.text.as_str(), match &source.prefix {
        Some(p) => Some(p.as_str()),
        None => None,
    });
    let dk = windows_volume_key(destination.text.as_str(), match &destination.prefix {
        Some(p) => Some(p.as_str()),
        None => None,
    });
    match (sk, dk) {
        (Some(a), Some(b)) => {
            if a == b {
                let mut m = owned("源路径（");
                push_str(&mut m, source.text.as_str());
                push_str(&mut m, "）与目标路径（");
                push_str(&mut m, destination.text.as_str());
                push_str(&mut m, "）位于同一 Windows 卷");
                return Err(RecoveryError::UnsafeDestination(m));
            }
        },
        _ => {},
    }
    Ok(())
}

} // verus!
