//! Signature carving: locating recoverable files in the leading bytes of an
//! image or raw volume by their headers, footers and container structure.
use vstd::prelude::*;
use crate::bytes::{be_at, find_subslice, first_occ, lemma_first_occ, read_be_u16, read_be_u32, read_be_u64};
use crate::config::CarverConfig;
use crate::model::{item_views, CarveResult, ItemModel, RecoverableItem, ScanRequest};
use crate::text::{dec, dec_padded, owned, push_dec, push_dec_padded, push_note, push_str, strs};

verus! {

/// A carved candidate: `prefix` opens its note, `ext` names its type.
pub open spec fn carved_item(
    prefix: Seq<char>,
    ext: Seq<char>,
    ordinal: nat,
    start: nat,
    size: nat,
    confidence: u8,
) -> ItemModel {
    ItemModel {
        id: "carve-"@ + ext + "-"@ + dec_padded(ordinal, 5),
        category: "signature-carved"@,
        confidence_percent: confidence,
        note: prefix + "，偏移 "@ + dec(start) + "，估计长度 "@ + dec(size) + " 字节。"@,
        suggested_name: "carved_"@ + dec(ordinal) + "_"@ + dec(start) + "."@ + ext,
        source_path: None,
        source_offset: Some(start as u64),
        size_bytes: Some(size as u64),
        source_segments: Seq::empty(),
    }
}

fn make_item(prefix: &str, ext: &str, ordinal: u64, start: u64, size: u64, confidence: u8) -> (r:
    RecoverableItem)
    ensures
        r@ == carved_item(prefix@, ext@, ordinal as nat, start as nat, size as nat, confidence),
{
    let mut id = String::new();
    push_str(&mut id, "carve-");
    push_str(&mut id, ext);
    push_str(&mut id, "-");
    push_dec_padded(&mut id, ordinal, 5);
    let mut note = String::new();
    push_str(&mut note, prefix);
    push_str(&mut note, "，偏移 ");
    push_dec(&mut note, start);
    push_str(&mut note, "，估计长度 ");
    push_dec(&mut note, size);
    push_str(&mut note, " 字节。");
    let mut name = String::new();
    push_str(&mut name, "carved_");
    push_dec(&mut name, ordinal);
    push_str(&mut name, "_");
    push_dec(&mut name, start);
    push_str(&mut name, ".");
    push_str(&mut name, ext);
    let r = RecoverableItem {
        id,
        category: owned("signature-carved"),
        confidence_percent: confidence,
        note,
        suggested_name: name,
        source_path: None,
        source_offset: Some(start),
        size_bytes: Some(size),
        source_segments: Vec::new(),
    };
    proof {
        let m = carved_item(prefix@, ext@, ordinal as nat, start as nat, size as nat, confidence);
        assert(r@.id =~= m.id);
        assert(r@.note =~= m.note);
        assert(r@.suggested_name =~= m.suggested_name);
        assert(r@.source_segments =~= m.source_segments);
    }
    r
}

/// A configured size bound: zero takes the default, the minimum is at least
/// one and the maximum at least the minimum.
pub open spec fn size_range(min: usize, max: usize, dmin: usize, dmax: usize) -> (usize, usize) {
    let lo0 = if min == 0 { dmin } else { min };
    let lo = if lo0 < 1 { 1 } else { lo0 };
    let hi0 = if max == 0 { dmax } else { max };
    let hi = if hi0 < lo { lo } else { hi0 };
    (lo, hi)
}

pub fn normalize_size_range(min_size: usize, max_size: usize, default_min_size: usize, default_max_size: usize) -> (r: (
    usize,
    usize,
))
    ensures
        r == size_range(min_size, max_size, default_min_size, default_max_size),
{
    let lo0 = if min_size == 0 { default_min_size } else { min_size };
    let lo = if lo0 < 1 { 1 } else { lo0 };
    let hi0 = if max_size == 0 { default_max_size } else { max_size };
    let hi = if hi0 < lo { lo } else { hi0 };
    (lo, hi)
}

/// A header/footer signature with its accepted size range.
pub struct SignatureSpec {
    pub kind: &'static str,
    pub ext: &'static str,
    pub header: Vec<u8>,
    pub footer: Vec<u8>,
    pub min_size: usize,
    pub max_size: usize,
}

pub struct SigModel {
    pub kind: Seq<char>,
    pub ext: Seq<char>,
    pub header: Seq<u8>,
    pub footer: Seq<u8>,
    pub min_size: nat,
    pub max_size: nat,
}

impl View for SignatureSpec {
    type V = SigModel;

    open spec fn view(&self) -> SigModel {
        SigModel {
            kind: self.kind@,
            ext: self.ext@,
            header: self.header@,
            footer: self.footer@,
            min_size: self.min_size as nat,
            max_size: self.max_size as nat,
        }
    }
}

/// The smaller of `a` and `b`.
pub open spec fn min_int(a: int, b: int) -> int {
    if a < b { a } else { b }
}

/// The items a header/footer signature gives from `cursor` on, after
/// `acc`, and whether the item limit cut the scan.
pub open spec fn sig_scan(d: Seq<u8>, sp: SigModel, max_items: nat, cursor: int, acc: Seq<ItemModel>) -> (
    Seq<ItemModel>,
    bool,
)
    decreases d.len() - cursor,
{
    if cursor < 0 || cursor + sp.header.len() > d.len() {
        (acc, false)
    } else {
        match first_occ(d, sp.header, cursor, d.len() as int) {
            None => (acc, false),
            Some(start) => {
                proof {
                    lemma_first_occ(d, sp.header, cursor, d.len() as int);
                }
                let ss = start + sp.header.len();
                let se = min_int(start + sp.max_size, d.len() as int);
                if ss >= se {
                    (acc, false)
                } else {
                    match first_occ(d, sp.footer, ss, se) {
                        None => sig_scan(d, sp, max_items, start + 1, acc),
                        Some(fe) => {
                            proof {
                                lemma_first_occ(d, sp.footer, ss, se);
                            }
                            let end = fe + sp.footer.len();
                            let size = end - start;
                            if size < sp.min_size {
                                sig_scan(d, sp, max_items, start + 1, acc)
                            } else {
                                let acc2 = acc.push(
                                    carved_item(
                                        sp.kind + " 签名命中"@,
                                        sp.ext,
                                        acc.len() + 1,
                                        start as nat,
                                        size as nat,
                                        85,
                                    ),
                                );
                                if acc2.len() >= max_items {
                                    (acc2, true)
                                } else {
                                    sig_scan(d, sp, max_items, end, acc2)
                                }
                            }
                        },
                    }
                }
            },
        }
    }
}

/// Carves every non-overlapping header..footer span of `spec` in `data`, up
/// to `max_items` items; the flag tells whether the limit was reached.
pub fn carve_signature(data: &[u8], spec: &SignatureSpec, max_items: usize) -> (r: (Vec<RecoverableItem>, bool))
    requires
        spec.header@.len() > 0,
        spec.footer@.len() > 0,
    ensures
        (item_views(r.0@), r.1) == sig_scan(data@, spec@, max_items as nat, 0, Seq::empty()),
{
    let ghost target = sig_scan(data@, spec@, max_items as nat, 0, Seq::empty());
    let mut items: Vec<RecoverableItem> = Vec::new();
    let hlen = spec.header.len();
    let flen = spec.footer.len();
    let n = data.len();
    let mut cursor: usize = 0;
    assert(item_views(items@) =~= Seq::<ItemModel>::empty());
    while cursor <= n && hlen <= n - cursor
        invariant
            n == data@.len(),
            hlen == spec.header@.len(),
            flen == spec.footer@.len(),
            hlen > 0,
            flen > 0,
            cursor <= n + 1,
            items@.len() < max_items || items@.len() == 0,
            sig_scan(data@, spec@, max_items as nat, cursor as int, item_views(items@)) == target,
            target == sig_scan(data@, spec@, max_items as nat, 0, Seq::empty()),
        decreases n + 1 - cursor,
    {
        let ghost acc = item_views(items@);
        proof {
            lemma_first_occ(data@, spec.header@, cursor as int, n as int);
        }
        let rel = match find_subslice(data, spec.header.as_slice(), cursor, n) {
            None => {
                return (items, false);
            },
            Some(k) => k,
        };
        let start = cursor + rel;
        let ss = start + hlen;
        let se = if spec.max_size < n - start { start + spec.max_size } else { n };
        if ss >= se {
            return (items, false);
        }
        proof {
            lemma_first_occ(data@, spec.footer@, ss as int, se as int);
        }
        let rel_end = match find_subslice(data, spec.footer.as_slice(), ss, se) {
            None => {
                cursor = start + 1;
                continue;
            },
            Some(k) => k,
        };
        let end = ss + rel_end + flen;
        let size = end - start;
        if size < spec.min_size {
            cursor = start + 1;
            continue;
        }
        let ordinal = items.len() + 1;
        let mut prefix = String::new();
        push_str(&mut prefix, spec.kind);
        push_str(&mut prefix, " 签名命中");
        let item = make_item(prefix.as_str(), spec.ext, ordinal as u64, start as u64, size as u64, 85);
        items.push(item);
        assert(item_views(items@) =~= acc.push(item@));
        if items.len() >= max_items {
            return (items, true);
        }
        cursor = end;
    }
    (items, false)
}

/// `SQLite format 3\0`.
pub open spec fn sqlite_magic() -> Seq<u8> {
    seq![0x53u8, 0x51, 0x4C, 0x69, 0x74, 0x65, 0x20, 0x66, 0x6F, 0x72, 0x6D, 0x61, 0x74, 0x20, 0x33, 0x00]
}

/// The items SQLite headers give from `cursor` on, after `acc`: each
/// database spans its page size times its page count (`fallback` bytes when
/// that is zero), cut at the end of the data.
pub open spec fn sqlite_scan(d: Seq<u8>, max_items: nat, fallback: nat, cursor: int, acc: Seq<ItemModel>) -> (
    Seq<ItemModel>,
    bool,
)
    decreases d.len() - cursor,
{
    if cursor < 0 || cursor + 16 > d.len() {
        (acc, false)
    } else {
        match first_occ(d, sqlite_magic(), cursor, d.len() as int) {
            None => (acc, false),
            Some(start) => {
                proof {
                    lemma_first_occ(d, sqlite_magic(), cursor, d.len() as int);
                }
                if start + 100 > d.len() {
                    (acc, false)
                } else {
                    let raw = be_at(d, start + 16, 2);
                    let page = if raw == 1 { 65536 } else { raw };
                    let prod = page * be_at(d, start + 28, 4);
                    let sz = if prod == 0 { fallback } else { prod };
                    let size = min_int(start + sz, d.len() as int) - start;
                    let acc2 = acc.push(
                        carved_item("sqlite 签名命中"@, "sqlite"@, acc.len() + 1, start as nat, size as nat, 88),
                    );
                    if acc2.len() >= max_items {
                        (acc2, true)
                    } else {
                        sqlite_scan(d, max_items, fallback, start + 1, acc2)
                    }
                }
            },
        }
    }
}

/// Carves SQLite databases by their header, up to `max_items` items.
pub fn carve_sqlite(data: &[u8], max_items: usize, fallback_size: usize) -> (r: (Vec<RecoverableItem>, bool))
    ensures
        (item_views(r.0@), r.1) == sqlite_scan(data@, max_items as nat, fallback_size as nat, 0, Seq::empty()),
{
    let ghost target = sqlite_scan(data@, max_items as nat, fallback_size as nat, 0, Seq::empty());
    let magic: [u8; 16] = [0x53, 0x51, 0x4C, 0x69, 0x74, 0x65, 0x20, 0x66, 0x6F, 0x72, 0x6D, 0x61, 0x74, 0x20, 0x33, 0x00];
    assert(magic@ =~= sqlite_magic());
    let mut items: Vec<RecoverableItem> = Vec::new();
    let n = data.len();
    let mut cursor: usize = 0;
    assert(item_views(items@) =~= Seq::<ItemModel>::empty());
    while cursor <= n && 16 <= n - cursor
        invariant
            n == data@.len(),
            magic@ == sqlite_magic(),
            cursor <= n + 1,
            items@.len() < max_items || items@.len() == 0,
            sqlite_scan(data@, max_items as nat, fallback_size as nat, cursor as int, item_views(items@)) == target,
            target == sqlite_scan(data@, max_items as nat, fallback_size as nat, 0, Seq::empty()),
        decreases n + 1 - cursor,
    {
        let ghost acc = item_views(items@);
        proof {
            lemma_first_occ(data@, sqlite_magic(), cursor as int, n as int);
        }
        let rel = match find_subslice(data, &magic, cursor, n) {
            None => {
                return (items, false);
            },
            Some(k) => k,
        };
        let start = cursor + rel;
        if start > n || n - start < 100 {
            return (items, false);
        }
        let raw = read_be_u16(data, start + 16).unwrap();
        let page: u64 = if raw == 1 { 65536 } else { raw as u64 };
        let count = read_be_u32(data, start + 28).unwrap() as u64;
        assert(page * count <= 65536 * 0xFFFF_FFFF) by (nonlinear_arith)
            requires page <= 65536, count <= 0xFFFF_FFFF;
        let prod = page * count;
        let sz: u64 = if prod == 0 { fallback_size as u64 } else { prod };
        let size: u64 = if sz < (n - start) as u64 { sz } else { (n - start) as u64 };
        let ordinal = items.len() + 1;
        let item = make_item("sqlite 签名命中", "sqlite", ordinal as u64, start as u64, size, 88);
        items.push(item);
        assert(item_views(items@) =~= acc.push(item@));
        if items.len() >= max_items {
            return (items, true);
        }
        cursor = start + 1;
    }
    (items, false)
}

/// `PK\x03\x04`, a ZIP local file header.
pub open spec fn zip_local_magic() -> Seq<u8> {
    seq![0x50u8, 0x4B, 0x03, 0x04]
}

/// `PK\x05\x06`, a ZIP end of central directory.
pub open spec fn zip_eocd_magic() -> Seq<u8> {
    seq![0x50u8, 0x4B, 0x05, 0x06]
}

/// `[Content_Types].xml`.
pub open spec fn content_types_name() -> Seq<u8> {
    seq![0x5Bu8, 0x43, 0x6F, 0x6E, 0x74, 0x65, 0x6E, 0x74, 0x5F, 0x54, 0x79, 0x70, 0x65, 0x73, 0x5D, 0x2E, 0x78, 0x6D, 0x6C]
}

/// `xl/`.
pub open spec fn xl_dir() -> Seq<u8> {
    seq![0x78u8, 0x6C, 0x2F]
}

/// The items Office ZIP containers give from `cursor` on, after `acc`: a
/// local file header, the first end-of-central-directory record within
/// `window` bytes of it, and `[Content_Types].xml` between them; `xl/`
/// there makes it a workbook, anything else a document.
pub open spec fn zip_scan(d: Seq<u8>, max_items: nat, window: nat, cursor: int, acc: Seq<ItemModel>) -> (
    Seq<ItemModel>,
    bool,
)
    decreases d.len() - cursor,
{
    if cursor < 0 || cursor + 4 > d.len() {
        (acc, false)
    } else {
        match first_occ(d, zip_local_magic(), cursor, d.len() as int) {
            None => (acc, false),
            Some(start) => {
                proof {
                    lemma_first_occ(d, zip_local_magic(), cursor, d.len() as int);
                }
                let se = min_int(start + window, d.len() as int);
                match first_occ(d, zip_eocd_magic(), start, se) {
                    None => zip_scan(d, max_items, window, start + 1, acc),
                    Some(eo) => {
                        proof {
                            lemma_first_occ(d, zip_eocd_magic(), start, se);
                        }
                        let end = eo + 4;
                        if first_occ(d, content_types_name(), start, end) is None {
                            zip_scan(d, max_items, window, start + 1, acc)
                        } else {
                            let ext = if first_occ(d, xl_dir(), start, end) is Some {
                                "xlsx"@
                            } else {
                                "docx"@
                            };
                            let acc2 = acc.push(
                                carved_item(ext + " 压缩包签名命中"@, ext, acc.len() + 1, start as nat, (end - start) as nat, 86),
                            );
                            if acc2.len() >= max_items {
                                (acc2, true)
                            } else {
                                zip_scan(d, max_items, window, end, acc2)
                            }
                        }
                    },
                }
            },
        }
    }
}

/// Carves Office Open XML documents and workbooks, up to `max_items` items.
pub fn carve_zip_office(data: &[u8], max_items: usize, window: usize) -> (r: (Vec<RecoverableItem>, bool))
    ensures
        (item_views(r.0@), r.1) == zip_scan(data@, max_items as nat, window as nat, 0, Seq::empty()),
{
    let ghost target = zip_scan(data@, max_items as nat, window as nat, 0, Seq::empty());
    let local: [u8; 4] = [0x50, 0x4B, 0x03, 0x04];
    let eocd: [u8; 4] = [0x50, 0x4B, 0x05, 0x06];
    let ct: [u8; 19] = [0x5B, 0x43, 0x6F, 0x6E, 0x74, 0x65, 0x6E, 0x74, 0x5F, 0x54, 0x79, 0x70, 0x65, 0x73, 0x5D, 0x2E, 0x78, 0x6D, 0x6C];
    let xl: [u8; 3] = [0x78, 0x6C, 0x2F];
    assert(local@ =~= zip_local_magic());
    assert(eocd@ =~= zip_eocd_magic());
    assert(ct@ =~= content_types_name());
    assert(xl@ =~= xl_dir());
    let mut items: Vec<RecoverableItem> = Vec::new();
    let n = data.len();
    let mut cursor: usize = 0;
    assert(item_views(items@) =~= Seq::<ItemModel>::empty());
    while cursor <= n && 4 <= n - cursor
        invariant
            n == data@.len(),
            local@ == zip_local_magic(),
            eocd@ == zip_eocd_magic(),
            ct@ == content_types_name(),
            xl@ == xl_dir(),
            cursor <= n + 1,
            items@.len() < max_items || items@.len() == 0,
            zip_scan(data@, max_items as nat, window as nat, cursor as int, item_views(items@)) == target,
            target == zip_scan(data@, max_items as nat, window as nat, 0, Seq::empty()),
        decreases n + 1 - cursor,
    {
        let ghost acc = item_views(items@);
        proof {
            lemma_first_occ(data@, zip_local_magic(), cursor as int, n as int);
        }
        let rel = match find_subslice(data, &local, cursor, n) {
            None => {
                return (items, false);
            },
            Some(k) => k,
        };
        let start = cursor + rel;
        let se = if window < n - start { start + window } else { n };
        proof {
            lemma_first_occ(data@, zip_eocd_magic(), start as int, se as int);
        }
        let rel_eocd = match find_subslice(data, &eocd, start, se) {
            None => {
                cursor = start + 1;
                continue;
            },
            Some(k) => k,
        };
        let end = start + rel_eocd + 4;
        if find_subslice(data, &ct, start, end).is_none() {
            cursor = start + 1;
            continue;
        }
        let ext = if find_subslice(data, &xl, start, end).is_some() { "xlsx" } else { "docx" };
        let mut prefix = String::new();
        push_str(&mut prefix, ext);
        push_str(&mut prefix, " 压缩包签名命中");
        let ordinal = items.len() + 1;
        let item = make_item(prefix.as_str(), ext, ordinal as u64, start as u64, (end - start) as u64, 86);
        items.push(item);
        assert(item_views(items@) =~= acc.push(item@));
        if items.len() >= max_items {
            return (items, true);
        }
        cursor = end;
    }
    (items, false)
}

/// `ftyp`.
pub open spec fn ftyp_tag() -> Seq<u8> {
    seq![0x66u8, 0x74, 0x79, 0x70]
}

/// A box type that carries media data or its index: `moov`, `mdat` or `moof`.
pub open spec fn payload_tag(t: Seq<u8>) -> bool {
    t == seq![0x6Du8, 0x6F, 0x6F, 0x76] || t == seq![0x6Du8, 0x64, 0x61, 0x74] || t == seq![0x6Du8, 0x6F, 0x6F, 0x66]
}

/// The walk over consecutive MP4 boxes from `cursor`, all ending by `se`:
/// where the walk ends, and whether it saw a payload box, once it saw
/// `ftyp`; `None` for a malformed box or a walk without `ftyp`.
pub open spec fn mp4_walk(d: Seq<u8>, start: int, se: int, cursor: int, saw: bool, pay: bool) -> Option<(int, bool)>
    decreases se - cursor,
{
    if cursor + 8 > se {
        if saw && cursor > start { Some((cursor, pay)) } else { None }
    } else if cursor < 0 || cursor + 8 > d.len() {
        None
    } else {
        let size32 = be_at(d, cursor, 4);
        let ty = d.subrange(cursor + 4, cursor + 8);
        if size32 == 1 && cursor + 16 > d.len() {
            None
        } else {
            let box_size: int = if size32 == 1 {
                be_at(d, cursor + 8, 8) as int
            } else if size32 == 0 {
                se - cursor
            } else {
                size32 as int
            };
            let header: int = if size32 == 1 { 16 } else { 8 };
            let next = cursor + box_size;
            if box_size < header || next > se {
                None
            } else {
                let saw2 = saw || ty == ftyp_tag();
                let pay2 = if ty == ftyp_tag() { pay } else { pay || payload_tag(ty) };
                if saw2 && pay2 {
                    Some((next, true))
                } else {
                    mp4_walk(d, start, se, next, saw2, pay2)
                }
            }
        }
    }
}

/// The end of the MP4 box sequence at `start` within `se`, and whether it holds a payload box.
pub open spec fn mp4_range(d: Seq<u8>, start: int, se: int) -> Option<(int, bool)> {
    if start + 8 > se { None } else { mp4_walk(d, start, se, start, false, false) }
}

pub proof fn lemma_mp4_walk(d: Seq<u8>, start: int, se: int, cursor: int, saw: bool, pay: bool)
    ensures
        mp4_walk(d, start, se, cursor, saw, pay) matches Some((e, _)) ==> e >= cursor && (cursor <= se
            ==> e <= se) && (cursor + 8 <= se ==> e >= cursor + 8),
    decreases se - cursor,
{
    if cursor + 8 <= se && 0 <= cursor && cursor + 8 <= d.len() {
        let size32 = be_at(d, cursor, 4);
        if !(size32 == 1 && cursor + 16 > d.len()) {
            let box_size: int = if size32 == 1 {
                be_at(d, cursor + 8, 8) as int
            } else if size32 == 0 {
                se - cursor
            } else {
                size32 as int
            };
            let next = cursor + box_size;
            let ty = d.subrange(cursor + 4, cursor + 8);
            let saw2 = saw || ty == ftyp_tag();
            let pay2 = if ty == ftyp_tag() { pay } else { pay || payload_tag(ty) };
            if next > cursor && next <= se {
                lemma_mp4_walk(d, start, se, next, saw2, pay2);
            }
        }
    }
}

/// Walks the MP4 boxes at `start` that end by `search_end`: the end of the
/// walk and whether it met `moov`, `mdat` or `moof`, once it met `ftyp`.
pub fn parse_mp4_box_range(data: &[u8], start: usize, search_end: usize) -> (r: Option<(usize, bool)>)
    ensures
        match mp4_range(data@, start as int, search_end as int) {
            Some((e, p)) => r == Some((e as usize, p)),
            None => r is None,
        },
{
    if start > search_end || search_end - start < 8 {
        return None;
    }
    let ghost target = mp4_walk(data@, start as int, search_end as int, start as int, false, false);
    let ftyp: [u8; 4] = [0x66, 0x74, 0x79, 0x70];
    let moov: [u8; 4] = [0x6D, 0x6F, 0x6F, 0x76];
    let mdat: [u8; 4] = [0x6D, 0x64, 0x61, 0x74];
    let moof: [u8; 4] = [0x6D, 0x6F, 0x6F, 0x66];
    assert(ftyp@ =~= ftyp_tag());
    let mut cursor = start;
    let mut saw = false;
    let mut pay = false;
    while cursor <= search_end && 8 <= search_end - cursor
        invariant
            start <= cursor,
            ftyp@ == ftyp_tag(),
            moov@ == seq![0x6Du8, 0x6F, 0x6F, 0x76],
            mdat@ == seq![0x6Du8, 0x64, 0x61, 0x74],
            moof@ == seq![0x6Du8, 0x6F, 0x6F, 0x66],
            cursor > search_end ==> false,
            mp4_walk(data@, start as int, search_end as int, cursor as int, saw, pay) == target,
            target == mp4_walk(data@, start as int, search_end as int, start as int, false, false),
        decreases search_end - cursor,
    {
        let size32 = match read_be_u32(data, cursor) {
            Some(v) => v,
            None => {
                return None;
            },
        };
        if cursor > data.len() || data.len() - cursor < 8 {
            return None;
        }
        let ghost ty = data@.subrange(cursor + 4, cursor + 8);
        let box_size: u64;
        let header: u64;
        if size32 == 1 {
            box_size = match read_be_u64(data, cursor + 8) {
                Some(v) => v,
                None => {
                    return None;
                },
            };
            header = 16;
        } else if size32 == 0 {
            box_size = (search_end - cursor) as u64;
            header = 8;
        } else {
            box_size = size32 as u64;
            header = 8;
        }
        if box_size < header {
            return None;
        }
        let next = match (cursor as u64).checked_add(box_size) {
            Some(v) => v,
            None => {
                return None;
            },
        };
        if next > search_end as u64 {
            return None;
        }
        let is_ftyp = crate::bytes::bytes_occur_at(data, &ftyp, cursor + 4);
        let is_payload = crate::bytes::bytes_occur_at(data, &moov, cursor + 4) || crate::bytes::bytes_occur_at(
            data,
            &mdat,
            cursor + 4,
        ) || crate::bytes::bytes_occur_at(data, &moof, cursor + 4);
        proof {
            assert(is_ftyp == (ty == ftyp_tag()));
            assert(is_payload == payload_tag(ty));
        }
        if is_ftyp {
            saw = true;
        } else if is_payload {
            pay = true;
        }
        cursor = next as usize;
        if saw && pay {
            return Some((cursor, true));
        }
    }
    if saw && cursor > start {
        Some((cursor, pay))
    } else {
        None
    }
}

/// The items MP4 box sequences give from `cursor` on, after `acc`: each
/// starts four bytes before an `ftyp` tag and must hold a payload box within
/// `window` bytes.
pub open spec fn mp4_scan(d: Seq<u8>, max_items: nat, window: nat, cursor: int, acc: Seq<ItemModel>) -> (
    Seq<ItemModel>,
    bool,
)
    decreases d.len() - cursor,
{
    if cursor < 0 || cursor + 12 > d.len() {
        (acc, false)
    } else {
        match first_occ(d, ftyp_tag(), cursor, d.len() as int) {
            None => (acc, false),
            Some(fp) => {
                proof {
                    lemma_first_occ(d, ftyp_tag(), cursor, d.len() as int);
                }
                if fp < 4 {
                    mp4_scan(d, max_items, window, fp + 1, acc)
                } else {
                    let start = fp - 4;
                    let se = min_int(start + window, d.len() as int);
                    match mp4_range(d, start, se) {
                        None => mp4_scan(d, max_items, window, fp + 1, acc),
                        Some((end, pay)) => {
                            proof {
                                lemma_mp4_walk(d, start, se, start, false, false);
                            }
                            if !pay || end <= start {
                                mp4_scan(d, max_items, window, fp + 1, acc)
                            } else {
                                let acc2 = acc.push(
                                    carved_item("mp4 盒结构命中"@, "mp4"@, acc.len() + 1, start as nat, (end - start) as nat, 84),
                                );
                                if acc2.len() >= max_items {
                                    (acc2, true)
                                } else {
                                    mp4_scan(d, max_items, window, end, acc2)
                                }
                            }
                        },
                    }
                }
            },
        }
    }
}

/// Carves MP4 files by their box structure, up to `max_items` items.
pub fn carve_mp4(data: &[u8], max_items: usize, window: usize) -> (r: (Vec<RecoverableItem>, bool))
    ensures
        (item_views(r.0@), r.1) == mp4_scan(data@, max_items as nat, window as nat, 0, Seq::empty()),
{
    let ghost target = mp4_scan(data@, max_items as nat, window as nat, 0, Seq::empty());
    let ftyp: [u8; 4] = [0x66, 0x74, 0x79, 0x70];
    assert(ftyp@ =~= ftyp_tag());
    let mut items: Vec<RecoverableItem> = Vec::new();
    let n = data.len();
    let mut cursor: usize = 0;
    assert(item_views(items@) =~= Seq::<ItemModel>::empty());
    while cursor <= n && 12 <= n - cursor
        invariant
            n == data@.len(),
            ftyp@ == ftyp_tag(),
            cursor <= n + 1,
            items@.len() < max_items || items@.len() == 0,
            mp4_scan(data@, max_items as nat, window as nat, cursor as int, item_views(items@)) == target,
            target == mp4_scan(data@, max_items as nat, window as nat, 0, Seq::empty()),
        decreases n + 1 - cursor,
    {
        let ghost acc = item_views(items@);
        proof {
            lemma_first_occ(data@, ftyp_tag(), cursor as int, n as int);
        }
        let rel = match find_subslice(data, &ftyp, cursor, n) {
            None => {
                return (items, false);
            },
            Some(k) => k,
        };
        let fp = cursor + rel;
        if fp < 4 {
            cursor = fp + 1;
            continue;
        }
        let start = fp - 4;
        let se = if window < n - start { start + window } else { n };
        proof {
            lemma_mp4_walk(data@, start as int, se as int, start as int, false, false);
        }
        let (end, pay) = match parse_mp4_box_range(data, start, se) {
            None => {
                cursor = fp + 1;
                continue;
            },
            Some(v) => v,
        };
        if !pay || end <= start {
            cursor = fp + 1;
            continue;
        }
        let ordinal = items.len() + 1;
        let item = make_item("mp4 盒结构命中", "mp4", ordinal as u64, start as u64, (end - start) as u64, 84);
        items.push(item);
        assert(item_views(items@) =~= acc.push(item@));
        if items.len() >= max_items {
            return (items, true);
        }
        cursor = end;
    }
    (items, false)
}

/// A configured limit raised to at least `floor`.
pub open spec fn at_least(v: usize, floor: usize) -> usize {
    if v < floor { floor } else { v }
}

fn raise_to(v: usize, floor: usize) -> (r: usize)
    ensures
        r == at_least(v, floor),
{
    if v < floor { floor } else { v }
}

pub open spec fn sig_model(kind: Seq<char>, ext: Seq<char>, header: Seq<u8>, footer: Seq<u8>, range: (usize, usize)) -> SigModel {
    SigModel { kind, ext, header, footer, min_size: range.0 as nat, max_size: range.1 as nat }
}

/// The JPEG, PNG and PDF signatures with their configured size ranges.
pub open spec fn sig_models(cfg: CarverConfig) -> Seq<SigModel> {
    seq![
        sig_model("jpeg"@, "jpg"@, seq![0xFFu8, 0xD8, 0xFF], seq![0xFFu8, 0xD9],
            size_range(cfg.jpeg_min_size_bytes, cfg.jpeg_max_size_bytes, 1024, 33554432)),
        sig_model("png"@, "png"@, seq![0x89u8, 0x50, 0x4E, 0x47, 0x0D, 0x0A, 0x1A, 0x0A],
            seq![0x49u8, 0x45, 0x4E, 0x44, 0xAE, 0x42, 0x60, 0x82],
            size_range(cfg.png_min_size_bytes, cfg.png_max_size_bytes, 256, 33554432)),
        sig_model("pdf"@, "pdf"@, seq![0x25u8, 0x50, 0x44, 0x46, 0x2D], seq![0x25u8, 0x25, 0x45, 0x4F, 0x46],
            size_range(cfg.pdf_min_size_bytes, cfg.pdf_max_size_bytes, 1024, 134217728)),
    ]
}

/// The header/footer signatures under the given settings.
pub fn signature_specs(cfg: &CarverConfig) -> (r: Vec<SignatureSpec>)
    ensures
        r@.len() == 3,
        forall|i: int| 0 <= i < 3 ==> (#[trigger] r@[i])@ == sig_models(*cfg)[i],
        forall|i: int| 0 <= i < 3 ==> (#[trigger] r@[i]).header@.len() > 0 && r@[i].footer@.len() > 0,
{
    let jpeg = normalize_size_range(cfg.jpeg_min_size_bytes, cfg.jpeg_max_size_bytes, 1024, 33554432);
    let png = normalize_size_range(cfg.png_min_size_bytes, cfg.png_max_size_bytes, 256, 33554432);
    let pdf = normalize_size_range(cfg.pdf_min_size_bytes, cfg.pdf_max_size_bytes, 1024, 134217728);
    let mut r: Vec<SignatureSpec> = Vec::new();
    r.push(SignatureSpec {
        kind: "jpeg",
        ext: "jpg",
        header: vec![0xFF, 0xD8, 0xFF],
        footer: vec![0xFF, 0xD9],
        min_size: jpeg.0,
        max_size: jpeg.1,
    });
    r.push(SignatureSpec {
        kind: "png",
        ext: "png",
        header: vec![0x89, 0x50, 0x4E, 0x47, 0x0D, 0x0A, 0x1A, 0x0A],
        footer: vec![0x49, 0x45, 0x4E, 0x44, 0xAE, 0x42, 0x60, 0x82],
        min_size: png.0,
        max_size: png.1,
    });
    r.push(SignatureSpec {
        kind: "pdf",
        ext: "pdf",
        header: vec![0x25, 0x50, 0x44, 0x46, 0x2D],
        footer: vec![0x25, 0x25, 0x45, 0x4F, 0x46],
        min_size: pdf.0,
        max_size: pdf.1,
    });
    proof {
        let m = sig_models(*cfg);
        assert(r@[0]@ =~= m[0]);
        assert(r@[1]@ =~= m[1]);
        assert(r@[2]@ =~= m[2]);
    }
    r
}

/// Extensions the carver recognises.
pub open spec fn supported_list() -> Seq<Seq<char>> {
    seq!["jpg"@, "png"@, "pdf"@, "sqlite"@, "docx"@, "xlsx"@, "mp4"@]
}

pub fn supported_signatures() -> (r: Vec<String>)
    ensures
        strs(r@) == supported_list(),
{
    let mut r: Vec<String> = Vec::new();
    push_note(&mut r, owned("jpg"));
    push_note(&mut r, owned("png"));
    push_note(&mut r, owned("pdf"));
    push_note(&mut r, owned("sqlite"));
    push_note(&mut r, owned("docx"));
    push_note(&mut r, owned("xlsx"));
    push_note(&mut r, owned("mp4"));
    assert(strs(r@) =~= supported_list());
    r
}

/// `n / 1 MiB`.
pub open spec fn mib(n: nat) -> nat {
    n / 1048576
}

/// How many leading bytes of the source to read, given its length when
/// known, and the notes that choice gives.
pub open spec fn prefix_plan(len: Option<u64>, max_scan_bytes: usize) -> (u64, Seq<Seq<char>>) {
    let limit = at_least(max_scan_bytes, 1048576);
    let read_len: u64 = match len {
        Some(l) => if l < limit { l } else { limit as u64 },
        None => limit as u64,
    };
    let size_notes: Seq<Seq<char>> = match len {
        Some(l) => if l > limit {
            seq!["源文件大于 "@ + dec(mib(limit as nat)) + " MiB，本次仅扫描前 "@ + dec(mib(limit as nat)) + " MiB。"@]
        } else {
            Seq::empty()
        },
        None => seq!["无法读取源文件元数据，已按上限读取前 "@ + dec(mib(limit as nat)) + " MiB。"@],
    };
    (read_len, if read_len == 0 { size_notes.push("源文件为空。"@) } else { size_notes })
}

/// Decides how many leading bytes of the source to read (none when zero).
pub fn prefix_read_len(len: Option<u64>, max_scan_bytes: usize, notes: &mut Vec<String>) -> (r: u64)
    ensures
        r == prefix_plan(len, max_scan_bytes).0,
        strs(final(notes)@) == strs(old(notes)@) + prefix_plan(len, max_scan_bytes).1,
{
    let limit = raise_to(max_scan_bytes, 1048576);
    let ghost n0 = strs(notes@);
    let read_len: u64 = match len {
        Some(l) => if l < limit as u64 { l } else { limit as u64 },
        None => limit as u64,
    };
    let m = (limit / 1048576) as u64;
    match len {
        Some(l) => {
            if l > limit as u64 {
                let mut n = String::new();
                push_str(&mut n, "源文件大于 ");
                push_dec(&mut n, m);
                push_str(&mut n, " MiB，本次仅扫描前 ");
                push_dec(&mut n, m);
                push_str(&mut n, " MiB。");
                push_note(notes, n);
            }
        },
        None => {
            let mut n = String::new();
            push_str(&mut n, "无法读取源文件元数据，已按上限读取前 ");
            push_dec(&mut n, m);
            push_str(&mut n, " MiB。");
            push_note(notes, n);
        },
    }
    let ghost n1 = strs(notes@);
    if read_len == 0 {
        push_note(notes, owned("源文件为空。"));
    }
    assert(strs(notes@) =~= n0 + prefix_plan(len, max_scan_bytes).1);
    read_len
}

/// The bytes read from the source, unless there are none.
pub fn accept_prefix(buffer: Vec<u8>, notes: &mut Vec<String>) -> (r: Option<Vec<u8>>)
    ensures
        buffer@.len() == 0 ==> r is None && strs(final(notes)@) == strs(old(notes)@).push("源文件为空。"@),
        buffer@.len() > 0 ==> r == Some(buffer) && final(notes)@ == old(notes)@,
{
    if buffer.len() == 0 {
        push_note(notes, owned("源文件为空。"));
        None
    } else {
        Some(buffer)
    }
}

/// The note for a detector that reached the item limit.
pub open spec fn limit_notes(truncated: bool, label: Seq<char>, max_items: nat) -> Seq<Seq<char>> {
    if truncated {
        seq!["签名 "@ + label + " 命中数量达到上限 "@ + dec(max_items) + "。"@]
    } else {
        Seq::empty()
    }
}

/// Items and notes of all detectors run over `d`, after the notes `pre`.
pub open spec fn carve_all(d: Seq<u8>, cfg: CarverConfig, pre: Seq<Seq<char>>) -> (Seq<ItemModel>, Seq<Seq<char>>) {
    let max = at_least(cfg.max_items_per_signature, 1) as nat;
    let sp = sig_models(cfg);
    let r0 = sig_scan(d, sp[0], max, 0, Seq::empty());
    let r1 = sig_scan(d, sp[1], max, 0, Seq::empty());
    let r2 = sig_scan(d, sp[2], max, 0, Seq::empty());
    let r3 = sqlite_scan(d, max, at_least(cfg.sqlite_fallback_size_bytes, 4096) as nat, 0, Seq::empty());
    let r4 = zip_scan(d, max, at_least(cfg.zip_search_window_bytes, 1024) as nat, 0, Seq::empty());
    let r5 = mp4_scan(d, max, at_least(cfg.mp4_search_window_bytes, 1024) as nat, 0, Seq::empty());
    let items = r0.0 + r1.0 + r2.0 + r3.0 + r4.0 + r5.0;
    let notes = pre + limit_notes(r0.1, "jpg"@, max) + limit_notes(r1.1, "png"@, max) + limit_notes(r2.1, "pdf"@, max)
        + limit_notes(r3.1, "sqlite"@, max) + limit_notes(r4.1, "office-zip"@, max) + limit_notes(r5.1, "mp4"@, max);
    (items, if items.len() == 0 { notes.push("在当前扫描范围内未发现签名命中。"@) } else { notes })
}

/// A header whose first footer in its window gives a span below the minimum
/// size does not stop the scan: the scan goes on from the byte after that
/// header as if the short span were not there.
pub proof fn law_short_span_skipped(
    d: Seq<u8>,
    sp: SigModel,
    max_items: nat,
    cursor: int,
    acc: Seq<ItemModel>,
    start: int,
    fe: int,
)
    requires
        0 <= cursor,
        cursor + sp.header.len() <= d.len(),
        first_occ(d, sp.header, cursor, d.len() as int) == Some(start),
        start + sp.header.len() < min_int(start + sp.max_size, d.len() as int),
        first_occ(d, sp.footer, start + sp.header.len(), min_int(start + sp.max_size, d.len() as int)) == Some(fe),
        fe + sp.footer.len() - start < sp.min_size,
    ensures
        sig_scan(d, sp, max_items, cursor, acc) == sig_scan(d, sp, max_items, start + 1, acc),
{
}

/// A header whose first footer in its window gives a span of at least the
/// minimum size is carved: the next item starts at the header, ends after
/// the footer, and the scan goes on after the footer.
pub proof fn law_full_span_carved(
    d: Seq<u8>,
    sp: SigModel,
    max_items: nat,
    cursor: int,
    acc: Seq<ItemModel>,
    start: int,
    fe: int,
)
    requires
        0 <= cursor,
        cursor + sp.header.len() <= d.len(),
        d.len() <= u64::MAX,
        first_occ(d, sp.header, cursor, d.len() as int) == Some(start),
        start + sp.header.len() < min_int(start + sp.max_size, d.len() as int),
        first_occ(d, sp.footer, start + sp.header.len(), min_int(start + sp.max_size, d.len() as int)) == Some(fe),
        fe + sp.footer.len() - start >= sp.min_size,
        acc.len() + 1 < max_items,
    ensures
        sig_scan(d, sp, max_items, cursor, acc).0.len() > acc.len(),
        sig_scan(d, sp, max_items, cursor, acc).0[acc.len() as int].source_offset == Some(start as u64),
        sig_scan(d, sp, max_items, cursor, acc).0[acc.len() as int].size_bytes == Some(
            (fe + sp.footer.len() - start) as u64,
        ),
        sig_scan(d, sp, max_items, cursor, acc).0[acc.len() as int].category == "signature-carved"@,
{
    lemma_first_occ(d, sp.header, cursor, d.len() as int);
    lemma_first_occ(d, sp.footer, start + sp.header.len(), min_int(start + sp.max_size, d.len() as int));
    let it = carved_item(
        sp.kind + " 签名命中"@,
        sp.ext,
        acc.len() + 1,
        start as nat,
        (fe + sp.footer.len() - start) as nat,
        85,
    );
    let acc2 = acc.push(it);
    let end = fe + sp.footer.len();
    lemma_sig_scan_prefix(d, sp, max_items, end, acc2);
    assert(acc2[acc.len() as int] == it);
}

proof fn lemma_sig_scan_prefix(d: Seq<u8>, sp: SigModel, max_items: nat, cursor: int, acc: Seq<ItemModel>)
    ensures
        sig_scan(d, sp, max_items, cursor, acc).0.len() >= acc.len(),
        forall|i: int| 0 <= i < acc.len() ==> sig_scan(d, sp, max_items, cursor, acc).0[i] == acc[i],
    decreases d.len() - cursor,
{
    if !(cursor < 0 || cursor + sp.header.len() > d.len()) {
        lemma_first_occ(d, sp.header, cursor, d.len() as int);
        match first_occ(d, sp.header, cursor, d.len() as int) {
            None => {},
            Some(start) => {
                let ss = start + sp.header.len();
                let se = min_int(start + sp.max_size, d.len() as int);
                if ss < se {
                    lemma_first_occ(d, sp.footer, ss, se);
                    match first_occ(d, sp.footer, ss, se) {
                        None => {
                            lemma_sig_scan_prefix(d, sp, max_items, start + 1, acc);
                        },
                        Some(fe) => {
                            let end = fe + sp.footer.len();
                            let size = end - start;
                            if size < sp.min_size {
                                lemma_sig_scan_prefix(d, sp, max_items, start + 1, acc);
                            } else {
                                let it = carved_item(sp.kind + " 签名命中"@, sp.ext, acc.len() + 1, start as nat, size as nat, 85);
                                let acc2 = acc.push(it);
                                if acc2.len() < max_items {
                                    lemma_sig_scan_prefix(d, sp, max_items, end, acc2);
                                    assert forall|i: int| 0 <= i < acc.len() implies sig_scan(d, sp, max_items, cursor, acc).0[i] == acc[i] by {
                                        assert(acc2[i] == acc[i]);
                                    }
                                } else {
                                    assert forall|i: int| 0 <= i < acc.len() implies sig_scan(d, sp, max_items, cursor, acc).0[i] == acc[i] by {
                                        assert(acc2[i] == acc[i]);
                                    }
                                }
                            }
                        },
                    }
                }
            },
        }
    }
}

/// A carved item whose coordinates lie within the first `n` bytes.
pub open spec fn item_in_range(it: ItemModel, n: nat) -> bool {
    it.source_offset matches Some(o) && it.size_bytes matches Some(s) && o + s <= n
}

/// Every item lies within the first `n` bytes.
pub open spec fn carved_within(items: Seq<ItemModel>, n: nat) -> bool {
    forall|i: int| 0 <= i < items.len() ==> #[trigger] item_in_range(items[i], n)
}

/// A detector's result keeps what came before, gives at most `max_items`
/// items, and reports the limit exactly when it gave that many.
pub open spec fn limited(r: (Seq<ItemModel>, bool), acc: Seq<ItemModel>, max_items: nat) -> bool {
    &&& acc.len() <= r.0.len() <= max_items
    &&& (r.1 <==> r.0.len() == max_items)
    &&& r.0.subrange(0, acc.len() as int) == acc
}

proof fn lemma_push_kept(r: (Seq<ItemModel>, bool), acc: Seq<ItemModel>, it: ItemModel, max_items: nat, n: nat)
    requires
        limited(r, acc.push(it), max_items),
        carved_within(r.0, n),
    ensures
        limited(r, acc, max_items),
{
    assert(r.0.subrange(0, acc.len() as int) =~= r.0.subrange(0, acc.len() as int + 1).subrange(0, acc.len() as int));
    assert(acc.push(it).subrange(0, acc.len() as int) =~= acc);
}

proof fn lemma_push_within(acc: Seq<ItemModel>, it: ItemModel, n: nat)
    requires
        carved_within(acc, n),
        item_in_range(it, n),
    ensures
        carved_within(acc.push(it), n),
{
    assert forall|i: int| 0 <= i < acc.push(it).len() implies #[trigger] item_in_range(acc.push(it)[i], n) by {
        if i < acc.len() {
            assert(acc.push(it)[i] == acc[i]);
        }
    }
}

proof fn lemma_sig_scan_bounded(d: Seq<u8>, sp: SigModel, max_items: nat, cursor: int, acc: Seq<ItemModel>)
    requires
        d.len() <= u64::MAX,
        carved_within(acc, d.len()),
        acc.len() < max_items,
    ensures
        carved_within(sig_scan(d, sp, max_items, cursor, acc).0, d.len()),
        limited(sig_scan(d, sp, max_items, cursor, acc), acc, max_items),
    decreases d.len() - cursor,
{
    let r = sig_scan(d, sp, max_items, cursor, acc);
    if cursor < 0 || cursor + sp.header.len() > d.len() {
        assert(r.0.subrange(0, acc.len() as int) =~= acc);
        return;
    }
    lemma_first_occ(d, sp.header, cursor, d.len() as int);
    match first_occ(d, sp.header, cursor, d.len() as int) {
        None => {
            assert(r.0.subrange(0, acc.len() as int) =~= acc);
        },
        Some(start) => {
            let ss = start + sp.header.len();
            let se = min_int(start + sp.max_size, d.len() as int);
            if ss >= se {
                assert(r.0.subrange(0, acc.len() as int) =~= acc);
            } else {
                lemma_first_occ(d, sp.footer, ss, se);
                match first_occ(d, sp.footer, ss, se) {
                    None => {
                        lemma_sig_scan_bounded(d, sp, max_items, start + 1, acc);
                    },
                    Some(fe) => {
                        let end = fe + sp.footer.len();
                        let size = end - start;
                        if size < sp.min_size {
                            lemma_sig_scan_bounded(d, sp, max_items, start + 1, acc);
                        } else {
                            let it = carved_item(sp.kind + " 签名命中"@, sp.ext, acc.len() + 1, start as nat, size as nat, 85);
                            let acc2 = acc.push(it);
                            assert(item_in_range(it, d.len()));
                            lemma_push_within(acc, it, d.len());
                            if acc2.len() >= max_items {
                                assert(r.0.subrange(0, acc.len() as int) =~= acc);
                            } else {
                                lemma_sig_scan_bounded(d, sp, max_items, end, acc2);
                                lemma_push_kept(r, acc, it, max_items, d.len());
                            }
                        }
                    },
                }
            }
        },
    }
}

proof fn lemma_sqlite_scan_bounded(d: Seq<u8>, max_items: nat, fallback: nat, cursor: int, acc: Seq<ItemModel>)
    requires
        d.len() <= u64::MAX,
        carved_within(acc, d.len()),
        acc.len() < max_items,
    ensures
        carved_within(sqlite_scan(d, max_items, fallback, cursor, acc).0, d.len()),
        limited(sqlite_scan(d, max_items, fallback, cursor, acc), acc, max_items),
    decreases d.len() - cursor,
{
    let r = sqlite_scan(d, max_items, fallback, cursor, acc);
    if cursor < 0 || cursor + 16 > d.len() {
        assert(r.0.subrange(0, acc.len() as int) =~= acc);
        return;
    }
    lemma_first_occ(d, sqlite_magic(), cursor, d.len() as int);
    match first_occ(d, sqlite_magic(), cursor, d.len() as int) {
        None => {
            assert(r.0.subrange(0, acc.len() as int) =~= acc);
        },
        Some(start) => {
            if start + 100 > d.len() {
                assert(r.0.subrange(0, acc.len() as int) =~= acc);
            } else {
                let raw = be_at(d, start + 16, 2);
                let page = if raw == 1 { 65536 } else { raw };
                let prod = page * be_at(d, start + 28, 4);
                let sz = if prod == 0 { fallback } else { prod };
                let size = min_int(start + sz, d.len() as int) - start;
                let it = carved_item("sqlite 签名命中"@, "sqlite"@, acc.len() + 1, start as nat, size as nat, 88);
                let acc2 = acc.push(it);
                assert(item_in_range(it, d.len()));
                lemma_push_within(acc, it, d.len());
                if acc2.len() >= max_items {
                    assert(r.0.subrange(0, acc.len() as int) =~= acc);
                } else {
                    lemma_sqlite_scan_bounded(d, max_items, fallback, start + 1, acc2);
                    lemma_push_kept(r, acc, it, max_items, d.len());
                }
            }
        },
    }
}

proof fn lemma_zip_scan_bounded(d: Seq<u8>, max_items: nat, window: nat, cursor: int, acc: Seq<ItemModel>)
    requires
        d.len() <= u64::MAX,
        carved_within(acc, d.len()),
        acc.len() < max_items,
    ensures
        carved_within(zip_scan(d, max_items, window, cursor, acc).0, d.len()),
        limited(zip_scan(d, max_items, window, cursor, acc), acc, max_items),
    decreases d.len() - cursor,
{
    let r = zip_scan(d, max_items, window, cursor, acc);
    if cursor < 0 || cursor + 4 > d.len() {
        assert(r.0.subrange(0, acc.len() as int) =~= acc);
        return;
    }
    lemma_first_occ(d, zip_local_magic(), cursor, d.len() as int);
    match first_occ(d, zip_local_magic(), cursor, d.len() as int) {
        None => {
            assert(r.0.subrange(0, acc.len() as int) =~= acc);
        },
        Some(start) => {
            let se = min_int(start + window, d.len() as int);
            lemma_first_occ(d, zip_eocd_magic(), start, se);
            match first_occ(d, zip_eocd_magic(), start, se) {
                None => {
                    lemma_zip_scan_bounded(d, max_items, window, start + 1, acc);
                },
                Some(eo) => {
                    let end = eo + 4;
                    if first_occ(d, content_types_name(), start, end) is None {
                        lemma_zip_scan_bounded(d, max_items, window, start + 1, acc);
                    } else {
                        let ext = if first_occ(d, xl_dir(), start, end) is Some { "xlsx"@ } else { "docx"@ };
                        let it = carved_item(ext + " 压缩包签名命中"@, ext, acc.len() + 1, start as nat, (end - start) as nat, 86);
                        let acc2 = acc.push(it);
                        assert(item_in_range(it, d.len()));
                        lemma_push_within(acc, it, d.len());
                        if acc2.len() >= max_items {
                            assert(r.0.subrange(0, acc.len() as int) =~= acc);
                        } else {
                            lemma_zip_scan_bounded(d, max_items, window, end, acc2);
                            lemma_push_kept(r, acc, it, max_items, d.len());
                        }
                    }
                },
            }
        },
    }
}

proof fn lemma_mp4_scan_bounded(d: Seq<u8>, max_items: nat, window: nat, cursor: int, acc: Seq<ItemModel>)
    requires
        d.len() <= u64::MAX,
        carved_within(acc, d.len()),
        acc.len() < max_items,
    ensures
        carved_within(mp4_scan(d, max_items, window, cursor, acc).0, d.len()),
        limited(mp4_scan(d, max_items, window, cursor, acc), acc, max_items),
    decreases d.len() - cursor,
{
    let r = mp4_scan(d, max_items, window, cursor, acc);
    if cursor < 0 || cursor + 12 > d.len() {
        assert(r.0.subrange(0, acc.len() as int) =~= acc);
        return;
    }
    lemma_first_occ(d, ftyp_tag(), cursor, d.len() as int);
    match first_occ(d, ftyp_tag(), cursor, d.len() as int) {
        None => {
            assert(r.0.subrange(0, acc.len() as int) =~= acc);
        },
        Some(fp) => {
            if fp < 4 {
                lemma_mp4_scan_bounded(d, max_items, window, fp + 1, acc);
            } else {
                let start = fp - 4;
                let se = min_int(start + window, d.len() as int);
                match mp4_range(d, start, se) {
                    None => {
                        lemma_mp4_scan_bounded(d, max_items, window, fp + 1, acc);
                    },
                    Some((end, pay)) => {
                        lemma_mp4_walk(d, start, se, start, false, false);
                        if !pay || end <= start {
                            lemma_mp4_scan_bounded(d, max_items, window, fp + 1, acc);
                        } else {
                            let it = carved_item("mp4 盒结构命中"@, "mp4"@, acc.len() + 1, start as nat, (end - start) as nat, 84);
                            let acc2 = acc.push(it);
                            assert(item_in_range(it, d.len()));
                            lemma_push_within(acc, it, d.len());
                            if acc2.len() >= max_items {
                                assert(r.0.subrange(0, acc.len() as int) =~= acc);
                            } else {
                                lemma_mp4_scan_bounded(d, max_items, window, end, acc2);
                                lemma_push_kept(r, acc, it, max_items, d.len());
                            }
                        }
                    },
                }
            }
        },
    }
}

proof fn lemma_concat_within(a: Seq<ItemModel>, b: Seq<ItemModel>, n: nat)
    requires
        carved_within(a, n),
        carved_within(b, n),
    ensures
        carved_within(a + b, n),
{
    assert forall|i: int| 0 <= i < (a + b).len() implies #[trigger] item_in_range((a + b)[i], n) by {
        if i < a.len() {
            assert((a + b)[i] == a[i]);
        } else {
            assert((a + b)[i] == b[i - a.len()]);
        }
    }
}

/// Every carved candidate lies within the bytes that were scanned, so its
/// offset and size locate bytes of the source.
pub proof fn law_carved_items_within_source(d: Seq<u8>, cfg: CarverConfig, pre: Seq<Seq<char>>)
    requires
        d.len() <= u64::MAX,
    ensures
        carved_within(carve_all(d, cfg, pre).0, d.len()),
{
    let max = at_least(cfg.max_items_per_signature, 1) as nat;
    let sp = sig_models(cfg);
    let e = Seq::<ItemModel>::empty();
    assert(carved_within(e, d.len()));
    lemma_sig_scan_bounded(d, sp[0], max, 0, e);
    lemma_sig_scan_bounded(d, sp[1], max, 0, e);
    lemma_sig_scan_bounded(d, sp[2], max, 0, e);
    lemma_sqlite_scan_bounded(d, max, at_least(cfg.sqlite_fallback_size_bytes, 4096) as nat, 0, e);
    lemma_zip_scan_bounded(d, max, at_least(cfg.zip_search_window_bytes, 1024) as nat, 0, e);
    lemma_mp4_scan_bounded(d, max, at_least(cfg.mp4_search_window_bytes, 1024) as nat, 0, e);
    let r0 = sig_scan(d, sp[0], max, 0, e);
    let r1 = sig_scan(d, sp[1], max, 0, e);
    let r2 = sig_scan(d, sp[2], max, 0, e);
    let r3 = sqlite_scan(d, max, at_least(cfg.sqlite_fallback_size_bytes, 4096) as nat, 0, e);
    let r4 = zip_scan(d, max, at_least(cfg.zip_search_window_bytes, 1024) as nat, 0, e);
    let r5 = mp4_scan(d, max, at_least(cfg.mp4_search_window_bytes, 1024) as nat, 0, e);
    lemma_concat_within(r0.0, r1.0, d.len());
    lemma_concat_within(r0.0 + r1.0, r2.0, d.len());
    lemma_concat_within(r0.0 + r1.0 + r2.0, r3.0, d.len());
    lemma_concat_within(r0.0 + r1.0 + r2.0 + r3.0, r4.0, d.len());
    lemma_concat_within(r0.0 + r1.0 + r2.0 + r3.0 + r4.0, r5.0, d.len());
}

/// Each detector gives at most the configured number of items per
/// signature, and its limit note appears exactly when it gave that many.
pub proof fn law_detector_item_limit(d: Seq<u8>, cfg: CarverConfig)
    requires
        d.len() <= u64::MAX,
    ensures
        ({
            let max = at_least(cfg.max_items_per_signature, 1) as nat;
            let sp = sig_models(cfg);
            let e = Seq::<ItemModel>::empty();
            &&& limited(sig_scan(d, sp[0], max, 0, e), e, max)
            &&& limited(sig_scan(d, sp[1], max, 0, e), e, max)
            &&& limited(sig_scan(d, sp[2], max, 0, e), e, max)
            &&& limited(sqlite_scan(d, max, at_least(cfg.sqlite_fallback_size_bytes, 4096) as nat, 0, e), e, max)
            &&& limited(zip_scan(d, max, at_least(cfg.zip_search_window_bytes, 1024) as nat, 0, e), e, max)
            &&& limited(mp4_scan(d, max, at_least(cfg.mp4_search_window_bytes, 1024) as nat, 0, e), e, max)
        }),
{
    let max = at_least(cfg.max_items_per_signature, 1) as nat;
    let sp = sig_models(cfg);
    let e = Seq::<ItemModel>::empty();
    assert(carved_within(e, d.len()));
    lemma_sig_scan_bounded(d, sp[0], max, 0, e);
    lemma_sig_scan_bounded(d, sp[1], max, 0, e);
    lemma_sig_scan_bounded(d, sp[2], max, 0, e);
    lemma_sqlite_scan_bounded(d, max, at_least(cfg.sqlite_fallback_size_bytes, 4096) as nat, 0, e);
    lemma_zip_scan_bounded(d, max, at_least(cfg.zip_search_window_bytes, 1024) as nat, 0, e);
    lemma_mp4_scan_bounded(d, max, at_least(cfg.mp4_search_window_bytes, 1024) as nat, 0, e);
}

fn note_limit(notes: &mut Vec<String>, truncated: bool, label: &str, max_items: usize)
    ensures
        strs(final(notes)@) == strs(old(notes)@) + limit_notes(truncated, label@, max_items as nat),
{
    if truncated {
        let mut n = String::new();
        push_str(&mut n, "签名 ");
        push_str(&mut n, label);
        push_str(&mut n, " 命中数量达到上限 ");
        push_dec(&mut n, max_items as u64);
        push_str(&mut n, "。");
        push_note(notes, n);
    }
    assert(strs(notes@) =~= strs(old(notes)@) + limit_notes(truncated, label@, max_items as nat));
}

fn append_items(all: &mut Vec<RecoverableItem>, found: Vec<RecoverableItem>)
    ensures
        item_views(final(all)@) == item_views(old(all)@) + item_views(found@),
{
    let mut found = found;
    let ghost f = item_views(found@);
    all.append(&mut found);
    assert(item_views(all@) =~= item_views(old(all)@) + f);
}

/// Runs every detector over the leading bytes `data` of the source.
pub fn carve_bytes(data: &[u8], cfg: &CarverConfig, notes: Vec<String>) -> (r: (Vec<RecoverableItem>, Vec<String>))
    ensures
        (item_views(r.0@), strs(r.1@)) == carve_all(data@, *cfg, strs(notes@)),
{
    let max = raise_to(cfg.max_items_per_signature, 1);
    let specs = signature_specs(cfg);
    let mut notes = notes;
    let mut items: Vec<RecoverableItem> = Vec::new();
    let (f0, t0) = carve_signature(data, &specs[0], max);
    append_items(&mut items, f0);
    note_limit(&mut notes, t0, specs[0].ext, max);
    let (f1, t1) = carve_signature(data, &specs[1], max);
    append_items(&mut items, f1);
    note_limit(&mut notes, t1, specs[1].ext, max);
    let (f2, t2) = carve_signature(data, &specs[2], max);
    append_items(&mut items, f2);
    note_limit(&mut notes, t2, specs[2].ext, max);
    let (f3, t3) = carve_sqlite(data, max, raise_to(cfg.sqlite_fallback_size_bytes, 4096));
    append_items(&mut items, f3);
    note_limit(&mut notes, t3, "sqlite", max);
    let (f4, t4) = carve_zip_office(data, max, raise_to(cfg.zip_search_window_bytes, 1024));
    append_items(&mut items, f4);
    note_limit(&mut notes, t4, "office-zip", max);
    let (f5, t5) = carve_mp4(data, max, raise_to(cfg.mp4_search_window_bytes, 1024));
    append_items(&mut items, f5);
    note_limit(&mut notes, t5, "mp4", max);
    if items.len() == 0 {
        push_note(&mut notes, owned("在当前扫描范围内未发现签名命中。"));
    }
    proof {
        let e: Seq<ItemModel> = Seq::empty();
        assert(e + item_views(f0@) =~= item_views(f0@));
    }
    (items, notes)
}

/// The signature carver.
#[derive(Debug, Default)]
pub struct SignatureCarver;

impl SignatureCarver {
    /// Carves the source of `request`. `source_is_dir` tells whether the
    /// source is a directory; `prefix` holds its leading bytes when they were
    /// read (only for an enabled request on a non-directory source), and
    /// `read_notes` what reading them noted.
    pub fn carve(
        &self,
        request: &ScanRequest,
        source_is_dir: bool,
        prefix: Option<Vec<u8>>,
        read_notes: Vec<String>,
        cfg: &CarverConfig,
    ) -> (r: CarveResult)
        ensures
            !request.include_carving ==> {
                &&& !r.enabled
                &&& r.signatures@.len() == 0
                &&& r.carved_candidates == 0
                &&& strs(r.notes@) == seq!["本次任务未启用签名雕刻。"@]
                &&& r.items@.len() == 0
            },
            request.include_carving && source_is_dir ==> {
                &&& r.enabled
                &&& strs(r.signatures@) == supported_list()
                &&& r.carved_candidates == 0
                &&& strs(r.notes@) == seq!["签名雕刻需要原始镜像/设备文件，目录类型源已跳过。"@]
                &&& r.items@.len() == 0
            },
            request.include_carving && !source_is_dir && prefix is None ==> {
                &&& r.enabled
                &&& strs(r.signatures@) == supported_list()
                &&& r.carved_candidates == 0
                &&& r.notes@ == read_notes@
                &&& r.items@.len() == 0
            },
            request.include_carving && !source_is_dir && prefix is Some ==> {
                let all = carve_all(prefix.unwrap()@, *cfg, strs(read_notes@));
                &&& r.enabled
                &&& strs(r.signatures@) == supported_list()
                &&& item_views(r.items@) == all.0
                &&& r.carved_candidates == all.0.len()
                &&& strs(r.notes@) == all.1
            },
    {
        if !request.include_carving {
            let mut notes: Vec<String> = Vec::new();
            push_note(&mut notes, owned("本次任务未启用签名雕刻。"));
            assert(strs(notes@) =~= seq!["本次任务未启用签名雕刻。"@]);
            return CarveResult {
                enabled: false,
                signatures: Vec::new(),
                carved_candidates: 0,
                notes,
                items: Vec::new(),
            };
        }
        if source_is_dir {
            let mut notes: Vec<String> = Vec::new();
            push_note(&mut notes, owned("签名雕刻需要原始镜像/设备文件，目录类型源已跳过。"));
            assert(strs(notes@) =~= seq!["签名雕刻需要原始镜像/设备文件，目录类型源已跳过。"@]);
            return CarveResult {
                enabled: true,
                signatures: supported_signatures(),
                carved_candidates: 0,
                notes,
                items: Vec::new(),
            };
        }
        match prefix {
            None => CarveResult {
                enabled: true,
                signatures: supported_signatures(),
                carved_candidates: 0,
                notes: read_notes,
                items: Vec::new(),
            },
            Some(bytes) => {
                let (items, notes) = carve_bytes(bytes.as_slice(), cfg, read_notes);
                CarveResult {
                    enabled: true,
                    signatures: supported_signatures(),
                    carved_candidates: items.len() as u64,
                    notes,
                    items,
                }
            },
        }
    }
}

} // verus!
