//! Character classification and string building shared by every module.
//!
//! Strings are modelled by their character sequences (`s@`), and every
//! helper here states its result over those sequences.
use vstd::prelude::*;

verus! {

/// Unicode `White_Space` property (the set `str::trim` strips).
pub open spec fn is_ws(c: char) -> bool {
    let v = c as u32;
    ||| (0x09 <= v && v <= 0x0D)
    ||| v == 0x20
    ||| v == 0x85
    ||| v == 0xA0
    ||| v == 0x1680
    ||| (0x2000 <= v && v <= 0x200A)
    ||| v == 0x2028
    ||| v == 0x2029
    ||| v == 0x202F
    ||| v == 0x205F
    ||| v == 0x3000
}

/// Unicode general category `Cc` (what `char::is_control` accepts).
pub open spec fn is_ctrl(c: char) -> bool {
    let v = c as u32;
    v <= 0x1F || (0x7F <= v && v <= 0x9F)
}

pub open spec fn is_ascii_upper(c: char) -> bool {
    'A' <= c && c <= 'Z'
}

pub open spec fn is_ascii_lower(c: char) -> bool {
    'a' <= c && c <= 'z'
}

pub open spec fn is_ascii_digit(c: char) -> bool {
    '0' <= c && c <= '9'
}

pub open spec fn is_ascii_alpha(c: char) -> bool {
    is_ascii_upper(c) || is_ascii_lower(c)
}

pub open spec fn is_ascii_alnum(c: char) -> bool {
    is_ascii_alpha(c) || is_ascii_digit(c)
}

/// `char::to_ascii_lowercase`.
pub open spec fn lower(c: char) -> char {
    if is_ascii_upper(c) { ((c as u32) + 32) as char } else { c }
}

/// `char::to_ascii_uppercase`.
pub open spec fn upper(c: char) -> char {
    if is_ascii_lower(c) { ((c as u32) - 32) as char } else { c }
}

pub open spec fn lower_seq(s: Seq<char>) -> Seq<char> {
    s.map_values(|c: char| lower(c))
}

pub open spec fn upper_seq(s: Seq<char>) -> Seq<char> {
    s.map_values(|c: char| upper(c))
}

/// `s` with leading white space removed.
pub open spec fn trim_start(s: Seq<char>) -> Seq<char>
    decreases s.len(),
{
    if s.len() > 0 && is_ws(s[0]) {
        trim_start(s.drop_first())
    } else {
        s
    }
}

/// The characters stripped from the end: spaces and dots when `dots`, white space otherwise.
pub open spec fn stripped(c: char, dots: bool) -> bool {
    if dots { c == ' ' || c == '.' } else { is_ws(c) }
}

/// `s` with trailing characters in the strip set removed.
pub open spec fn trim_end_by(s: Seq<char>, dots: bool) -> Seq<char>
    decreases s.len(),
{
    if s.len() > 0 && stripped(s.last(), dots) {
        trim_end_by(s.drop_last(), dots)
    } else {
        s
    }
}

pub open spec fn trim_end(s: Seq<char>) -> Seq<char> {
    trim_end_by(s, false)
}

/// `str::trim`.
pub open spec fn trim(s: Seq<char>) -> Seq<char> {
    trim_end(trim_start(s))
}

/// Trimming the start keeps a suffix.
pub proof fn lemma_trim_start_suffix(s: Seq<char>)
    ensures
        trim_start(s).len() <= s.len(),
        trim_start(s) == s.subrange(s.len() - trim_start(s).len(), s.len() as int),
    decreases s.len(),
{
    if s.len() > 0 && is_ws(s[0]) {
        lemma_trim_start_suffix(s.drop_first());
        let t = trim_start(s.drop_first());
        assert(s.drop_first().subrange(s.len() - 1 - t.len(), s.len() - 1) =~= s.subrange(
            s.len() - t.len(),
            s.len() as int,
        ));
    } else {
        assert(s.subrange(0, s.len() as int) =~= s);
    }
}

/// Trimming the end keeps a prefix whose last character is not stripped.
pub proof fn lemma_trim_end_prefix(s: Seq<char>, dots: bool)
    ensures
        trim_end_by(s, dots).len() <= s.len(),
        trim_end_by(s, dots) == s.subrange(0, trim_end_by(s, dots).len() as int),
        trim_end_by(s, dots).len() > 0 ==> !stripped(trim_end_by(s, dots).last(), dots),
    decreases s.len(),
{
    if s.len() > 0 && stripped(s.last(), dots) {
        lemma_trim_end_prefix(s.drop_last(), dots);
        let t = trim_end_by(s.drop_last(), dots);
        assert(s.drop_last().subrange(0, t.len() as int) =~= s.subrange(0, t.len() as int));
    } else {
        assert(s.subrange(0, s.len() as int) =~= s);
    }
}

pub open spec fn starts_with(s: Seq<char>, p: Seq<char>) -> bool {
    p.len() <= s.len() && s.subrange(0, p.len() as int) == p
}

pub open spec fn ends_with(s: Seq<char>, p: Seq<char>) -> bool {
    p.len() <= s.len() && s.subrange(s.len() - p.len(), s.len() as int) == p
}

/// `p` occurs in `s` starting at index `i`.
pub open spec fn occurs_at<T>(s: Seq<T>, p: Seq<T>, i: int) -> bool {
    0 <= i && i + p.len() <= s.len() && s.subrange(i, i + p.len()) == p
}

/// `str::contains` with a string pattern (an empty pattern is always found).
pub open spec fn contains_seq<T>(s: Seq<T>, p: Seq<T>) -> bool {
    exists|i: int| occurs_at(s, p, i)
}

pub open spec fn digit_char(d: nat) -> char {
    if d == 0 { '0' }
    else if d == 1 { '1' }
    else if d == 2 { '2' }
    else if d == 3 { '3' }
    else if d == 4 { '4' }
    else if d == 5 { '5' }
    else if d == 6 { '6' }
    else if d == 7 { '7' }
    else if d == 8 { '8' }
    else { '9' }
}

/// Decimal representation of `n`, as `{}` formats an unsigned integer.
pub open spec fn dec(n: nat) -> Seq<char>
    decreases n,
{
    if n < 10 {
        seq![digit_char(n)]
    } else {
        dec(n / 10).push(digit_char(n % 10))
    }
}

/// The value of a decimal digit character (0 for any other character).
pub open spec fn digit_value(c: char) -> nat {
    if c == '1' { 1 }
    else if c == '2' { 2 }
    else if c == '3' { 3 }
    else if c == '4' { 4 }
    else if c == '5' { 5 }
    else if c == '6' { 6 }
    else if c == '7' { 7 }
    else if c == '8' { 8 }
    else if c == '9' { 9 }
    else { 0 }
}

/// The number a string of decimal digits reads as.
pub open spec fn digits_value(s: Seq<char>) -> nat
    decreases s.len(),
{
    if s.len() == 0 { 0 } else { digits_value(s.drop_last()) * 10 + digit_value(s.last()) }
}

/// Reading the decimal form of `n` gives `n` back.
pub proof fn lemma_dec_value(n: nat)
    ensures
        digits_value(dec(n)) == n,
    decreases n,
{
    let d = n % 10;
    assert(digit_value(digit_char(d)) == d);
    if n >= 10 {
        lemma_dec_value(n / 10);
        assert(dec(n).drop_last() =~= dec(n / 10));
        assert(dec(n).last() == digit_char(d));
        assert((n / 10) * 10 + d == n);
        assert(digits_value(dec(n)) == digits_value(dec(n / 10)) * 10 + digit_value(digit_char(d)));
    } else {
        assert(d == n);
        assert(seq![digit_char(n)].drop_last() =~= Seq::<char>::empty());
        assert(digits_value(Seq::<char>::empty()) == 0);
        assert(digits_value(dec(n)) == digits_value(Seq::<char>::empty()) * 10 + digit_value(digit_char(n)));
    }
}

proof fn lemma_zeros_value(k: nat, s: Seq<char>)
    ensures
        digits_value(repeat_char('0', k) + s) == digits_value(s),
    decreases s.len(), k,
{
    if s.len() > 0 {
        assert((repeat_char('0', k) + s).drop_last() =~= repeat_char('0', k) + s.drop_last());
        lemma_zeros_value(k, s.drop_last());
    } else if k > 0 {
        assert((repeat_char('0', k) + s).drop_last() =~= repeat_char('0', (k - 1) as nat) + s);
        lemma_zeros_value((k - 1) as nat, s);
    } else {
        assert(repeat_char('0', k) + s =~= Seq::<char>::empty());
    }
}

/// Reading the zero-padded decimal form of `n` gives `n` back.
pub proof fn lemma_dec_padded_value(n: nat, width: nat)
    ensures
        digits_value(dec_padded(n, width)) == n,
{
    lemma_dec_value(n);
    if dec(n).len() < width {
        lemma_zeros_value((width - dec(n).len()) as nat, dec(n));
    }
}

/// `width` copies of `c`.
pub open spec fn repeat_char(c: char, width: nat) -> Seq<char> {
    Seq::new(width, |i: int| c)
}

/// Decimal representation of `n` left-padded with zeros to `width`, as `{:0width$}` formats it.
pub open spec fn dec_padded(n: nat, width: nat) -> Seq<char> {
    if dec(n).len() >= width {
        dec(n)
    } else {
        repeat_char('0', (width - dec(n).len()) as nat) + dec(n)
    }
}

/// Calls `String::push`; claimed: the string afterwards is the string
/// before with `c` appended at its end.
#[verifier::external_body]
pub(crate) fn push_char(s: &mut String, c: char)
    ensures
        final(s)@ == old(s)@.push(c),
{
    s.push(c);
}

/// The characters of `s`, in order.
pub fn str_chars(s: &str) -> (r: Vec<char>)
    ensures
        r@ == s@,
{
    broadcast use vstd::string::axiom_spec_iter;
    let mut out: Vec<char> = Vec::new();
    for c in it: s.chars()
        invariant
            it.seq() == s@,
            out@ == it.seq().take(it.index() as int),
    {
        out.push(c);
    }
    out
}

/// Builds a string from a character slice.
pub fn string_from_chars(cs: &[char]) -> (r: String)
    ensures
        r@ == cs@,
{
    let mut out = String::new();
    let mut i: usize = 0;
    while i < cs.len()
        invariant
            i <= cs.len(),
            out@ == cs@.subrange(0, i as int),
        decreases cs.len() - i,
    {
        push_char(&mut out, cs[i]);
        i += 1;
        assert(out@ =~= cs@.subrange(0, i as int));
    }
    assert(cs@.subrange(0, cs@.len() as int) =~= cs@);
    out
}

/// Owned copy of a string slice.
pub fn owned(s: &str) -> (r: String)
    ensures
        r@ == s@,
{
    let mut out = String::new();
    out.append(s);
    assert(out@ =~= s@);
    out
}

pub fn char_is_whitespace(c: char) -> (r: bool)
    ensures
        r == is_ws(c),
{
    let v = c as u32;
    (0x09 <= v && v <= 0x0D) || v == 0x20 || v == 0x85 || v == 0xA0 || v == 0x1680 || (0x2000
        <= v && v <= 0x200A) || v == 0x2028 || v == 0x2029 || v == 0x202F || v == 0x205F || v
        == 0x3000
}

pub fn char_is_control(c: char) -> (r: bool)
    ensures
        r == is_ctrl(c),
{
    let v = c as u32;
    v <= 0x1F || (0x7F <= v && v <= 0x9F)
}

pub fn char_is_ascii_alphabetic(c: char) -> (r: bool)
    ensures
        r == is_ascii_alpha(c),
{
    ('A' <= c && c <= 'Z') || ('a' <= c && c <= 'z')
}

pub fn char_is_ascii_alphanumeric(c: char) -> (r: bool)
    ensures
        r == is_ascii_alnum(c),
{
    ('A' <= c && c <= 'Z') || ('a' <= c && c <= 'z') || ('0' <= c && c <= '9')
}

pub fn char_to_lower(c: char) -> (r: char)
    ensures
        r == lower(c),
{
    if 'A' <= c && c <= 'Z' {
        let b = (c as u8) + 32;
        assert(b as u32 == (c as u32) + 32);
        b as char
    } else {
        c
    }
}

pub fn char_to_upper(c: char) -> (r: char)
    ensures
        r == upper(c),
{
    if 'a' <= c && c <= 'z' {
        let b = (c as u8) - 32;
        b as char
    } else {
        c
    }
}


pub fn digit(d: u64) -> (r: char)
    requires
        d < 10,
    ensures
        r == digit_char(d as nat),
{
    if d == 0 { '0' }
    else if d == 1 { '1' }
    else if d == 2 { '2' }
    else if d == 3 { '3' }
    else if d == 4 { '4' }
    else if d == 5 { '5' }
    else if d == 6 { '6' }
    else if d == 7 { '7' }
    else if d == 8 { '8' }
    else { '9' }
}

/// Appends the decimal representation of `n`.
pub fn push_dec(s: &mut String, n: u64)
    ensures
        final(s)@ == old(s)@ + dec(n as nat),
    decreases n,
{
    if n >= 10 {
        push_dec(s, n / 10);
    }
    push_char(s, digit(n % 10));
    assert(final(s)@ =~= old(s)@ + dec(n as nat));
}

/// Number of decimal digits of `n`.
pub fn dec_len(n: u64) -> (r: u64)
    ensures
        r == dec(n as nat).len(),
        1 <= r <= n + 1,
    decreases n,
{
    if n < 10 {
        1
    } else {
        1 + dec_len(n / 10)
    }
}

/// Appends `n` in decimal, left-padded with zeros to `width` characters.
pub fn push_dec_padded(s: &mut String, n: u64, width: usize)
    ensures
        final(s)@ == old(s)@ + dec_padded(n as nat, width as nat),
{
    let len = dec_len(n);
    if len < width as u64 {
        let mut i: u64 = 0;
        while i < width as u64 - len
            invariant
                len < width,
                i <= width - len,
                len == dec(n as nat).len(),
                s@ == old(s)@ + repeat_char('0', i as nat),
            decreases width - len - i,
        {
            push_char(s, '0');
            i += 1;
            assert(s@ =~= old(s)@ + repeat_char('0', i as nat));
        }
    }
    let ghost mid = s@;
    push_dec(s, n);
    assert(s@ =~= old(s)@ + dec_padded(n as nat, width as nat));
}

/// Appends a string slice.
pub fn push_str(s: &mut String, t: &str)
    ensures
        final(s)@ == old(s)@ + t@,
{
    s.append(t);
}

/// Index of the first character that is not white space (or `cs.len()`).
pub fn first_non_ws(cs: &Vec<char>) -> (r: usize)
    ensures
        r <= cs.len(),
        trim_start(cs@) == cs@.subrange(r as int, cs@.len() as int),
{
    let mut i: usize = 0;
    assert(cs@.subrange(0, cs@.len() as int) =~= cs@);
    while i < cs.len() && char_is_whitespace(cs[i])
        invariant
            i <= cs.len(),
            trim_start(cs@) == trim_start(cs@.subrange(i as int, cs@.len() as int)),
        decreases cs.len() - i,
    {
        assert(cs@.subrange(i as int, cs@.len() as int).drop_first() =~= cs@.subrange(
            i + 1,
            cs@.len() as int,
        ));
        i += 1;
    }
    assert(trim_start(cs@.subrange(i as int, cs@.len() as int)) == cs@.subrange(
        i as int,
        cs@.len() as int,
    ));
    i
}

fn is_stripped(c: char, dots: bool) -> (r: bool)
    ensures
        r == stripped(c, dots),
{
    if dots { c == ' ' || c == '.' } else { char_is_whitespace(c) }
}

/// End of `cs[lo..hi]` once trailing characters in the strip set are removed.
pub fn trim_end_len(cs: &Vec<char>, lo: usize, hi: usize, dots: bool) -> (r: usize)
    requires
        lo <= hi <= cs.len(),
    ensures
        lo <= r <= hi,
        trim_end_by(cs@.subrange(lo as int, hi as int), dots) == cs@.subrange(lo as int, r as int),
{
    let mut j = hi;
    while j > lo && is_stripped(cs[j - 1], dots)
        invariant
            lo <= j <= hi <= cs.len(),
            trim_end_by(cs@.subrange(lo as int, hi as int), dots) == trim_end_by(
                cs@.subrange(lo as int, j as int),
                dots,
            ),
        decreases j,
    {
        assert(cs@.subrange(lo as int, j as int).drop_last() =~= cs@.subrange(
            lo as int,
            j - 1,
        ));
        j -= 1;
    }
    j
}

/// `str::trim`, returning an owned string.
pub fn trim_string(s: &str) -> (r: String)
    ensures
        r@ == trim(s@),
{
    let cs = str_chars(s);
    let a = first_non_ws(&cs);
    let b = trim_end_len(&cs, a, cs.len(), false);
    assert(cs@.subrange(a as int, cs@.len() as int) =~= cs@.subrange(a as int, cs@.len() as int));
    let mut out = String::new();
    let mut i = a;
    while i < b
        invariant
            a <= i <= b <= cs.len(),
            out@ == cs@.subrange(a as int, i as int),
        decreases b - i,
    {
        push_char(&mut out, cs[i]);
        i += 1;
        assert(out@ =~= cs@.subrange(a as int, i as int));
    }
    out
}

/// `str::to_ascii_lowercase` on a character vector.
pub fn lower_chars(cs: &Vec<char>) -> (r: Vec<char>)
    ensures
        r@ == lower_seq(cs@),
{
    let mut out: Vec<char> = Vec::new();
    let mut i: usize = 0;
    while i < cs.len()
        invariant
            i <= cs.len(),
            out@ == lower_seq(cs@.subrange(0, i as int)),
        decreases cs.len() - i,
    {
        out.push(char_to_lower(cs[i]));
        i += 1;
        assert(out@ =~= lower_seq(cs@.subrange(0, i as int)));
    }
    assert(cs@.subrange(0, cs@.len() as int) =~= cs@);
    out
}

/// Whether `p` occurs in `s` at index `i`.
pub fn chars_occur_at(s: &[char], p: &[char], i: usize) -> (r: bool)
    ensures
        r == occurs_at(s@, p@, i as int),
{
    if i > s.len() || p.len() > s.len() - i {
        return false;
    }
    let mut k: usize = 0;
    while k < p.len()
        invariant
            i + p.len() <= s.len(),
            k <= p.len(),
            forall|j: int| 0 <= j < k ==> s@[i + j] == p@[j],
        decreases p.len() - k,
    {
        if s[i + k] != p[k] {
            assert(s@.subrange(i as int, i + p.len())[k as int] != p@[k as int]);
            return false;
        }
        k += 1;
    }
    assert(s@.subrange(i as int, i + p.len()) =~= p@);
    true
}

/// `str::contains` over character sequences.
pub fn chars_contain(s: &[char], p: &[char]) -> (r: bool)
    ensures
        r == contains_seq(s@, p@),
{
    if p.len() > s.len() {
        return false;
    }
    let n = s.len() - p.len();
    let mut i: usize = 0;
    while i < n
        invariant
            p.len() <= s.len(),
            n == s.len() - p.len(),
            i <= n,
            forall|j: int| 0 <= j < i ==> !occurs_at(s@, p@, j),
        decreases n - i,
    {
        if chars_occur_at(s, p, i) {
            return true;
        }
        i += 1;
    }
    chars_occur_at(s, p, n)
}


/// A leading surrogate (`0xD800..=0xDBFF`).
pub open spec fn is_high_surrogate(w: u16) -> bool {
    0xD800 <= w <= 0xDBFF
}

/// A trailing surrogate (`0xDC00..=0xDFFF`).
pub open spec fn is_low_surrogate(w: u16) -> bool {
    0xDC00 <= w <= 0xDFFF
}

/// The character a surrogate pair encodes.
pub open spec fn surrogate_pair_char(hi: u16, lo: u16) -> char {
    (0x10000 + (hi - 0xD800) * 0x400 + (lo - 0xDC00)) as char
}

/// UTF-16 decoding with each unpaired surrogate replaced by U+FFFD.
pub open spec fn utf16_lossy(words: Seq<u16>) -> Seq<char>
    decreases words.len(),
{
    if words.len() == 0 {
        Seq::empty()
    } else if words.len() >= 2 && is_high_surrogate(words[0]) && is_low_surrogate(words[1]) {
        seq![surrogate_pair_char(words[0], words[1])] + utf16_lossy(words.subrange(2, words.len() as int))
    } else if is_high_surrogate(words[0]) || is_low_surrogate(words[0]) {
        seq!['\u{FFFD}'] + utf16_lossy(words.drop_first())
    } else {
        seq![words[0] as char] + utf16_lossy(words.drop_first())
    }
}

/// Calls `String::from_utf16_lossy`; claimed: the result is the UTF-16
/// decoding of `words`, a surrogate pair giving the character it encodes,
/// any other unit giving the character with its code point, and each
/// unpaired surrogate giving U+FFFD.
#[verifier::external_body]
pub(crate) fn from_utf16_lossy(words: &[u16]) -> (r: String)
    ensures
        r@ == utf16_lossy(words@),
{
    String::from_utf16_lossy(words)
}

/// `s` without its NUL characters.
pub open spec fn remove_nul(s: Seq<char>) -> Seq<char>
    decreases s.len(),
{
    if s.len() == 0 {
        s
    } else if s.last() == '\0' {
        remove_nul(s.drop_last())
    } else {
        remove_nul(s.drop_last()).push(s.last())
    }
}

/// `String::retain(|ch| ch != '\0')`.
pub fn without_nul(s: &String) -> (r: String)
    ensures
        r@ == remove_nul(s@),
{
    let cs = str_chars(s.as_str());
    let mut out = String::new();
    let mut i: usize = 0;
    while i < cs.len()
        invariant
            i <= cs.len(),
            cs@ == s@,
            out@ == remove_nul(cs@.subrange(0, i as int)),
        decreases cs.len() - i,
    {
        assert(cs@.subrange(0, i + 1).drop_last() =~= cs@.subrange(0, i as int));
        if cs[i] != '\0' {
            push_char(&mut out, cs[i]);
        }
        i += 1;
    }
    assert(cs@.subrange(0, cs@.len() as int) =~= cs@);
    out
}


/// The character views of a list of strings.
pub open spec fn strs(v: Seq<String>) -> Seq<Seq<char>> {
    v.map_values(|s: String| s@)
}

pub open spec fn hex_digit(d: nat) -> char {
    if d < 10 { digit_char(d) }
    else if d == 10 { 'A' }
    else if d == 11 { 'B' }
    else if d == 12 { 'C' }
    else if d == 13 { 'D' }
    else if d == 14 { 'E' }
    else { 'F' }
}

/// A byte as two upper-case hexadecimal digits, as `{:02X}` formats it.
pub open spec fn hex2(b: u8) -> Seq<char> {
    seq![hex_digit((b / 16) as nat), hex_digit((b % 16) as nat)]
}

fn hex_digit_exec(d: u8) -> (r: char)
    requires
        d < 16,
    ensures
        r == hex_digit(d as nat),
{
    if d < 10 {
        digit(d as u64)
    } else if d == 10 {
        'A'
    } else if d == 11 {
        'B'
    } else if d == 12 {
        'C'
    } else if d == 13 {
        'D'
    } else if d == 14 {
        'E'
    } else {
        'F'
    }
}

/// Appends a byte as two upper-case hexadecimal digits.
pub fn push_hex2(s: &mut String, b: u8)
    ensures
        final(s)@ == old(s)@ + hex2(b),
{
    push_char(s, hex_digit_exec(b / 16));
    push_char(s, hex_digit_exec(b % 16));
    assert(s@ =~= old(s)@ + hex2(b));
}

/// Appends a string to a list of notes.
pub fn push_note(notes: &mut Vec<String>, s: String)
    ensures
        strs(final(notes)@) == strs(old(notes)@).push(s@),
        final(notes)@.len() == old(notes)@.len() + 1,
{
    notes.push(s);
    assert(strs(notes@) =~= strs(old(notes)@).push(s@));
}

} // verus!
