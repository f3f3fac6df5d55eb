//! Character-level building blocks shared by the formatters: decimal
//! rendering, column padding, path joining and whitespace trimming.

use vstd::prelude::*;
use vstd::string::*;

verus! {

/// The ten decimal digits, in order.
pub open spec fn digits() -> Seq<char> {
    seq!['0', '1', '2', '3', '4', '5', '6', '7', '8', '9']
}

/// Decimal rendering of a natural number, without leading zeros.
pub open spec fn decimal(n: nat) -> Seq<char>
    decreases n,
{
    if n < 10 {
        seq![digits()[n as int]]
    } else {
        decimal(n / 10).push(digits()[(n % 10) as int])
    }
}

/// `n` spaces.
pub open spec fn spaces(n: nat) -> Seq<char> {
    Seq::new(n, |i: int| ' ')
}

/// `s` left-aligned in a column of `width` characters (`{:<width}`).
pub open spec fn pad_right(s: Seq<char>, width: nat) -> Seq<char> {
    if s.len() < width { s + spaces((width - s.len()) as nat) } else { s }
}

/// `s` right-aligned in a column of `width` characters (`{:>width}`).
pub open spec fn pad_left(s: Seq<char>, width: nat) -> Seq<char> {
    if s.len() < width { spaces((width - s.len()) as nat) + s } else { s }
}

/// The path conventions of a platform.
#[derive(Clone, Copy, Debug, PartialEq, Eq, Structural)]
pub enum PathStyle {
    /// `/` separates components.
    Unix,
    /// `\` separates components, `/` is accepted too, and a path may start
    /// with a drive such as `C:`.
    Windows,
}

/// The separator a style puts between components.
pub open spec fn main_sep(style: PathStyle) -> char {
    match style {
        PathStyle::Unix => '/',
        PathStyle::Windows => '\\',
    }
}

/// Whether `c` separates components in `style`.
pub open spec fn is_sep(c: char, style: PathStyle) -> bool {
    c == '/' || (style == PathStyle::Windows && c == '\\')
}

/// Whether `s` starts with a drive letter and a colon, as `C:`.
pub open spec fn has_drive(s: Seq<char>) -> bool {
    &&& s.len() >= 2
    &&& s[1] == ':'
    &&& (('A' <= s[0] && s[0] <= 'Z') || ('a' <= s[0] && s[0] <= 'z'))
}

/// Appending one path component `name` to a base path, as `PathBuf::join`
/// does for a component without a drive of its own: a component starting
/// with a separator replaces the base (on Windows keeping the base's
/// drive); otherwise the style's separator goes between the two unless the
/// base is empty, already ends in a separator, or (on Windows) is a bare
/// drive such as `C:`.
pub open spec fn path_join(base: Seq<char>, name: Seq<char>, style: PathStyle) -> Seq<char> {
    if name.len() > 0 && is_sep(name[0], style) {
        if style == PathStyle::Windows && has_drive(base) {
            base.subrange(0, 2) + name
        } else {
            name
        }
    } else if base.len() > 0 && !is_sep(base.last(), style) && !(style == PathStyle::Windows && base.len()
        == 2 && has_drive(base)) {
        base + seq![main_sep(style)] + name
    } else {
        base + name
    }
}

/// Unicode `White_Space` characters, the set that `str::trim` strips.
pub open spec fn is_white(c: char) -> bool {
    ||| ('\u{9}' <= c && c <= '\u{d}')
    ||| c == ' '
    ||| c == '\u{85}'
    ||| c == '\u{a0}'
    ||| c == '\u{1680}'
    ||| ('\u{2000}' <= c && c <= '\u{200a}')
    ||| c == '\u{2028}'
    ||| c == '\u{2029}'
    ||| c == '\u{202f}'
    ||| c == '\u{205f}'
    ||| c == '\u{3000}'
}

/// `s` without its leading whitespace.
pub open spec fn trim_start(s: Seq<char>) -> Seq<char>
    decreases s.len(),
{
    if s.len() > 0 && is_white(s[0]) { trim_start(s.drop_first()) } else { s }
}

/// `s` without its trailing whitespace.
pub open spec fn trim_end(s: Seq<char>) -> Seq<char>
    decreases s.len(),
{
    if s.len() > 0 && is_white(s.last()) { trim_end(s.drop_last()) } else { s }
}

/// `s` without leading or trailing whitespace (`str::trim`).
pub open spec fn trim(s: Seq<char>) -> Seq<char> {
    trim_end(trim_start(s))
}

/// ASCII lower-casing of one character; every other character is kept.
pub open spec fn lower_char(c: char) -> char {
    if 'A' <= c && c <= 'Z' { ((c as int) + 32) as char } else { c }
}

/// ASCII lower-casing of a string (`str::to_ascii_lowercase`).
pub open spec fn ascii_lower(s: Seq<char>) -> Seq<char> {
    s.map_values(|c: char| lower_char(c))
}

/// One decimal digit as a one-character string.
pub fn digit_of(d: u128) -> (res: &'static str)
    requires
        d < 10,
    ensures
        res@ == seq![digits()[d as int]],
{
    let all = "0123456789";
    proof {
        reveal_strlit("0123456789");
    }
    let i = d as usize;
    let s = all.substring_char(i, i + 1);
    assert(s@ =~= seq![digits()[d as int]]);
    s
}

/// Decimal rendering of `n`.
pub fn decimal_string(n: u128) -> (res: String)
    ensures
        res@ == decimal(n as nat),
    decreases n,
{
    if n < 10 {
        String::from_str(digit_of(n))
    } else {
        let mut s = decimal_string(n / 10);
        s.append(digit_of(n % 10));
        s
    }
}

/// Appends `n` spaces to `s`.
pub fn push_spaces(s: &mut String, n: usize)
    ensures
        final(s)@ == old(s)@ + spaces(n as nat),
{
    let sp = " ";
    proof {
        reveal_strlit(" ");
    }
    let mut i: usize = 0;
    while i < n
        invariant
            i <= n,
            sp@ == seq![' '],
            s@ == old(s)@ + spaces(i as nat),
        decreases n - i,
    {
        s.append(sp);
        i = i + 1;
        assert(s@ =~= old(s)@ + spaces(i as nat));
    }
}

/// `s` left-aligned in a column of `width` characters.
pub fn padded_right(s: &str, width: usize) -> (res: String)
    ensures
        res@ == pad_right(s@, width as nat),
{
    let len = s.unicode_len();
    let mut out = String::from_str(s);
    if len < width {
        push_spaces(&mut out, width - len);
    }
    out
}

/// `s` right-aligned in a column of `width` characters.
pub fn padded_left(s: &str, width: usize) -> (res: String)
    ensures
        res@ == pad_left(s@, width as nat),
{
    let len = s.unicode_len();
    let mut out = String::new();
    if len < width {
        push_spaces(&mut out, width - len);
    }
    out.append(s);
    proof {
        if len >= width {
            assert(out@ =~= s@);
        }
    }
    out
}

fn is_sep_exec(c: char, style: PathStyle) -> (res: bool)
    ensures
        res == is_sep(c, style),
{
    c == '/' || (style == PathStyle::Windows && c == '\\')
}

fn has_drive_exec(s: &str) -> (res: bool)
    ensures
        res == has_drive(s@),
{
    if s.unicode_len() < 2 {
        return false;
    }
    let d = s.get_char(0);
    s.get_char(1) == ':' && (('A' <= d && d <= 'Z') || ('a' <= d && d <= 'z'))
}

/// Joins one component onto a base path in the conventions of `style`.
pub fn join(base: &str, name: &str, style: PathStyle) -> (res: String)
    ensures
        res@ == path_join(base@, name@, style),
{
    let nlen = name.unicode_len();
    let blen = base.unicode_len();
    if nlen > 0 && is_sep_exec(name.get_char(0), style) {
        if style == PathStyle::Windows && has_drive_exec(base) {
            let mut out = String::from_str(base.substring_char(0, 2));
            out.append(name);
            return out;
        }
        return String::from_str(name);
    }
    let mut out = String::from_str(base);
    if blen > 0 && !is_sep_exec(base.get_char(blen - 1), style) && !(style == PathStyle::Windows && blen == 2
        && has_drive_exec(base)) {
        match style {
            PathStyle::Unix => {
                let sep = "/";
                proof {
                    reveal_strlit("/");
                }
                out.append(sep);
            },
            PathStyle::Windows => {
                let sep = "\\";
                proof {
                    reveal_strlit("\\");
                }
                out.append(sep);
            },
        }
    }
    out.append(name);
    out
}

/// Calls `std::path::MAIN_SEPARATOR`, the separator of the platform the
/// program runs on. Nothing is stated of it here; [`style_of`] says what
/// each separator means.
#[verifier::external_body]
fn main_separator() -> (res: char) {
    std::path::MAIN_SEPARATOR
}

/// The path style whose separator is `sep`: `\` is Windows, anything else
/// Unix.
pub fn style_of(sep: char) -> (res: PathStyle)
    ensures
        res == (if sep == '\\' { PathStyle::Windows } else { PathStyle::Unix }),
{
    if sep == '\\' { PathStyle::Windows } else { PathStyle::Unix }
}

/// The path style of the platform the program runs on.
pub fn current_style() -> (res: PathStyle) {
    style_of(main_separator())
}

proof fn lemma_trim_start_step(s: Seq<char>, i: int)
    requires
        0 <= i < s.len(),
        is_white(s[i]),
    ensures
        trim_start(s.subrange(i, s.len() as int)) == trim_start(s.subrange(i + 1, s.len() as int)),
{
    assert(s.subrange(i, s.len() as int).drop_first() =~= s.subrange(i + 1, s.len() as int));
}

proof fn lemma_trim_end_step(s: Seq<char>, j: int)
    requires
        0 < j <= s.len(),
        is_white(s[j - 1]),
    ensures
        trim_end(s.subrange(0, j)) == trim_end(s.subrange(0, j - 1)),
{
    assert(s.subrange(0, j).drop_last() =~= s.subrange(0, j - 1));
}

/// The character bounds `(start, end)` of `s` with surrounding whitespace
/// removed: `trim(s) == s[start..end]`.
pub fn trim_bounds(s: &str) -> (res: (usize, usize))
    ensures
        res.0 <= res.1 <= s@.len(),
        trim(s@) == s@.subrange(res.0 as int, res.1 as int),
{
    let n = s.unicode_len();
    let mut i: usize = 0;
    assert(s@.subrange(0, n as int) =~= s@);
    while i < n && is_white_exec(s.get_char(i))
        invariant
            i <= n,
            n == s@.len(),
            trim_start(s@) == trim_start(s@.subrange(i as int, n as int)),
        decreases n - i,
    {
        proof {
            lemma_trim_start_step(s@, i as int);
        }
        i = i + 1;
    }
    let ghost t = s@.subrange(i as int, n as int);
    assert(trim_start(s@) == t);
    let mut j: usize = n;
    assert(t.subrange(0, (j - i) as int) =~= t);
    while j > i && is_white_exec(s.get_char(j - 1))
        invariant
            i <= j <= n,
            n == s@.len(),
            t == s@.subrange(i as int, n as int),
            trim_end(t) == trim_end(t.subrange(0, (j - i) as int)),
        decreases j,
    {
        proof {
            assert(t[(j - i) - 1] == s@[j - 1]);
            lemma_trim_end_step(t, (j - i) as int);
        }
        j = j - 1;
    }
    assert(t.subrange(0, (j - i) as int) =~= s@.subrange(i as int, j as int));
    (i, j)
}

/// Whether `c` is a Unicode whitespace character.
pub fn is_white_exec(c: char) -> (res: bool)
    ensures
        res == is_white(c),
{
    ('\u{9}' <= c && c <= '\u{d}') || c == ' ' || c == '\u{85}' || c == '\u{a0}'
        || c == '\u{1680}' || ('\u{2000}' <= c && c <= '\u{200a}') || c == '\u{2028}'
        || c == '\u{2029}' || c == '\u{202f}' || c == '\u{205f}' || c == '\u{3000}'
}

/// ASCII lower-casing of one character.
pub fn lower_char_exec(c: char) -> (res: char)
    ensures
        res == lower_char(c),
{
    if 'A' <= c && c <= 'Z' {
        ((c as u8) + 32) as char
    } else {
        c
    }
}

} // verus!

verus! {

/// Whether the ASCII lower-cased characters `start..end` of `s` spell `lit`.
pub fn lowered_range_eq(s: &str, start: usize, end: usize, lit: &str) -> (res: bool)
    requires
        start <= end <= s@.len(),
    ensures
        res == (ascii_lower(s@.subrange(start as int, end as int)) == lit@),
{
    let ghost sub = ascii_lower(s@.subrange(start as int, end as int));
    let n = lit.unicode_len();
    if end - start != n {
        assert(sub.len() != lit@.len());
        return false;
    }
    let mut k: usize = 0;
    while k < n
        invariant
            k <= n,
            n == lit@.len(),
            end - start == n,
            start <= end <= s@.len(),
            sub == ascii_lower(s@.subrange(start as int, end as int)),
            forall|m: int| 0 <= m < k ==> sub[m] == lit@[m],
        decreases n - k,
    {
        let c = lower_char_exec(s.get_char(start + k));
        if c != lit.get_char(k) {
            assert(sub[k as int] != lit@[k as int]);
            return false;
        }
        k = k + 1;
    }
    assert(sub =~= lit@);
    true
}

} // verus!

verus! {

/// Whether two strings hold the same characters.
pub fn same_text(a: &str, b: &str) -> (res: bool)
    ensures
        res == (a@ == b@),
{
    let n = a.unicode_len();
    if n != b.unicode_len() {
        return false;
    }
    let mut k: usize = 0;
    while k < n
        invariant
            k <= n,
            n == a@.len(),
            n == b@.len(),
            forall|m: int| 0 <= m < k ==> a@[m] == b@[m],
        decreases n - k,
    {
        if a.get_char(k) != b.get_char(k) {
            return false;
        }
        k = k + 1;
    }
    assert(a@ =~= b@);
    true
}

} // verus!

verus! {

/// `p` is a prefix of `s`.
pub open spec fn has_prefix(s: Seq<char>, p: Seq<char>) -> bool {
    s.len() >= p.len() && s.subrange(0, p.len() as int) == p
}

/// Whether `s` starts with `p`.
pub fn starts_with_text(s: &str, p: &str) -> (res: bool)
    ensures
        res == has_prefix(s@, p@),
{
    let n = s.unicode_len();
    let m = p.unicode_len();
    if n < m {
        return false;
    }
    same_text(s.substring_char(0, m), p)
}

/// `s` with every `--` replaced by `/`, matching left to right without
/// overlap (`str::replace("--", "/")`).
pub open spec fn replace_dashes(s: Seq<char>) -> Seq<char>
    decreases s.len(),
{
    if s.len() == 0 {
        s
    } else if s.len() >= 2 && s[0] == '-' && s[1] == '-' {
        seq!['/'] + replace_dashes(s.skip(2))
    } else {
        seq![s[0]] + replace_dashes(s.skip(1))
    }
}

/// `s` with every `--` replaced by `/`.
pub fn replaced_dashes(s: &str) -> (res: String)
    ensures
        res@ == replace_dashes(s@),
{
    let n = s.unicode_len();
    let mut out = String::new();
    let mut i: usize = 0;
    proof {
        assert(s@.skip(0) =~= s@);
    }
    while i < n
        invariant
            i <= n,
            n == s@.len(),
            replace_dashes(s@) == out@ + replace_dashes(s@.skip(i as int)),
        decreases n - i,
    {
        let ghost rest = s@.skip(i as int);
        if i + 1 < n && s.get_char(i) == '-' && s.get_char(i + 1) == '-' {
            let slash = "/";
            proof {
                reveal_strlit("/");
                assert(rest.skip(2) =~= s@.skip(i + 2));
                assert(out@ + slash@ + replace_dashes(s@.skip(i + 2)) =~= out@ + (seq!['/'] + replace_dashes(rest.skip(2))));
            }
            out.append(slash);
            i = i + 2;
        } else {
            let c = s.substring_char(i, i + 1);
            proof {
                assert(rest.skip(1) =~= s@.skip(i + 1));
                assert(c@ =~= seq![rest[0]]);
                assert(out@ + c@ + replace_dashes(s@.skip(i + 1)) =~= out@ + (seq![rest[0]] + replace_dashes(rest.skip(1))));
            }
            out.append(c);
            i = i + 1;
        }
    }
    proof {
        assert(s@.skip(i as int) =~= Seq::<char>::empty());
        assert(out@ + Seq::<char>::empty() =~= out@);
    }
    out
}

} // verus!

verus! {

/// The parts with `sep` between each neighbouring pair.
pub open spec fn joined(parts: Seq<Seq<char>>, sep: Seq<char>) -> Seq<char>
    decreases parts.len(),
{
    if parts.len() == 0 {
        Seq::empty()
    } else if parts.len() == 1 {
        parts[0]
    } else {
        joined(parts.drop_last(), sep) + sep + parts.last()
    }
}

/// The strings of `parts` with `sep` between each neighbouring pair.
pub fn join_with(parts: &Vec<String>, sep: &str) -> (res: String)
    ensures
        res@ == joined(parts@.map_values(|s: String| s@), sep@),
{
    let ghost all = parts@.map_values(|s: String| s@);
    let mut out = String::new();
    let mut i: usize = 0;
    while i < parts.len()
        invariant
            i <= parts@.len(),
            all == parts@.map_values(|s: String| s@),
            out@ == joined(all.subrange(0, i as int), sep@),
        decreases parts@.len() - i,
    {
        if i > 0 {
            out.append(sep);
        }
        out.append(parts[i].as_str());
        proof {
            let prefix = all.subrange(0, i + 1);
            assert(prefix.drop_last() =~= all.subrange(0, i as int));
            if i == 0 {
                assert(all.subrange(0, 0) =~= Seq::<Seq<char>>::empty());
            }
        }
        i = i + 1;
    }
    assert(all.subrange(0, i as int) =~= all);
    out
}

} // verus!
