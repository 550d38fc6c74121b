//! Automatic sub/superscript splitting of plain text runs.
//!
//! A text is cut into segments: chemical formulas get subscript counts and
//! a superscript charge (H2O, SO4 2-), unit exponents become superscript
//! (m2, cm3), and `^X`, `_X`, `^{XX}`, `_{XX}` markers become super- or
//! subscript segments. Each segment is written as one run.

use vstd::prelude::*;
use crate::text::{
    char_alphabetic, char_alphanumeric, char_uppercase, char_lowercase, is_alphabetic,
    is_alphanumeric, is_uppercase, is_lowercase, is_digit, chars_of, push_char, string_of_range, str_eq,
};

verus! {

/// One run of text with an optional vertical alignment.
pub struct Segment {
    pub text: String,
    /// None, Some("superscript") or Some("subscript").
    pub vertical_align: Option<String>,
}

pub struct SegView {
    pub text: Seq<char>,
    pub vertical_align: Option<Seq<char>>,
}

impl View for Segment {
    type V = SegView;

    open spec fn view(&self) -> SegView {
        SegView {
            text: self.text@,
            vertical_align: match self.vertical_align {
                Some(v) => Some(v@),
                None => None,
            },
        }
    }
}

pub open spec fn segs_view(v: Seq<Segment>) -> Seq<SegView> {
    v.map_values(|s: Segment| s@)
}

pub open spec fn plain_seg(s: Seq<char>) -> SegView {
    SegView { text: s, vertical_align: None }
}

pub open spec fn va_seg(va: Seq<char>, s: Seq<char>) -> SegView {
    SegView { text: s, vertical_align: Some(va) }
}

impl Segment {
    /// A segment without vertical alignment.
    pub fn plain(s: &str) -> (r: Self)
        ensures
            r@ == plain_seg(s@),
    {
        Segment { text: String::from_str(s), vertical_align: None }
    }

    /// A segment with vertical alignment `va`.
    pub fn with(va: &str, s: &str) -> (r: Self)
        ensures
            r@ == va_seg(va@, s@),
    {
        Segment { text: String::from_str(s), vertical_align: Some(String::from_str(va)) }
    }
}

pub open spec fn superscript() -> Seq<char> {
    "superscript"@
}

pub open spec fn subscript() -> Seq<char> {
    "subscript"@
}

// ---------------------------------------------------------------------
// Character classes.
// ---------------------------------------------------------------------
pub open spec fn spec_script_char(c: char) -> bool {
    char_alphanumeric(c) || c == '+' || c == '-'
}

pub fn is_script_char(c: char) -> (r: bool)
    ensures
        r == spec_script_char(c),
{
    is_alphanumeric(c) || c == '+' || c == '-'
}

pub open spec fn spec_token_char(c: char) -> bool {
    ||| char_alphanumeric(c)
    ||| c == '(' || c == ')' || c == '[' || c == ']' || c == '{' || c == '}'
    ||| c == '+' || c == '-'
    ||| c == '\u{00b7}' || c == '\u{00b0}' || c == '\u{03bc}' || c == '\u{00b5}'
}

pub fn is_token_char(c: char) -> (r: bool)
    ensures
        r == spec_token_char(c),
{
    is_alphanumeric(c) || c == '(' || c == ')' || c == '[' || c == ']' || c == '{' || c == '}'
        || c == '+' || c == '-' || c == '\u{00b7}' || c == '\u{00b0}' || c == '\u{03bc}'
        || c == '\u{00b5}'
}

pub open spec fn spec_chem_anchor(c: char) -> bool {
    char_alphabetic(c) || c == ')' || c == ']' || c == '}'
}

pub fn is_chem_anchor(c: char) -> (r: bool)
    ensures
        r == spec_chem_anchor(c),
{
    is_alphabetic(c) || c == ')' || c == ']' || c == '}'
}

// ---------------------------------------------------------------------
// Runs.
// ---------------------------------------------------------------------
/// End of the run of characters satisfying `p` that starts at `i`.
pub open spec fn run_end(s: Seq<char>, i: int, p: spec_fn(char) -> bool) -> int
    decreases s.len() - i,
{
    if 0 <= i < s.len() && p(s[i]) {
        run_end(s, i + 1, p)
    } else {
        i
    }
}

pub proof fn lemma_run_end(s: Seq<char>, i: int, p: spec_fn(char) -> bool)
    requires
        0 <= i <= s.len(),
    ensures
        i <= run_end(s, i, p) <= s.len(),
        forall|j: int| i <= j < run_end(s, i, p) ==> p(#[trigger] s[j]),
        run_end(s, i, p) < s.len() ==> !p(s[run_end(s, i, p)]),
    decreases s.len() - i,
{
    if i < s.len() && p(s[i]) {
        lemma_run_end(s, i + 1, p);
    }
}

pub open spec fn not_close_brace() -> spec_fn(char) -> bool {
    |c: char| c != '}'
}

pub open spec fn script_chars() -> spec_fn(char) -> bool {
    |c: char| spec_script_char(c)
}

pub open spec fn token_chars() -> spec_fn(char) -> bool {
    |c: char| spec_token_char(c)
}

pub open spec fn digit_chars() -> spec_fn(char) -> bool {
    |c: char| is_digit(c)
}

// ---------------------------------------------------------------------
// `^X`, `_X`, `^{XX}`, `_{XX}`.
// ---------------------------------------------------------------------
/// The script segment that starts at `i`, and the index after it.
pub open spec fn script_at(s: Seq<char>, i: int) -> Option<(SegView, int)> {
    if i < 0 || i + 1 >= s.len() || (s[i] != '^' && s[i] != '_') {
        None
    } else {
        let va = if s[i] == '^' { superscript() } else { subscript() };
        if s[i + 1] == '{' {
            let end = run_end(s, i + 2, not_close_brace());
            if end >= s.len() || end == i + 2 {
                None
            } else {
                Some((va_seg(va, s.subrange(i + 2, end)), end + 1))
            }
        } else {
            let c = run_end(s, i + 1, script_chars());
            if c == i + 1 {
                None
            } else {
                Some((va_seg(va, s.subrange(i + 1, c)), c))
            }
        }
    }
}

pub proof fn lemma_script_at(s: Seq<char>, i: int)
    requires
        0 <= i < s.len(),
    ensures
        script_at(s, i) matches Some((_, n)) ==> i < n <= s.len(),
{
    if i + 1 < s.len() {
        lemma_run_end(s, i + 2, not_close_brace());
        lemma_run_end(s, i + 1, script_chars());
    }
}

fn run_end_exec_script(v: &Vec<char>, i: usize) -> (r: usize)
    requires
        i <= v@.len(),
    ensures
        r == run_end(v@, i as int, script_chars()),
        i <= r <= v@.len(),
{
    proof {
        lemma_run_end(v@, i as int, script_chars());
    }
    let mut k = i;
    while k < v.len() && is_script_char(v[k])
        invariant
            i <= k <= v@.len(),
            run_end(v@, k as int, script_chars()) == run_end(v@, i as int, script_chars()),
        decreases v.len() - k,
    {
        k += 1;
    }
    k
}

fn run_end_exec_brace(v: &Vec<char>, i: usize) -> (r: usize)
    requires
        i <= v@.len(),
    ensures
        r == run_end(v@, i as int, not_close_brace()),
        i <= r <= v@.len(),
{
    proof {
        lemma_run_end(v@, i as int, not_close_brace());
    }
    let mut k = i;
    while k < v.len() && v[k] != '}'
        invariant
            i <= k <= v@.len(),
            run_end(v@, k as int, not_close_brace()) == run_end(v@, i as int, not_close_brace()),
        decreases v.len() - k,
    {
        k += 1;
    }
    k
}

fn run_end_exec_token(v: &Vec<char>, i: usize) -> (r: usize)
    requires
        i <= v@.len(),
    ensures
        r == run_end(v@, i as int, token_chars()),
        i <= r <= v@.len(),
{
    proof {
        lemma_run_end(v@, i as int, token_chars());
    }
    let mut k = i;
    while k < v.len() && is_token_char(v[k])
        invariant
            i <= k <= v@.len(),
            run_end(v@, k as int, token_chars()) == run_end(v@, i as int, token_chars()),
        decreases v.len() - k,
    {
        k += 1;
    }
    k
}

fn run_end_exec_digit(v: &Vec<char>, i: usize) -> (r: usize)
    requires
        i <= v@.len(),
    ensures
        r == run_end(v@, i as int, digit_chars()),
        i <= r <= v@.len(),
{
    proof {
        lemma_run_end(v@, i as int, digit_chars());
    }
    let mut k = i;
    while k < v.len() && '0' <= v[k] && v[k] <= '9'
        invariant
            i <= k <= v@.len(),
            run_end(v@, k as int, digit_chars()) == run_end(v@, i as int, digit_chars()),
        decreases v.len() - k,
    {
        k += 1;
    }
    k
}

fn seg_with_range(va: &str, v: &Vec<char>, from: usize, to: usize) -> (r: Segment)
    requires
        from <= to <= v@.len(),
    ensures
        r@ == va_seg(va@, v@.subrange(from as int, to as int)),
{
    Segment { text: string_of_range(v, from, to), vertical_align: Some(String::from_str(va)) }
}

/// Reads `^X` / `^{XX}` / `_X` / `_{XX}` at `i`.
fn try_read_script(chars: &Vec<char>, i: usize) -> (r: Option<(Segment, usize)>)
    requires
        i < chars@.len(),
    ensures
        match r {
            Some((seg, next)) => script_at(chars@, i as int) == Some((seg@, next as int)),
            None => script_at(chars@, i as int) is None,
        },
{
    let len = chars.len();
    let marker = chars[i];
    if marker != '^' && marker != '_' {
        return None;
    }
    let start = i + 1;
    if start >= chars.len() {
        return None;
    }
    let c = chars[start];
    let va = if marker == '^' { "superscript" } else { "subscript" };
    if c == '{' {
        let end = run_end_exec_brace(chars, start + 1);
        if end >= chars.len() || end == start + 1 {
            return None;
        }
        Some((seg_with_range(va, chars, start + 1, end), end + 1))
    } else {
        let cursor = run_end_exec_script(chars, start);
        if cursor == start {
            return None;
        }
        Some((seg_with_range(va, chars, start, cursor), cursor))
    }
}

/// Reads the run of token characters at `i`.
fn try_read_token(chars: &Vec<char>, i: usize) -> (r: Option<(String, usize)>)
    requires
        i < chars@.len(),
    ensures
        match r {
            Some((t, next)) => spec_token_char(chars@[i as int])
                && next == run_end(chars@, i as int, token_chars())
                && t@ == chars@.subrange(i as int, next as int),
            None => !spec_token_char(chars@[i as int]),
        },
{
    if !is_token_char(chars[i]) {
        return None;
    }
    let end = run_end_exec_token(chars, i);
    Some((string_of_range(chars, i, end), end))
}


// ---------------------------------------------------------------------
// Chemical formulas.
// ---------------------------------------------------------------------
pub open spec fn has_upper(t: Seq<char>) -> bool {
    exists|j: int| 0 <= j < t.len() && char_uppercase(#[trigger] t[j])
}

pub open spec fn has_digit(t: Seq<char>) -> bool {
    exists|j: int| 0 <= j < t.len() && is_digit(#[trigger] t[j])
}

pub open spec fn has_plus_minus(t: Seq<char>) -> bool {
    exists|j: int| 0 <= j < t.len() && (#[trigger] t[j] == '+' || t[j] == '-')
}

/// Three lowercase letters in a row: an English word, not a formula.
pub open spec fn has_lower_run3(t: Seq<char>) -> bool {
    exists|j: int|
        0 <= j && j + 2 < t.len() && char_lowercase(#[trigger] t[j]) && char_lowercase(t[j + 1])
            && char_lowercase(t[j + 2])
}

/// Start of the trailing run of characters satisfying `p` that ends at `k`.
pub open spec fn run_start(t: Seq<char>, k: int, p: spec_fn(char) -> bool) -> int
    decreases k,
{
    if 0 < k <= t.len() && p(t[k - 1]) {
        run_start(t, k - 1, p)
    } else {
        k
    }
}

proof fn lemma_run_start(t: Seq<char>, k: int, p: spec_fn(char) -> bool)
    requires
        0 <= k <= t.len(),
    ensures
        0 <= run_start(t, k, p) <= k,
    decreases k,
{
    if 0 < k && p(t[k - 1]) {
        lemma_run_start(t, k - 1, p);
    }
}

pub open spec fn plus_minus() -> spec_fn(char) -> bool {
    |c: char| c == '+' || c == '-'
}

/// Where the trailing charge (`\d*[+-]+`) starts, or the length if none.
pub open spec fn charge_start(t: Seq<char>) -> int {
    let pm = run_start(t, t.len() as int, plus_minus());
    if pm < t.len() {
        run_start(t, pm, digit_chars())
    } else {
        t.len() as int
    }
}

/// Segments of a formula core: digits right after a letter or a closing
/// bracket are subscript, everything else is plain.
pub open spec fn chem_core(core: Seq<char>, i: int, plain: Seq<char>, segs: Seq<SegView>) -> Seq<SegView>
    decreases core.len() - i,
{
    if i < 0 || i >= core.len() {
        if plain.len() > 0 {
            segs.push(plain_seg(plain))
        } else {
            segs
        }
    } else if is_digit(core[i]) && i > 0 && spec_chem_anchor(core[i - 1]) {
        let segs1 = if plain.len() > 0 {
            segs.push(plain_seg(plain))
        } else {
            segs
        };
        let e = run_end(core, i, digit_chars());
        proof {
            lemma_run_end(core, i, digit_chars());
        }
        chem_core(core, e, Seq::empty(), segs1.push(va_seg(subscript(), core.subrange(i, e))))
    } else {
        chem_core(core, i + 1, plain.push(core[i]), segs)
    }
}

pub open spec fn any_aligned(segs: Seq<SegView>) -> bool {
    exists|j: int| 0 <= j < segs.len() && (#[trigger] segs[j]).vertical_align is Some
}

/// The chemical split of a token, if it is a formula that gets at least
/// one sub- or superscript.
pub open spec fn chem_split(t: Seq<char>) -> Option<Seq<SegView>> {
    if t.len() == 0 || !has_upper(t) || (!has_digit(t) && !has_plus_minus(t)) || has_lower_run3(t) {
        None
    } else {
        let cs = charge_start(t);
        let core = t.subrange(0, cs);
        let charge = t.subrange(cs, t.len() as int);
        let segs = chem_core(core, 0, Seq::empty(), Seq::empty());
        let segs2 = if charge.len() > 0 {
            segs.push(va_seg(superscript(), charge))
        } else {
            segs
        };
        if any_aligned(segs2) {
            Some(segs2)
        } else {
            None
        }
    }
}


/// A run of digits read in a prefix ends where the full run ends, capped
/// at the prefix length.
proof fn lemma_run_end_prefix(t: Seq<char>, cut: int, i: int)
    requires
        0 <= i < cut <= t.len(),
    ensures
        run_end(t.subrange(0, cut), i, digit_chars()) == if run_end(t, i, digit_chars()) < cut {
            run_end(t, i, digit_chars())
        } else {
            cut
        },
    decreases cut - i,
{
    let p = t.subrange(0, cut);
    assert(p[i] == t[i]);
    if i + 1 < cut && is_digit(t[i]) {
        lemma_run_end_prefix(t, cut, i + 1);
    } else if is_digit(t[i]) {
        lemma_run_end(t, i + 1, digit_chars());
        assert(run_end(p, i + 1, digit_chars()) == cut);
    }
}

fn push_seg(out: &mut Vec<Segment>, seg: Segment)
    ensures
        segs_view(final(out)@) == segs_view(old(out)@).push(seg@),
{
    out.push(seg);
    assert(segs_view(out@) == segs_view(old(out)@).push(seg@));
}

fn flush_plain(segs: &mut Vec<Segment>, plain: String)
    ensures
        segs_view(final(segs)@) == if plain@.len() > 0 {
            segs_view(old(segs)@).push(plain_seg(plain@))
        } else {
            segs_view(old(segs)@)
        },
{
    if plain.as_str().unicode_len() > 0 {
        push_seg(segs, Segment { text: plain, vertical_align: None });
    }
}

/// The chemical-formula split of a token (see `chem_split`).
fn try_split_chemistry(token: &String) -> (r: Option<Vec<Segment>>)
    ensures
        match r {
            Some(v) => chem_split(token@) == Some(segs_view(v@)),
            None => chem_split(token@) is None,
        },
{
    let t = chars_of(token.as_str());
    let n = t.len();
    if n == 0 {
        return None;
    }
    let mut upper = false;
    let mut digit = false;
    let mut pm = false;
    let mut j: usize = 0;
    while j < n
        invariant
            j <= n == t@.len(),
            upper == exists|x: int| 0 <= x < j && char_uppercase(#[trigger] t@[x]),
            digit == exists|x: int| 0 <= x < j && is_digit(#[trigger] t@[x]),
            pm == exists|x: int| 0 <= x < j && (#[trigger] t@[x] == '+' || t@[x] == '-'),
        decreases n - j,
    {
        let c = t[j];
        if is_uppercase(c) {
            upper = true;
        }
        if '0' <= c && c <= '9' {
            digit = true;
        }
        if c == '+' || c == '-' {
            pm = true;
        }
        j += 1;
    }
    if !upper || (!digit && !pm) {
        return None;
    }
    // English-word guard: three lowercase letters in a row.
    let mut lower_run: usize = 0;
    let mut j: usize = 0;
    while j < n
        invariant
            j <= n == t@.len(),
            t@ == token@,
            lower_run <= j,
            lower_run < 3,
            forall|x: int| j - lower_run <= x < j ==> char_lowercase(#[trigger] t@[x]),
            j - lower_run > 0 ==> !char_lowercase(t@[j - lower_run - 1]),
            forall|x: int| 0 <= x && x + 2 < j ==> !(char_lowercase(#[trigger] t@[x]) && char_lowercase(t@[x + 1]) && char_lowercase(t@[x + 2])),
        decreases n - j,
    {
        if is_lowercase(t[j]) {
            lower_run += 1;
            if lower_run >= 3 {
                assert(char_lowercase(t@[j - 2]));
                assert(char_lowercase(t@[j - 1]));
                assert(char_lowercase(t@[j as int]));
                assert(has_lower_run3(t@)) by {
                    let w = j - 2;
                    assert(0 <= w && w + 2 < t@.len() && char_lowercase(t@[w]) && char_lowercase(t@[w + 1]) && char_lowercase(t@[w + 2]));
                }
                assert(t@ == token@);
                assert(chem_split(t@) is None);
                return None;
            }
        } else {
            lower_run = 0;
        }
        j += 1;
    }
    assert(!has_lower_run3(t@));
    // Trailing charge \d*[+-]+.
    let mut k = n;
    while k > 0 && (t[k - 1] == '+' || t[k - 1] == '-')
        invariant
            k <= n == t@.len(),
            run_start(t@, k as int, plus_minus()) == run_start(t@, n as int, plus_minus()),
        decreases k,
    {
        k -= 1;
    }
    let pm_start = k;
    let mut d = pm_start;
    while d > 0 && '0' <= t[d - 1] && t[d - 1] <= '9'
        invariant
            d <= pm_start <= n == t@.len(),
            run_start(t@, d as int, digit_chars()) == run_start(t@, pm_start as int, digit_chars()),
        decreases d,
    {
        d -= 1;
    }
    let charge_at = if pm_start < n { d } else { n };
    assert(charge_at == charge_start(t@));
    let ghost core = t@.subrange(0, charge_at as int);

    let mut segs: Vec<Segment> = Vec::new();
    let mut plain = String::new();
    let mut i: usize = 0;
    let ghost goal = chem_core(core, 0, Seq::empty(), Seq::empty());
    assert(segs_view(segs@) == Seq::<SegView>::empty());
    while i < charge_at
        invariant
            i <= charge_at <= n == t@.len(),
            core == t@.subrange(0, charge_at as int),
            goal == chem_core(core, i as int, plain@, segs_view(segs@)),
        decreases charge_at - i,
    {
        let ch = t[i];
        if '0' <= ch && ch <= '9' && i > 0 && is_chem_anchor(t[i - 1]) {
            let p = plain;
            plain = String::new();
            flush_plain(&mut segs, p);
            let s = i;
            let e0 = run_end_exec_digit(&t, i);
            let e = if e0 < charge_at { e0 } else { charge_at };
            proof {
                lemma_run_end(core, i as int, digit_chars());
                lemma_run_end(t@, i as int, digit_chars());
                lemma_run_end_prefix(t@, charge_at as int, i as int);
            }
            push_seg(&mut segs, seg_with_range("subscript", &t, s, e));
            assert(t@.subrange(s as int, e as int) == core.subrange(s as int, e as int));
            i = e;
            continue;
        }
        push_char(&mut plain, ch);
        i += 1;
    }
    flush_plain(&mut segs, plain);
    if charge_at < n {
        push_seg(&mut segs, seg_with_range("superscript", &t, charge_at, n));
    }
    let mut any = false;
    let mut j: usize = 0;
    while j < segs.len()
        invariant
            j <= segs@.len(),
            any == exists|x: int| 0 <= x < j && (#[trigger] segs_view(segs@)[x]).vertical_align is Some,
        decreases segs.len() - j,
    {
        assert(segs_view(segs@)[j as int] == segs@[j as int]@);
        if segs[j].vertical_align.is_some() {
            any = true;
        }
        j += 1;
    }
    if any {
        Some(segs)
    } else {
        None
    }
}

// ---------------------------------------------------------------------
// Unit exponents.
// ---------------------------------------------------------------------
/// The scientific units that may carry a 2/3 exponent suffix.
pub open spec fn is_unit(u: Seq<char>) -> bool {
    ||| u == "mm"@
    ||| u == "cm"@
    ||| u == "dm"@
    ||| u == "km"@
    ||| u == "nm"@
    ||| u == "um"@
    ||| u == "\u{03bc}m"@
    ||| u == "\u{00b5}m"@
    ||| u == "m"@
    ||| u == "L"@
    ||| u == "mL"@
    ||| u == "\u{03bc}L"@
    ||| u == "\u{00b5}L"@
    ||| u == "g"@
    ||| u == "kg"@
    ||| u == "mg"@
    ||| u == "s"@
    ||| u == "min"@
    ||| u == "h"@
    ||| u == "Hz"@
    ||| u == "kHz"@
    ||| u == "MHz"@
    ||| u == "GHz"@
    ||| u == "Pa"@
    ||| u == "kPa"@
    ||| u == "MPa"@
    ||| u == "V"@
    ||| u == "mV"@
    ||| u == "A"@
    ||| u == "mA"@
    ||| u == "W"@
    ||| u == "kW"@
    ||| u == "J"@
    ||| u == "kJ"@
    ||| u == "N"@
    ||| u == "mol"@
    ||| u == "\u{2103}"@
    ||| u == "\u{00b0}C"@
    ||| u == "K"@
}

fn unit_known(u: &str) -> (r: bool)
    ensures
        r == is_unit(u@),
{
    str_eq(u, "mm")
        || str_eq(u, "cm")
        || str_eq(u, "dm")
        || str_eq(u, "km")
        || str_eq(u, "nm")
        || str_eq(u, "um")
        || str_eq(u, "\u{03bc}m")
        || str_eq(u, "\u{00b5}m")
        || str_eq(u, "m")
        || str_eq(u, "L")
        || str_eq(u, "mL")
        || str_eq(u, "\u{03bc}L")
        || str_eq(u, "\u{00b5}L")
        || str_eq(u, "g")
        || str_eq(u, "kg")
        || str_eq(u, "mg")
        || str_eq(u, "s")
        || str_eq(u, "min")
        || str_eq(u, "h")
        || str_eq(u, "Hz")
        || str_eq(u, "kHz")
        || str_eq(u, "MHz")
        || str_eq(u, "GHz")
        || str_eq(u, "Pa")
        || str_eq(u, "kPa")
        || str_eq(u, "MPa")
        || str_eq(u, "V")
        || str_eq(u, "mV")
        || str_eq(u, "A")
        || str_eq(u, "mA")
        || str_eq(u, "W")
        || str_eq(u, "kW")
        || str_eq(u, "J")
        || str_eq(u, "kJ")
        || str_eq(u, "N")
        || str_eq(u, "mol")
        || str_eq(u, "\u{2103}")
        || str_eq(u, "\u{00b0}C")
        || str_eq(u, "K")
}

/// The unit-exponent split of a token: a known unit followed by 2 or 3.
pub open spec fn unit_split(t: Seq<char>) -> Option<Seq<SegView>> {
    if t.len() < 2 || (t.last() != '2' && t.last() != '3') {
        None
    } else {
        let base = t.drop_last();
        if is_unit(base) {
            Some(seq![plain_seg(base), va_seg(superscript(), seq![t.last()])])
        } else {
            None
        }
    }
}

fn try_split_unit_exponent(token: &String) -> (r: Option<Vec<Segment>>)
    ensures
        match r {
            Some(v) => unit_split(token@) == Some(segs_view(v@)),
            None => unit_split(token@) is None,
        },
{
    let t = chars_of(token.as_str());
    let n = t.len();
    if n < 2 {
        return None;
    }
    let last = t[n - 1];
    if last != '2' && last != '3' {
        return None;
    }
    let base = string_of_range(&t, 0, n - 1);
    assert(t@.subrange(0, n - 1) == t@.drop_last());
    if unit_known(base.as_str()) {
        let mut out: Vec<Segment> = Vec::new();
        let mut sup = String::new();
        push_char(&mut sup, last);
        push_seg(&mut out, Segment { text: base, vertical_align: None });
        push_seg(&mut out, Segment { text: sup, vertical_align: Some(String::from_str("superscript")) });
        assert(segs_view(out@) == seq![plain_seg(t@.drop_last()), va_seg(superscript(), seq![last])]);
        Some(out)
    } else {
        None
    }
}

// ---------------------------------------------------------------------
// The splitter.
// ---------------------------------------------------------------------
pub open spec fn flushed(out: Seq<SegView>, buf: Seq<char>) -> Seq<SegView> {
    if buf.len() > 0 {
        out.push(plain_seg(buf))
    } else {
        out
    }
}

/// The scan of `split` from index `i`, with segments `out` and pending
/// plain text `buf`.
pub open spec fn split_scan(s: Seq<char>, i: int, out: Seq<SegView>, buf: Seq<char>) -> Seq<SegView>
    decreases s.len() - i,
{
    if i < 0 || i >= s.len() {
        flushed(out, buf)
    } else {
        proof {
            lemma_script_at(s, i);
            lemma_run_end(s, i, token_chars());
        }
        match script_at(s, i) {
            Some((seg, next)) => split_scan(s, next, flushed(out, buf).push(seg), Seq::empty()),
            None => if spec_token_char(s[i]) {
                let e = run_end(s, i, token_chars());
                let t = s.subrange(i, e);
                match chem_split(t) {
                    Some(segs) => split_scan(s, e, flushed(out, buf) + segs, Seq::empty()),
                    None => match unit_split(t) {
                        Some(segs) => split_scan(s, e, flushed(out, buf) + segs, Seq::empty()),
                        None => split_scan(s, e, out, buf + t),
                    },
                }
            } else {
                split_scan(s, i + 1, out, buf.push(s[i]))
            },
        }
    }
}

/// The segments of a text; a text that yields none (the empty text) is one
/// plain segment.
pub open spec fn split_spec(s: Seq<char>) -> Seq<SegView> {
    if s.len() == 0 {
        seq![plain_seg(s)]
    } else {
        let r = split_scan(s, 0, Seq::empty(), Seq::empty());
        if r.len() == 0 {
            seq![plain_seg(s)]
        } else {
            r
        }
    }
}

fn flush_buf(out: &mut Vec<Segment>, buf: &mut String)
    ensures
        segs_view(final(out)@) == flushed(segs_view(old(out)@), old(buf)@),
        final(buf)@ == Seq::<char>::empty(),
{
    let mut b = String::new();
    std::mem::swap(buf, &mut b);
    flush_plain(out, b);
}

fn extend_segs(out: &mut Vec<Segment>, segs: Vec<Segment>)
    ensures
        segs_view(final(out)@) == segs_view(old(out)@) + segs_view(segs@),
{
    let ghost before = out@;
    let ghost added = segs@;
    let mut segs = segs;
    out.append(&mut segs);
    assert(out@ == before + added);
    assert(segs_view(out@) == segs_view(before) + segs_view(added));
}

/// Splits a text into segments. Returns at least one segment.
pub fn split(text: &str) -> (r: Vec<Segment>)
    ensures
        segs_view(r@) == split_spec(text@),
        r@.len() >= 1,
{
    let chars = chars_of(text);
    if chars.len() == 0 {
        let mut out: Vec<Segment> = Vec::new();
        push_seg(&mut out, Segment::plain(text));
        return out;
    }
    let mut out: Vec<Segment> = Vec::new();
    let mut buf = String::new();
    let mut i: usize = 0;
    let ghost goal = split_scan(chars@, 0, Seq::empty(), Seq::empty());
    assert(segs_view(out@) == Seq::<SegView>::empty());
    while i < chars.len()
        invariant
            i <= chars@.len(),
            chars@ == text@,
            goal == split_scan(chars@, 0, Seq::empty(), Seq::empty()),
            goal == split_scan(chars@, i as int, segs_view(out@), buf@),
        decreases chars.len() - i,
    {
        proof {
            lemma_script_at(chars@, i as int);
            lemma_run_end(chars@, i as int, token_chars());
        }
        match try_read_script(&chars, i) {
            Some((seg, next)) => {
                flush_buf(&mut out, &mut buf);
                push_seg(&mut out, seg);
                i = next;
                continue;
            },
            None => {},
        }
        match try_read_token(&chars, i) {
            Some((token, next)) => {
                i = next;
                match try_split_chemistry(&token) {
                    Some(segs) => {
                        flush_buf(&mut out, &mut buf);
                        extend_segs(&mut out, segs);
                        continue;
                    },
                    None => {},
                }
                match try_split_unit_exponent(&token) {
                    Some(segs) => {
                        flush_buf(&mut out, &mut buf);
                        extend_segs(&mut out, segs);
                        continue;
                    },
                    None => {},
                }
                buf.append(token.as_str());
                continue;
            },
            None => {},
        }
        push_char(&mut buf, chars[i]);
        i += 1;
    }
    flush_buf(&mut out, &mut buf);
    if out.len() == 0 {
        push_seg(&mut out, Segment::plain(text));
    }
    out
}

// ---------------------------------------------------------------------
// Laws.
// ---------------------------------------------------------------------
/// The texts of the segments, one after another.
pub open spec fn joined(segs: Seq<SegView>) -> Seq<char>
    decreases segs.len(),
{
    if segs.len() == 0 {
        Seq::empty()
    } else {
        joined(segs.drop_last()) + segs.last().text
    }
}

proof fn lemma_joined_append(a: Seq<SegView>, b: Seq<SegView>)
    ensures
        joined(a + b) == joined(a) + joined(b),
    decreases b.len(),
{
    if b.len() == 0 {
        assert(a + b == a);
    } else {
        lemma_joined_append(a, b.drop_last());
        assert((a + b).drop_last() == a + b.drop_last());
        assert((a + b).last() == b.last());
    }
}

proof fn lemma_joined_flushed(out: Seq<SegView>, buf: Seq<char>)
    ensures
        joined(flushed(out, buf)) == joined(out) + buf,
{
    if buf.len() > 0 {
        assert(flushed(out, buf).drop_last() == out);
    } else {
        assert(joined(out) + buf == joined(out));
    }
}

proof fn lemma_chem_core_joined(core: Seq<char>, i: int, plain: Seq<char>, segs: Seq<SegView>)
    requires
        0 <= i <= core.len(),
    ensures
        joined(chem_core(core, i, plain, segs)) == joined(segs) + plain + core.subrange(i, core.len() as int),
    decreases core.len() - i,
{
    if i >= core.len() {
        lemma_joined_flushed(segs, plain);
        assert(core.subrange(i, core.len() as int) == Seq::<char>::empty());
        assert(joined(segs) + plain + Seq::<char>::empty() == joined(segs) + plain);
    } else if is_digit(core[i]) && i > 0 && spec_chem_anchor(core[i - 1]) {
        let segs1 = flushed(segs, plain);
        lemma_run_end(core, i, digit_chars());
        let e = run_end(core, i, digit_chars());
        let segs2 = segs1.push(va_seg(subscript(), core.subrange(i, e)));
        lemma_chem_core_joined(core, e, Seq::empty(), segs2);
        lemma_joined_flushed(segs, plain);
        assert(segs2.drop_last() == segs1);
        assert(core.subrange(i, core.len() as int) == core.subrange(i, e) + core.subrange(e, core.len() as int));
        assert(joined(segs2) + Seq::<char>::empty() + core.subrange(e, core.len() as int) == joined(segs) + plain + core.subrange(i, core.len() as int));
    } else {
        lemma_chem_core_joined(core, i + 1, plain.push(core[i]), segs);
        assert(core.subrange(i, core.len() as int) == seq![core[i]] + core.subrange(i + 1, core.len() as int));
        assert(plain.push(core[i]) == plain + seq![core[i]]);
    }
}

proof fn lemma_chem_split_joined(t: Seq<char>)
    ensures
        chem_split(t) matches Some(segs) ==> joined(segs) == t,
{
    if chem_split(t) is Some {
        let cs = charge_start(t);
        let pm = run_start(t, t.len() as int, plus_minus());
        lemma_run_start(t, t.len() as int, plus_minus());
        if pm < t.len() {
            lemma_run_start(t, pm, digit_chars());
        }
        let core = t.subrange(0, cs);
        let charge = t.subrange(cs, t.len() as int);
        lemma_chem_core_joined(core, 0, Seq::empty(), Seq::empty());
        assert(core.subrange(0, core.len() as int) == core);
        let segs = chem_core(core, 0, Seq::empty(), Seq::empty());
        assert(joined(Seq::<SegView>::empty()) + Seq::<char>::empty() + core == core);
        if charge.len() > 0 {
            assert(segs.push(va_seg(superscript(), charge)).drop_last() == segs);
        }
        assert(core + charge == t);
    }
}

proof fn lemma_unit_split_joined(t: Seq<char>)
    ensures
        unit_split(t) matches Some(segs) ==> joined(segs) == t,
{
    if let Some(segs) = unit_split(t) {
        let one = seq![plain_seg(t.drop_last())];
        assert(segs.drop_last() == one);
        assert(one.drop_last() == Seq::<SegView>::empty());
        assert(joined(Seq::<SegView>::empty()) == Seq::<char>::empty());
        assert(one.last().text == t.drop_last());
        assert(joined(one) == Seq::<char>::empty() + t.drop_last());
        assert(joined(segs) == joined(one) + seq![t.last()]);
        assert(t.drop_last() + seq![t.last()] == t);
    }
}

/// No `^` or `_` script marker in the text.
pub open spec fn no_markers(s: Seq<char>) -> bool {
    forall|j: int| 0 <= j < s.len() ==> #[trigger] s[j] != '^' && s[j] != '_'
}

proof fn lemma_split_scan_joined(s: Seq<char>, i: int, out: Seq<SegView>, buf: Seq<char>)
    requires
        0 <= i <= s.len(),
        no_markers(s),
    ensures
        joined(split_scan(s, i, out, buf)) == joined(out) + buf + s.subrange(i, s.len() as int),
    decreases s.len() - i,
{
    if i >= s.len() {
        lemma_joined_flushed(out, buf);
        assert(s.subrange(i, s.len() as int) == Seq::<char>::empty());
        assert(joined(out) + buf + Seq::<char>::empty() == joined(out) + buf);
    } else {
        assert(s[i] != '^' && s[i] != '_');
        assert(script_at(s, i) is None);
        if spec_token_char(s[i]) {
            lemma_run_end(s, i, token_chars());
            let e = run_end(s, i, token_chars());
            let t = s.subrange(i, e);
            assert(s.subrange(i, s.len() as int) == t + s.subrange(e, s.len() as int));
            lemma_joined_flushed(out, buf);
            match chem_split(t) {
                Some(segs) => {
                    lemma_chem_split_joined(t);
                    lemma_joined_append(flushed(out, buf), segs);
                    lemma_split_scan_joined(s, e, flushed(out, buf) + segs, Seq::empty());
                    assert(joined(flushed(out, buf) + segs) + Seq::<char>::empty() + s.subrange(e, s.len() as int) == joined(out) + buf + s.subrange(i, s.len() as int));
                },
                None => match unit_split(t) {
                    Some(segs) => {
                        lemma_unit_split_joined(t);
                        lemma_joined_append(flushed(out, buf), segs);
                        lemma_split_scan_joined(s, e, flushed(out, buf) + segs, Seq::empty());
                        assert(joined(flushed(out, buf) + segs) + Seq::<char>::empty() + s.subrange(e, s.len() as int) == joined(out) + buf + s.subrange(i, s.len() as int));
                    },
                    None => {
                        lemma_split_scan_joined(s, e, out, buf + t);
                        assert(joined(out) + (buf + t) + s.subrange(e, s.len() as int) == joined(out) + buf + s.subrange(i, s.len() as int));
                    },
                },
            }
        } else {
            lemma_split_scan_joined(s, i + 1, out, buf.push(s[i]));
            assert(s.subrange(i, s.len() as int) == seq![s[i]] + s.subrange(i + 1, s.len() as int));
            assert(buf.push(s[i]) == buf + seq![s[i]]);
        }
    }
}

/// Splitting loses no text: without `^`/`_` markers, the segments' texts
/// put back together are the original text.
pub proof fn split_keeps_text(s: Seq<char>)
    requires
        no_markers(s),
    ensures
        joined(split_spec(s)) == s,
{
    let one = seq![plain_seg(s)];
    assert(one.drop_last() == Seq::<SegView>::empty());
    assert(joined(Seq::<SegView>::empty()) == Seq::<char>::empty());
    assert(one.last().text == s);
    assert(joined(one) == Seq::<char>::empty() + s);
    if s.len() == 0 {
    } else {
        lemma_split_scan_joined(s, 0, Seq::empty(), Seq::empty());
        assert(s.subrange(0, s.len() as int) == s);
        assert(joined(Seq::<SegView>::empty()) + Seq::<char>::empty() + s == s);

    }
}

// ---------------------------------------------------------------------
// Laws of unit exponents.
// ---------------------------------------------------------------------
/// A known unit followed by 2 or 3 is that unit on the baseline and the
/// digit as a superscript exponent (m² as well as cm³).
pub proof fn unit_exponent_is_superscript(u: Seq<char>, d: char)
    requires
        is_unit(u),
        d == '2' || d == '3',
    ensures
        unit_split(u.push(d)) == Some(seq![SegView { text: u, vertical_align: None }, SegView {
            text: seq![d],
            vertical_align: Some("superscript"@),
        }]),
{
    reveal_strlit("mm");
    reveal_strlit("cm");
    reveal_strlit("dm");
    reveal_strlit("km");
    reveal_strlit("nm");
    reveal_strlit("um");
    reveal_strlit("\u{03bc}m");
    reveal_strlit("\u{00b5}m");
    reveal_strlit("m");
    reveal_strlit("L");
    reveal_strlit("mL");
    reveal_strlit("\u{03bc}L");
    reveal_strlit("\u{00b5}L");
    reveal_strlit("g");
    reveal_strlit("kg");
    reveal_strlit("mg");
    reveal_strlit("s");
    reveal_strlit("min");
    reveal_strlit("h");
    reveal_strlit("Hz");
    reveal_strlit("kHz");
    reveal_strlit("MHz");
    reveal_strlit("GHz");
    reveal_strlit("Pa");
    reveal_strlit("kPa");
    reveal_strlit("MPa");
    reveal_strlit("V");
    reveal_strlit("mV");
    reveal_strlit("A");
    reveal_strlit("mA");
    reveal_strlit("W");
    reveal_strlit("kW");
    reveal_strlit("J");
    reveal_strlit("kJ");
    reveal_strlit("N");
    reveal_strlit("mol");
    reveal_strlit("\u{2103}");
    reveal_strlit("\u{00b0}C");
    reveal_strlit("K");
    assert(u.len() > 0);
    assert(u.push(d).drop_last() == u);
}

/// The units that carry an exponent include the common lengths, areas and
/// volumes.
pub proof fn common_units_are_known()
    ensures
        is_unit("m"@),
        is_unit("cm"@),
        is_unit("mm"@),
        is_unit("km"@),
        is_unit("dm"@),
        is_unit("L"@),
        is_unit("mL"@),
{
}

/// A token on its own (token characters only, not starting a `^`/`_`
/// marker) that is no chemical formula but a unit with an exponent is
/// split into exactly the unit and its superscript exponent.
pub proof fn lone_unit_token_splits_as_unit(t: Seq<char>)
    requires
        t.len() > 0,
        t[0] != '^' && t[0] != '_',
        forall|j: int| 0 <= j < t.len() ==> spec_token_char(#[trigger] t[j]),
        chem_split(t) is None,
        unit_split(t) is Some,
    ensures
        split_spec(t) == unit_split(t)->0,
{
    lemma_run_end(t, 0, token_chars());
    lemma_script_at(t, 0);
    if run_end(t, 0, token_chars()) < t.len() {
        let e = run_end(t, 0, token_chars());
        assert(spec_token_char(t[e]));
    }
    assert(t.subrange(0, t.len() as int) == t);
    let segs = unit_split(t)->0;
    assert(segs.len() == 2);
    assert(script_at(t, 0) is None);
    assert(run_end(t, 0, token_chars()) == t.len());
    assert(flushed(Seq::<SegView>::empty(), Seq::<char>::empty()) + segs == segs);
    assert(split_scan(t, t.len() as int, segs, Seq::empty()) == segs);
    assert(split_scan(t, 0, Seq::empty(), Seq::empty()) == split_scan(t, t.len() as int, segs, Seq::empty()));
}

} // verus!
