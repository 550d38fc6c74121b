//! Reference normalization.
//!
//! Reference blocks (role "reference", or text that starts with `[n]`) get
//! a stable bookmark id per reference number, counting up from 1000 in
//! order of first appearance. Superscript text is scanned for `[n]`,
//! `[n,m]` and `[n-m]` citations; numbers that name a known reference
//! become REF pieces, everything else stays plain text.

use vstd::prelude::*;
use std::collections::HashMap;
use crate::plan::{FormatPlan, PlanBlock, BlockView, PlanView};
use crate::analyze::{SourceBlock, SourceBlockView};
use crate::body::{overlay_of, source_opt, opt_source, find_source};
use crate::text::{
    is_blank, is_digit, all_digits, parse_u32, trimmed, chars_of, string_of_range,
    parse_u32_range, trim_bounds, eq_ignore_ascii_case, push_char, char_whitespace, is_whitespace,
};

verus! {

broadcast use vstd::std_specs::hash::group_hash_axioms;

pub const BOOKMARK_PREFIX: &'static str = "_Ref_ref_";

pub const DEFAULT_HANGING_CHARS: &'static str = "200";

pub const DEFAULT_TAB_POSITION: &'static str = "480";

pub const FIRST_BOOKMARK_ID: u32 = 1000;

// ---------------------------------------------------------------------
// Scanning helpers.
// ---------------------------------------------------------------------
/// End of the run of spaces/tabs that starts at `i`.
pub open spec fn blank_end(s: Seq<char>, i: int) -> int
    decreases s.len() - i,
{
    if 0 <= i < s.len() && is_blank(s[i]) {
        blank_end(s, i + 1)
    } else {
        i
    }
}

/// End of the run of whitespace (Unicode White_Space) that starts at `i`.
pub open spec fn space_end(s: Seq<char>, i: int) -> int
    decreases s.len() - i,
{
    if 0 <= i < s.len() && char_whitespace(s[i]) {
        space_end(s, i + 1)
    } else {
        i
    }
}

pub proof fn lemma_space_end(s: Seq<char>, i: int)
    requires
        0 <= i <= s.len(),
    ensures
        i <= space_end(s, i) <= s.len(),
        forall|j: int| i <= j < space_end(s, i) ==> char_whitespace(#[trigger] s[j]),
        space_end(s, i) < s.len() ==> !char_whitespace(s[space_end(s, i)]),
    decreases s.len() - i,
{
    if i < s.len() && char_whitespace(s[i]) {
        lemma_space_end(s, i + 1);
    }
}

fn skip_spaces(v: &Vec<char>, i: usize) -> (r: usize)
    requires
        i <= v@.len(),
    ensures
        r == space_end(v@, i as int),
        i <= r <= v@.len(),
{
    proof {
        lemma_space_end(v@, i as int);
    }
    let mut k = i;
    while k < v.len() && is_whitespace(v[k])
        invariant
            i <= k <= v@.len(),
            space_end(v@, k as int) == space_end(v@, i as int),
        decreases v.len() - k,
    {
        k += 1;
    }
    k
}

/// End of the run of ASCII digits that starts at `i`.
pub open spec fn digit_end(s: Seq<char>, i: int) -> int
    decreases s.len() - i,
{
    if 0 <= i < s.len() && is_digit(s[i]) {
        digit_end(s, i + 1)
    } else {
        i
    }
}

pub proof fn lemma_blank_end(s: Seq<char>, i: int)
    requires
        0 <= i <= s.len(),
    ensures
        i <= blank_end(s, i) <= s.len(),
        forall|j: int| i <= j < blank_end(s, i) ==> is_blank(#[trigger] s[j]),
        blank_end(s, i) < s.len() ==> !is_blank(s[blank_end(s, i)]),
    decreases s.len() - i,
{
    if i < s.len() && is_blank(s[i]) {
        lemma_blank_end(s, i + 1);
    }
}

pub proof fn lemma_digit_end(s: Seq<char>, i: int)
    requires
        0 <= i <= s.len(),
    ensures
        i <= digit_end(s, i) <= s.len(),
        forall|j: int| i <= j < digit_end(s, i) ==> is_digit(#[trigger] s[j]),
        digit_end(s, i) < s.len() ==> !is_digit(s[digit_end(s, i)]),
    decreases s.len() - i,
{
    if i < s.len() && is_digit(s[i]) {
        lemma_digit_end(s, i + 1);
    }
}

fn skip_blanks(v: &Vec<char>, i: usize) -> (r: usize)
    requires
        i <= v@.len(),
    ensures
        r == blank_end(v@, i as int),
        i <= r <= v@.len(),
{
    proof {
        lemma_blank_end(v@, i as int);
    }
    let mut k = i;
    while k < v.len() && (v[k] == ' ' || v[k] == '\t')
        invariant
            i <= k <= v@.len(),
            blank_end(v@, k as int) == blank_end(v@, i as int),
        decreases v.len() - k,
    {
        k += 1;
    }
    k
}

fn skip_digits(v: &Vec<char>, i: usize) -> (r: usize)
    requires
        i <= v@.len(),
    ensures
        r == digit_end(v@, i as int),
        i <= r <= v@.len(),
{
    proof {
        lemma_digit_end(v@, i as int);
    }
    let mut k = i;
    while k < v.len() && '0' <= v[k] && v[k] <= '9'
        invariant
            i <= k <= v@.len(),
            digit_end(v@, k as int) == digit_end(v@, i as int),
        decreases v.len() - k,
    {
        k += 1;
    }
    k
}

// ---------------------------------------------------------------------
// Leading `[n]` of a reference entry.
// ---------------------------------------------------------------------
/// `^\s*\[(\d+)\]`: the reference number and the index just past `]`.
/// A number too large for `u32` gives nothing.
pub open spec fn leading_ref(s: Seq<char>) -> Option<(u32, int)> {
    let i = space_end(s, 0);
    if i < s.len() && s[i] == '[' {
        let e = digit_end(s, i + 1);
        if e > i + 1 && e < s.len() && s[e] == ']' {
            match parse_u32(s.subrange(i + 1, e)) {
                Some(n) => Some((n, e + 1)),
                None => None,
            }
        } else {
            None
        }
    } else {
        None
    }
}

pub open spec fn leading_ref_number(s: Seq<char>) -> Option<u32> {
    match leading_ref(s) {
        Some((n, _)) => Some(n),
        None => None,
    }
}

/// `split_leading_ref`: the number and the text after `]` and the
/// whitespace that follows it.
pub open spec fn leading_ref_split(s: Seq<char>) -> Option<(u32, Seq<char>)> {
    match leading_ref(s) {
        Some((n, j)) => Some((n, s.skip(space_end(s, j)))),
        None => None,
    }
}

/// `split_leading_ref` finds a number exactly when `parse_leading_ref`
/// does, the same number; what it returns after it is the end of the text,
/// with no whitespace in front.
pub proof fn lemma_split_leading_ref_agrees(s: Seq<char>)
    ensures
        leading_ref_split(s) is Some <==> leading_ref_number(s) is Some,
        match leading_ref_split(s) {
            Some((n, rest)) => {
                &&& leading_ref_number(s) == Some(n)
                &&& rest.len() <= s.len()
                &&& s.skip(s.len() - rest.len()) == rest
                &&& (rest.len() > 0 ==> !char_whitespace(rest[0]))
            },
            None => true,
        },
{
    match leading_ref(s) {
        Some((n, j)) => {
            lemma_space_end(s, 0);
            let i = space_end(s, 0);
            lemma_digit_end(s, i + 1);
            lemma_space_end(s, j);
            let k = space_end(s, j);
            assert(s.skip(k).len() == s.len() - k);
            assert(s.skip(s.len() - s.skip(k).len()) == s.skip(k));
        },
        None => {},
    }
}

fn leading_ref_exec(v: &Vec<char>) -> (r: Option<(u32, usize)>)
    ensures
        match r {
            Some((n, j)) => leading_ref(v@) == Some((n, j as int)) && j <= v@.len(),
            None => leading_ref(v@) is None,
        },
{
    let i = skip_spaces(v, 0);
    if i >= v.len() || v[i] != '[' {
        return None;
    }
    let e = skip_digits(v, i + 1);
    if e == i + 1 || e >= v.len() || v[e] != ']' {
        return None;
    }
    proof {
        lemma_digit_end(v@, i + 1);
        assert(all_digits(v@.subrange(i + 1, e as int)));
    }
    match parse_u32_range(v, i + 1, e) {
        Some(n) => Some((n, e + 1)),
        None => None,
    }
}

/// Parses `^\s*\[(\d+)\]` and returns the number.
pub fn parse_leading_ref(text: &str) -> (r: Option<u32>)
    ensures
        r == leading_ref_number(text@),
{
    let v = chars_of(text);
    match leading_ref_exec(&v) {
        Some((n, _)) => Some(n),
        None => None,
    }
}

/// Parses a leading `[n]` and returns the number with the text that follows
/// the bracket and the whitespace after it.
pub fn split_leading_ref(text: &str) -> (r: Option<(u32, String)>)
    ensures
        match r {
            Some((n, rest)) => leading_ref_split(text@) == Some((n, rest@)),
            None => leading_ref_split(text@) is None,
        },
{
    let v = chars_of(text);
    match leading_ref_exec(&v) {
        Some((n, j)) => {
            let k = skip_spaces(&v, j);
            let rest = string_of_range(&v, k, v.len());
            assert(v@.subrange(k as int, v@.len() as int) == v@.skip(k as int));
            Some((n, rest))
        },
        None => None,
    }
}

// ---------------------------------------------------------------------
// Reference numbers of a plan.
// ---------------------------------------------------------------------
/// The text a block's reference number is read from: the source block's
/// text for a block that refers to one (reformatting), else its own text.
pub open spec fn ref_text(b: BlockView, source: Option<Seq<SourceBlockView>>) -> Seq<char> {
    match overlay_of(b, source) {
        Some(sb) => sb.text,
        None => match b.text {
            Some(t) => t,
            None => Seq::empty(),
        },
    }
}

/// A block's reference number: the leading `[n]` of its text (see
/// `ref_text`). (A block with role "reference" but no leading number has
/// none either.)
pub open spec fn block_ref(b: BlockView, source: Option<Seq<SourceBlockView>>) -> Option<u32> {
    leading_ref_number(ref_text(b, source))
}

pub fn block_ref_number(block: &PlanBlock, source: Option<&Vec<SourceBlock>>) -> (r: Option<u32>)
    ensures
        r == block_ref(block@, source_opt(source)),
{
    let overlay: Option<&SourceBlock> = match &block.source_ref {
        Some(r) => match source {
            Some(m) => find_source(m, r.as_str()),
            None => None,
        },
        None => None,
    };
    assert(opt_source(overlay) == overlay_of(block@, source_opt(source)));
    match overlay {
        Some(sb) => parse_leading_ref(sb.text.as_str()),
        None => match &block.text {
            Some(t) => parse_leading_ref(t.as_str()),
            None => {
                proof {
                    assert(""@ == Seq::<char>::empty()) by {
                        reveal_strlit("");
                    }
                }
                parse_leading_ref("")
            },
        },
    }
}

/// Bookmark ids of the reference numbers of `blocks`, and how many were
/// given: each number gets the next id the first time it appears.
pub open spec fn collected(blocks: Seq<BlockView>, source: Option<Seq<SourceBlockView>>) -> (Map<u32, u32>, nat)
    decreases blocks.len(),
{
    if blocks.len() == 0 {
        (Map::empty(), 0)
    } else {
        let (m, k) = collected(blocks.drop_last(), source);
        match block_ref(blocks.last(), source) {
            Some(n) => if m.contains_key(n) {
                (m, k)
            } else {
                (m.insert(n, (FIRST_BOOKMARK_ID + k) as u32), k + 1)
            },
            None => (m, k),
        }
    }
}

/// The reference numbers collected are exactly the leading `[n]` numbers
/// of the blocks.
pub proof fn collected_numbers_come_from_blocks(blocks: Seq<BlockView>, source: Option<Seq<SourceBlockView>>)
    ensures
        forall|n: u32|
            #[trigger] collected(blocks, source).0.contains_key(n) <==> exists|i: int|
                0 <= i < blocks.len() && #[trigger] block_ref(blocks[i], source) == Some(n),
    decreases blocks.len(),
{
    if blocks.len() > 0 {
        let prefix = blocks.drop_last();
        collected_numbers_come_from_blocks(prefix, source);
        assert forall|n: u32| #[trigger] collected(blocks, source).0.contains_key(n) <==> exists|i: int|
            0 <= i < blocks.len() && #[trigger] block_ref(blocks[i], source) == Some(n) by {
            if collected(blocks, source).0.contains_key(n) {
                if collected(prefix, source).0.contains_key(n) {
                    let i = choose|i: int| 0 <= i < prefix.len() && #[trigger] block_ref(prefix[i], source) == Some(n);
                    assert(blocks[i] == prefix[i]);
                } else {
                    assert(block_ref(blocks[blocks.len() - 1], source) == Some(n));
                }
            }
            if exists|i: int| 0 <= i < blocks.len() && #[trigger] block_ref(blocks[i], source) == Some(n) {
                let i = choose|i: int| 0 <= i < blocks.len() && #[trigger] block_ref(blocks[i], source) == Some(n);
                if i < prefix.len() {
                    assert(prefix[i] == blocks[i]);
                    assert(collected(prefix, source).0.contains_key(n));
                }
            }
        }
    }
}

/// Normalization finds references exactly when some block's text (see
/// `ref_text`) starts with a reference number `[n]`.
pub proof fn references_found_iff_some_block_is_numbered(blocks: Seq<BlockView>, source: Option<Seq<SourceBlockView>>)
    ensures
        !collected(blocks, source).0.is_empty() <==> exists|i: int|
            0 <= i < blocks.len() && #[trigger] block_ref(blocks[i], source) is Some,
{
    collected_numbers_come_from_blocks(blocks, source);
    let m = collected(blocks, source).0;
    if exists|i: int| 0 <= i < blocks.len() && #[trigger] block_ref(blocks[i], source) is Some {
        let i = choose|i: int| 0 <= i < blocks.len() && #[trigger] block_ref(blocks[i], source) is Some;
        let n = block_ref(blocks[i], source)->0;
        assert(m.contains_key(n));
        assert(m.dom().contains(n));
    }
    if !m.is_empty() {
        assert(m.dom() != Set::<u32>::empty());
        let n = choose|n: u32| m.dom().contains(n);
        assert(m.contains_key(n));
    }
}

/// The ids are distinct and run from 1000 up, one per number.
pub open spec fn ids_well_formed(m: Map<u32, u32>, k: nat) -> bool {
    &&& m.dom().finite()
    &&& m.dom().len() == k
    &&& forall|n: u32| #[trigger] m.contains_key(n) ==> FIRST_BOOKMARK_ID <= m[n] < FIRST_BOOKMARK_ID + k
    &&& forall|a: u32, b: u32| #[trigger] m.contains_key(a) && #[trigger] m.contains_key(b) && a != b ==> m[a] != m[b]
}

/// How many distinct reference numbers the blocks have: one bookmark id
/// each.
pub open spec fn reference_count(blocks: Seq<BlockView>, source: Option<Seq<SourceBlockView>>) -> nat {
    collected(blocks, source).1
}

pub(crate) proof fn lemma_collected_count(blocks: Seq<BlockView>, source: Option<Seq<SourceBlockView>>)
    ensures
        collected(blocks, source).1 <= blocks.len(),
        collected(blocks, source).0.dom().finite(),
        collected(blocks, source).0.dom().len() == collected(blocks, source).1,
    decreases blocks.len(),
{
    if blocks.len() == 0 {
        assert(Map::<u32, u32>::empty().dom() == Set::<u32>::empty());
    } else {
        lemma_collected_count(blocks.drop_last(), source);
        let (m, k) = collected(blocks.drop_last(), source);
        match block_ref(blocks.last(), source) {
            Some(n) => if !m.contains_key(n) {
                assert(m.insert(n, (FIRST_BOOKMARK_ID + k) as u32).dom() == m.dom().insert(n));
            },
            None => {},
        }
    }
}

/// A prefix of the blocks has no more reference numbers than all of them.
proof fn lemma_collected_prefix(blocks: Seq<BlockView>, source: Option<Seq<SourceBlockView>>, i: int)
    requires
        0 <= i <= blocks.len(),
    ensures
        collected(blocks.take(i), source).1 <= collected(blocks, source).1,
    decreases blocks.len(),
{
    if i < blocks.len() {
        lemma_collected_prefix(blocks.drop_last(), source, i);
        assert(blocks.drop_last().take(i) == blocks.take(i));
    } else {
        assert(blocks.take(i) == blocks);
    }
}

proof fn lemma_collected(blocks: Seq<BlockView>, source: Option<Seq<SourceBlockView>>)
    requires
        collected(blocks, source).1 + FIRST_BOOKMARK_ID <= u32::MAX,
    ensures
        collected(blocks, source).1 <= blocks.len(),
        ids_well_formed(collected(blocks, source).0, collected(blocks, source).1),
    decreases blocks.len(),
{
    if blocks.len() == 0 {
        assert(Map::<u32, u32>::empty().dom() == Set::<u32>::empty());
    } else {
        lemma_collected(blocks.drop_last(), source);
        let (m, k) = collected(blocks.drop_last(), source);
        match block_ref(blocks.last(), source) {
            Some(n) => if !m.contains_key(n) {
                let m2 = m.insert(n, (FIRST_BOOKMARK_ID + k) as u32);
                assert(m2.dom() == m.dom().insert(n));
                assert(forall|a: u32| #[trigger] m2.contains_key(a) && a != n ==> m2[a] == m[a]);
            },
            None => {},
        }
    }
}

/// Bookmark ids per reference number.
pub struct RefNormalize {
    /// reference number -> stable bookmark id
    pub refs: HashMap<u32, u32>,
}

impl RefNormalize {
    /// Collects the reference numbers of the plan's blocks; a block that
    /// refers to a source block is read from that block's text.
    pub fn collect(plan: &FormatPlan, source: Option<&Vec<SourceBlock>>) -> (r: Self)
        requires
            reference_count(plan@.blocks, source_opt(source)) + FIRST_BOOKMARK_ID <= u32::MAX,
        ensures
            r.refs@ == collected(plan@.blocks, source_opt(source)).0,
    {
        let mut refs: HashMap<u32, u32> = HashMap::new();
        let mut next_id: u32 = FIRST_BOOKMARK_ID;
        let ghost views = plan@.blocks;
        let mut i: usize = 0;
        while i < plan.blocks.len()
            invariant
                i <= plan.blocks@.len(),
                views == plan@.blocks,
                reference_count(views, source_opt(source)) + FIRST_BOOKMARK_ID <= u32::MAX,
                refs@ == collected(views.take(i as int), source_opt(source)).0,
                next_id == FIRST_BOOKMARK_ID + collected(views.take(i as int), source_opt(source)).1,
                collected(views.take(i as int), source_opt(source)).1 <= i,
            decreases plan.blocks.len() - i,
        {
            proof {
                lemma_collected_prefix(views, source_opt(source), i + 1);
                lemma_collected(views.take(i + 1), source_opt(source));
                assert(views.take(i + 1).drop_last() == views.take(i as int));
                assert(views.take(i + 1).last() == plan.blocks@[i as int]@);
            }
            match block_ref_number(&plan.blocks[i], source) {
                Some(n) => {
                    if !refs.contains_key(&n) {
                        refs.insert(n, next_id);
                        next_id = next_id + 1;
                    }
                },
                None => {},
            }
            i += 1;
        }
        assert(views.take(plan.blocks@.len() as int) == views);
        RefNormalize { refs }
    }

    /// How many distinct reference numbers the plan's blocks have (see
    /// `collect`).
    pub fn reference_count(plan: &FormatPlan, source: Option<&Vec<SourceBlock>>) -> (r: usize)
        ensures
            r == reference_count(plan@.blocks, source_opt(source)),
    {
        let mut seen: HashMap<u32, u32> = HashMap::new();
        let mut k: usize = 0;
        let ghost views = plan@.blocks;
        let mut i: usize = 0;
        while i < plan.blocks.len()
            invariant
                i <= plan.blocks@.len(),
                views == plan@.blocks,
                seen@.dom() == collected(views.take(i as int), source_opt(source)).0.dom(),
                k == collected(views.take(i as int), source_opt(source)).1,
                k <= i,
            decreases plan.blocks.len() - i,
        {
            proof {
                lemma_collected_count(views.take(i + 1), source_opt(source));
                assert(views.take(i + 1).drop_last() == views.take(i as int));
                assert(views.take(i + 1).last() == plan.blocks@[i as int]@);
            }
            match block_ref_number(&plan.blocks[i], source) {
                Some(n) => {
                    if !seen.contains_key(&n) {
                        seen.insert(n, 0);
                        k = k + 1;
                    }
                },
                None => {},
            }
            proof {
                let (m, c) = collected(views.take(i as int), source_opt(source));
                match block_ref(views[i as int], source_opt(source)) {
                    Some(n) => if !m.contains_key(n) {
                        assert(m.insert(n, (FIRST_BOOKMARK_ID + c) as u32).dom() =~= m.dom().insert(n));
                    },
                    None => {},
                }
                assert(seen@.dom() =~= collected(views.take(i + 1), source_opt(source)).0.dom());
            }
            i += 1;
        }
        assert(views.take(plan.blocks@.len() as int) == views);
        k
    }

    /// Whether any reference was found.
    pub fn is_active(&self) -> (r: bool)
        ensures
            r == !self.refs@.is_empty(),
    {
        !self.refs.is_empty()
    }
}


// ---------------------------------------------------------------------
// Citations in superscript text.
// ---------------------------------------------------------------------
/// One piece of a citation-bearing superscript segment.
pub enum CitPiece {
    /// Plain superscript text (brackets, separators, unknown numbers).
    Text(String),
    /// A resolved citation: a REF field to the bookmark of this number.
    Ref(u32),
}

pub enum PieceView {
    Text(Seq<char>),
    Ref(u32),
}

impl View for CitPiece {
    type V = PieceView;

    open spec fn view(&self) -> PieceView {
        match self {
            CitPiece::Text(s) => PieceView::Text(s@),
            CitPiece::Ref(n) => PieceView::Ref(*n),
        }
    }
}

pub open spec fn pieces_view(v: Seq<CitPiece>) -> Seq<PieceView> {
    v.map_values(|p: CitPiece| p@)
}

enum CitTok {
    Num(String),
    Sep(String),
}

pub enum TokView {
    Num(Seq<char>),
    Sep(Seq<char>),
}

impl View for CitTok {
    type V = TokView;

    closed spec fn view(&self) -> TokView {
        match self {
            CitTok::Num(s) => TokView::Num(s@),
            CitTok::Sep(s) => TokView::Sep(s@),
        }
    }
}

spec fn toks_view(v: Seq<CitTok>) -> Seq<TokView> {
    v.map_values(|t: CitTok| t@)
}

/// The rest of a citation from index `i` (just after a number):
/// `(\s*[,\-]\s*\d+)*\s*\]`. The tokens found so far are `toks`.
pub open spec fn citation_tail(s: Seq<char>, i: int, toks: Seq<TokView>) -> Option<(int, Seq<TokView>)>
    decreases s.len() - i,
{
    if i < 0 || i > s.len() {
        None
    } else {
        let k = blank_end(s, i);
        if k >= s.len() {
            None
        } else if s[k] == ']' {
            Some((k + 1, toks))
        } else if s[k] != ',' && s[k] != '-' {
            None
        } else {
            let nn = blank_end(s, k + 1);
            let j = digit_end(s, nn);
            proof {
                lemma_blank_end(s, i);
                lemma_blank_end(s, k + 1);
                lemma_digit_end(s, nn);
            }
            if j == nn {
                None
            } else {
                citation_tail(
                    s,
                    j,
                    toks.push(TokView::Sep(s.subrange(i, nn))).push(TokView::Num(s.subrange(nn, j))),
                )
            }
        }
    }
}

/// `\[(\d+(?:\s*[,\-]\s*\d+)*)\]` at `start`: the index after `]` and the
/// numbers and separators inside.
pub open spec fn citation_at(s: Seq<char>, start: int) -> Option<(int, Seq<TokView>)> {
    if start < 0 || start >= s.len() || s[start] != '[' {
        None
    } else {
        let e = digit_end(s, start + 1);
        if e == start + 1 {
            None
        } else {
            citation_tail(s, e, seq![TokView::Num(s.subrange(start + 1, e))])
        }
    }
}

pub proof fn lemma_citation_tail(s: Seq<char>, i: int, toks: Seq<TokView>)
    requires
        0 <= i <= s.len(),
    ensures
        citation_tail(s, i, toks) matches Some((end, _)) ==> i < end <= s.len(),
    decreases s.len() - i,
{
    lemma_blank_end(s, i);
    let k = blank_end(s, i);
    if k < s.len() && s[k] != ']' && (s[k] == ',' || s[k] == '-') {
        lemma_blank_end(s, k + 1);
        let nn = blank_end(s, k + 1);
        lemma_digit_end(s, nn);
        let j = digit_end(s, nn);
        if j != nn {
            lemma_citation_tail(
                s,
                j,
                toks.push(TokView::Sep(s.subrange(i, nn))).push(TokView::Num(s.subrange(nn, j))),
            );
        }
    }
}

/// The number a citation token names: the trimmed digits parsed as `u32`,
/// none if they do not fit.
pub open spec fn token_number(d: Seq<char>) -> Option<u32> {
    let t = trimmed(d);
    if t.len() > 0 {
        parse_u32(t)
    } else {
        None
    }
}

/// Whether a citation token names a known reference: its number fits in
/// `u32` and is a key of `refs`.
pub open spec fn token_cites(d: Seq<char>, refs: Map<u32, u32>) -> bool {
    token_number(d) matches Some(n) && refs.contains_key(n)
}

/// The pieces for the inside of one citation.
pub open spec fn token_pieces(toks: Seq<TokView>, refs: Map<u32, u32>) -> Seq<PieceView>
    decreases toks.len(),
{
    if toks.len() == 0 {
        Seq::empty()
    } else {
        token_pieces(toks.drop_last(), refs).push(
            match toks.last() {
                TokView::Num(d) => if token_cites(d, refs) {
                    PieceView::Ref(token_number(d).unwrap())
                } else {
                    PieceView::Text(d)
                },
                TokView::Sep(x) => PieceView::Text(x),
            },
        )
    }
}

/// Whether some number of the citation is a known reference.
pub open spec fn tokens_cite(toks: Seq<TokView>, refs: Map<u32, u32>) -> bool {
    exists|j: int|
        0 <= j < toks.len() && (#[trigger] toks[j] matches TokView::Num(d) && token_cites(d, refs))
}

/// The scan of `split_super_for_citations` from index `i`, with plain text
/// pending from `last`, the pieces `out` so far and whether a reference was
/// found.
pub open spec fn citation_scan(
    s: Seq<char>,
    i: int,
    last: int,
    out: Seq<PieceView>,
    any: bool,
    refs: Map<u32, u32>,
) -> (Seq<PieceView>, bool)
    decreases s.len() - i,
{
    if i < 0 || i >= s.len() {
        (
            if 0 <= last < s.len() {
                out.push(PieceView::Text(s.subrange(last, s.len() as int)))
            } else {
                out
            },
            any,
        )
    } else if s[i] != '[' {
        citation_scan(s, i + 1, last, out, any, refs)
    } else {
        match citation_at(s, i) {
            Some((end, toks)) => {
                proof {
                    lemma_digit_end(s, i + 1);
                    if digit_end(s, i + 1) != i + 1 {
                        lemma_citation_tail(s, digit_end(s, i + 1), seq![TokView::Num(s.subrange(i + 1, digit_end(s, i + 1)))]);
                    }
                }
                let out1 = if i > last {
                    out.push(PieceView::Text(s.subrange(last, i)))
                } else {
                    out
                };
                let out2 = out1.push(PieceView::Text(seq!['['])) + token_pieces(toks, refs) + seq![
                    PieceView::Text(seq![']']),
                ];
                citation_scan(s, end, end, out2, any || tokens_cite(toks, refs), refs)
            },
            None => citation_scan(s, i + 1, last, out, any, refs),
        }
    }
}

/// The pieces of a superscript segment, if at least one number in it names
/// a known reference.
pub open spec fn citations(s: Seq<char>, refs: Map<u32, u32>) -> Option<Seq<PieceView>> {
    let (out, any) = citation_scan(s, 0, 0, Seq::empty(), false, refs);
    if any {
        Some(out)
    } else {
        None
    }
}

/// At `v[start] == '['`, parses `\[(\d+(?:\s*[,\-]\s*\d+)*)\]`; returns the
/// index after `]` and the tokens inside.
fn parse_citation(v: &Vec<char>, start: usize) -> (r: Option<(usize, Vec<CitTok>)>)
    requires
        start < v@.len(),
    ensures
        match r {
            Some((end, toks)) => citation_at(v@, start as int) == Some((end as int, toks_view(toks@))),
            None => citation_at(v@, start as int) is None,
        },
{
    let len = v.len();
    if v[start] != '[' {
        return None;
    }
    let n0 = start + 1;
    let mut i = skip_digits(v, n0);
    if i == n0 {
        return None;
    }
    let mut toks: Vec<CitTok> = Vec::new();
    toks.push(CitTok::Num(string_of_range(v, n0, i)));
    assert(toks_view(toks@) == seq![TokView::Num(v@.subrange(n0 as int, i as int))]);
    loop
        invariant
            start < i <= v@.len(),
            citation_at(v@, start as int) == citation_tail(v@, i as int, toks_view(toks@)),
        decreases v@.len() - i,
    {
        let ws_start = i;
        i = skip_blanks(v, i);
        if i >= v.len() {
            return None;
        }
        if v[i] == ']' {
            return Some((i + 1, toks));
        }
        if v[i] != ',' && v[i] != '-' {
            return None;
        }
        let mut j = skip_blanks(v, i + 1);
        let nn = j;
        j = skip_digits(v, nn);
        if j == nn {
            return None;
        }
        let ghost before = toks_view(toks@);
        toks.push(CitTok::Sep(string_of_range(v, ws_start, nn)));
        toks.push(CitTok::Num(string_of_range(v, nn, j)));
        assert(toks_view(toks@) == before.push(TokView::Sep(v@.subrange(ws_start as int, nn as int))).push(
            TokView::Num(v@.subrange(nn as int, j as int)),
        ));
        i = j;
    }
}

/// Every number token is a run of ASCII digits.
pub open spec fn nums_digits(toks: Seq<TokView>) -> bool {
    forall|j: int| 0 <= j < toks.len() ==> (#[trigger] toks[j] matches TokView::Num(d) ==> all_digits(d))
}

proof fn lemma_citation_tail_digits(s: Seq<char>, i: int, toks: Seq<TokView>)
    requires
        0 <= i <= s.len(),
        nums_digits(toks),
    ensures
        citation_tail(s, i, toks) matches Some((_, t)) ==> nums_digits(t),
    decreases s.len() - i,
{
    lemma_blank_end(s, i);
    let k = blank_end(s, i);
    if k < s.len() && s[k] != ']' && (s[k] == ',' || s[k] == '-') {
        lemma_blank_end(s, k + 1);
        let nn = blank_end(s, k + 1);
        lemma_digit_end(s, nn);
        let j = digit_end(s, nn);
        if j != nn {
            let t2 = toks.push(TokView::Sep(s.subrange(i, nn))).push(TokView::Num(s.subrange(nn, j)));
            assert(nums_digits(t2)) by {
                assert forall|x: int| 0 <= x < t2.len() implies (#[trigger] t2[x] matches TokView::Num(d) ==> all_digits(d)) by {
                    if x < toks.len() {
                        assert(t2[x] == toks[x]);
                    }
                }
            }
            lemma_citation_tail_digits(s, j, t2);
        }
    }
}

proof fn lemma_citation_at(s: Seq<char>, start: int)
    requires
        0 <= start < s.len(),
    ensures
        citation_at(s, start) matches Some((end, t)) ==> start < end <= s.len() && nums_digits(t),
{
    lemma_digit_end(s, start + 1);
    let e = digit_end(s, start + 1);
    if s[start] == '[' && e != start + 1 {
        let t0 = seq![TokView::Num(s.subrange(start + 1, e))];
        assert(nums_digits(t0));
        lemma_citation_tail(s, e, t0);
        lemma_citation_tail_digits(s, e, t0);
    }
}

/// The number of a citation token, as `token_number`.
fn number_of(d: &String) -> (r: Option<u32>)
    requires
        all_digits(d@),
    ensures
        r == token_number(d@),
{
    let v = chars_of(d.as_str());
    let (a, b) = trim_bounds(&v);
    if a < b {
        assert(all_digits(v@.subrange(a as int, b as int))) by {
            assert forall|k: int| 0 <= k < b - a implies is_digit(#[trigger] v@.subrange(a as int, b as int)[k]) by {
                assert(v@.subrange(a as int, b as int)[k] == v@[a + k]);
            }
        }
        parse_u32_range(&v, a, b)
    } else {
        None
    }
}

fn text_piece_of_char(c: char) -> (r: CitPiece)
    ensures
        r@ == PieceView::Text(seq![c]),
{
    let mut s = String::new();
    push_char(&mut s, c);
    CitPiece::Text(s)
}

/// Scans a superscript segment for citations and splits it. Returns the
/// pieces if, and only if, at least one number names a known reference;
/// every REF piece names a known reference.
pub fn split_super_for_citations(text: &str, refs: &HashMap<u32, u32>) -> (r: Option<Vec<CitPiece>>)
    ensures
        match r {
            Some(p) => citations(text@, refs@) == Some(pieces_view(p@)),
            None => citations(text@, refs@) is None,
        },
        r matches Some(p) ==> forall|j: int|
            0 <= j < p@.len() ==> (#[trigger] p@[j] matches CitPiece::Ref(n) ==> refs@.contains_key(n)),
{
    let v = chars_of(text);
    let mut out: Vec<CitPiece> = Vec::new();
    let mut last: usize = 0;
    let mut i: usize = 0;
    let mut any_ref = false;
    let ghost goal = citation_scan(v@, 0, 0, Seq::empty(), false, refs@);
    assert(pieces_view(out@) == Seq::<PieceView>::empty());
    while i < v.len()
        invariant
            last <= i <= v@.len(),
            v@ == text@,
            goal == citation_scan(v@, 0, 0, Seq::empty(), false, refs@),
            goal == citation_scan(v@, i as int, last as int, pieces_view(out@), any_ref, refs@),
            forall|j: int| 0 <= j < out@.len() ==> (#[trigger] out@[j] matches CitPiece::Ref(n) ==> refs@.contains_key(n)),
        decreases v.len() - i,
    {
        if v[i] != '[' {
            i += 1;
            continue;
        }
        proof {
            lemma_citation_at(v@, i as int);
        }
        match parse_citation(&v, i) {
            Some((end, inner)) => {
                let ghost toks = toks_view(inner@);
                let ghost out_before = pieces_view(out@);
                let ghost any_before = any_ref;
                if i > last {
                    out.push(CitPiece::Text(string_of_range(&v, last, i)));
                }
                let ghost out1 = pieces_view(out@);
                assert(out1 == if i > last {
                    out_before.push(PieceView::Text(v@.subrange(last as int, i as int)))
                } else {
                    out_before
                });
                out.push(text_piece_of_char('['));
                let ghost base = pieces_view(out@);
                assert(base == out1.push(PieceView::Text(seq!['['])));
                let mut k: usize = 0;
                while k < inner.len()
                    invariant
                        k <= inner@.len(),
                        toks == toks_view(inner@),
                        nums_digits(toks),
                        pieces_view(out@) == base + token_pieces(toks.take(k as int), refs@),
                        any_ref == (any_before || tokens_cite(toks.take(k as int), refs@)),
                        forall|j: int| 0 <= j < out@.len() ==> (#[trigger] out@[j] matches CitPiece::Ref(n) ==> refs@.contains_key(n)),
                    decreases inner.len() - k,
                {
                    let ghost tk = toks.take(k + 1);
                    assert(tk.drop_last() == toks.take(k as int));
                    assert(tk.last() == toks[k as int]);
                    match &inner[k] {
                        CitTok::Num(d) => {
                            assert(toks[k as int] == TokView::Num(d@));
                            let num = number_of(d);
                            let known = match num {
                                Some(m) => refs.contains_key(&m),
                                None => false,
                            };
                            if known {
                                let n = num.unwrap();
                                out.push(CitPiece::Ref(n));
                                any_ref = true;
                                assert(tokens_cite(tk, refs@)) by {
                                    assert(tk[k as int] == toks[k as int]);
                                }
                            } else {
                                out.push(CitPiece::Text(d.clone()));
                                assert(tokens_cite(tk, refs@) == tokens_cite(toks.take(k as int), refs@)) by {
                                    if tokens_cite(tk, refs@) {
                                        let w = choose|w: int| 0 <= w < tk.len() && (#[trigger] tk[w] matches TokView::Num(d) && token_cites(d, refs@));
                                        assert(w != k);
                                        assert(toks.take(k as int)[w] == tk[w]);
                                    }
                                    if tokens_cite(toks.take(k as int), refs@) {
                                        let w = choose|w: int| 0 <= w < k && (#[trigger] toks.take(k as int)[w] matches TokView::Num(d) && token_cites(d, refs@));
                                        assert(tk[w] == toks.take(k as int)[w]);
                                    }
                                }
                            }
                        },
                        CitTok::Sep(x) => {
                            out.push(CitPiece::Text(x.clone()));
                            assert(tokens_cite(tk, refs@) == tokens_cite(toks.take(k as int), refs@)) by {
                                if tokens_cite(tk, refs@) {
                                    let w = choose|w: int| 0 <= w < tk.len() && (#[trigger] tk[w] matches TokView::Num(d) && token_cites(d, refs@));
                                    assert(w != k);
                                    assert(toks.take(k as int)[w] == tk[w]);
                                }
                                if tokens_cite(toks.take(k as int), refs@) {
                                    let w = choose|w: int| 0 <= w < k && (#[trigger] toks.take(k as int)[w] matches TokView::Num(d) && token_cites(d, refs@));
                                    assert(tk[w] == toks.take(k as int)[w]);
                                }
                            }
                        },
                    }
                    assert(pieces_view(out@) == base + token_pieces(tk, refs@)) by {
                        let a = token_pieces(toks.take(k as int), refs@);
                        let p = token_pieces(tk, refs@).last();
                        assert(token_pieces(tk, refs@) == a.push(p));
                        assert(pieces_view(out@) == (base + a).push(p));
                        assert((base + a).push(p) == base + a.push(p));
                    }
                    k += 1;
                }
                assert(toks.take(inner@.len() as int) == toks);
                out.push(text_piece_of_char(']'));
                assert(pieces_view(out@) == out1.push(PieceView::Text(seq!['['])) + token_pieces(toks, refs@) + seq![PieceView::Text(seq![']'])]);
                last = end;
                i = end;
                continue;
            },
            None => {},
        }
        i += 1;
    }
    if last < v.len() {
        out.push(CitPiece::Text(string_of_range(&v, last, v.len())));
    }
    if any_ref {
        Some(out)
    } else {
        None
    }
}

/// Each reference number has exactly one bookmark id, the ids are distinct,
/// and they are the numbers 1000, 1001, ... in order of first appearance.
pub proof fn bookmark_ids_distinct(plan: PlanView, source: Option<Seq<SourceBlockView>>)
    requires
        reference_count(plan.blocks, source) + FIRST_BOOKMARK_ID <= u32::MAX,
    ensures
        ({
            let (m, k) = collected(plan.blocks, source);
            &&& k <= plan.blocks.len()
            &&& m.dom().len() == k
            &&& forall|n: u32| #[trigger] m.contains_key(n) ==> FIRST_BOOKMARK_ID <= m[n] < FIRST_BOOKMARK_ID + k
            &&& forall|a: u32, b: u32| #[trigger] m.contains_key(a) && #[trigger] m.contains_key(b) && a != b ==> m[a] != m[b]
        }),
{
    lemma_collected(plan.blocks, source);
}

} // verus!
