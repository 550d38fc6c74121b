//! The "undergraduate-thesis" preset: fills every format field the caller
//! left unset with the thesis defaults, and switches on odd/even headers
//! and a centred page-number footer.

use vstd::prelude::*;
use crate::plan::{
    DocumentView, BlockView, FormatView, PlanView, MarginsView, HeaderFooterView, FormatPlan,
    PlanBlock, PlanDocument, PlanFormat, PlanMargins, PlanHeaderFooter, ov, clone_opt,
};
use crate::text::{lower_seq, trimmed, trim_string, trim_lower, eq_ignore_ascii_case, str_eq};

verus! {

pub const UNDERGRADUATE_THESIS: &'static str = "undergraduate-thesis";

/// `dst` where set, `src` where `dst` is unset.
pub open spec fn fill<T>(dst: Option<T>, src: Option<T>) -> Option<T> {
    match dst {
        Some(v) => Some(v),
        None => src,
    }
}

/// Whether a document asks for the thesis preset (trimmed, ASCII case ignored).
pub open spec fn spec_is_thesis(doc: DocumentView) -> bool {
    match doc.preset {
        Some(p) => lower_seq(trimmed(p)) == lower_seq(UNDERGRADUATE_THESIS@),
        None => false,
    }
}

pub fn is_undergraduate_thesis(doc: &PlanDocument) -> (r: bool)
    ensures
        r == spec_is_thesis(doc@),
{
    match &doc.preset {
        Some(p) => {
            let t = trim_string(p.as_str());
            eq_ignore_ascii_case(t.as_str(), UNDERGRADUATE_THESIS)
        },
        None => false,
    }
}

/// `dst` with every unset field taken from `src`. An indent in characters
/// is taken only where `dst` sets that indent neither in characters nor in
/// twips; `style_id` stays.
pub open spec fn merged(dst: FormatView, src: FormatView) -> FormatView {
    FormatView {
        bold: fill(dst.bold, src.bold),
        italic: fill(dst.italic, src.italic),
        underline: fill(dst.underline, src.underline),
        font_color: fill(dst.font_color, src.font_color),
        vertical_align: fill(dst.vertical_align, src.vertical_align),
        cn_font: fill(dst.cn_font, src.cn_font),
        en_font: fill(dst.en_font, src.en_font),
        font_half_points: fill(dst.font_half_points, src.font_half_points),
        align: fill(dst.align, src.align),
        first_line_indent: fill(dst.first_line_indent, src.first_line_indent),
        hanging_indent: fill(dst.hanging_indent, src.hanging_indent),
        first_line_chars: if dst.first_line_indent is Some {
            dst.first_line_chars
        } else {
            fill(dst.first_line_chars, src.first_line_chars)
        },
        hanging_chars: if dst.hanging_indent is Some {
            dst.hanging_chars
        } else {
            fill(dst.hanging_chars, src.hanging_chars)
        },
        line_spacing: fill(dst.line_spacing, src.line_spacing),
        line_spacing_rule: fill(dst.line_spacing_rule, src.line_spacing_rule),
        before_spacing: fill(dst.before_spacing, src.before_spacing),
        after_spacing: fill(dst.after_spacing, src.after_spacing),
        page_break_before: fill(dst.page_break_before, src.page_break_before),
        ..dst
    }
}

fn fill_str(dst: &mut Option<String>, src: &Option<String>)
    ensures
        ov(*final(dst)) == fill(ov(*old(dst)), ov(*src)),
{
    if dst.is_none() {
        *dst = clone_opt(src);
    }
}

/// Fills every unset field of `dst` from `src`; fields already set stay.
pub fn merge_into(dst: &mut PlanFormat, src: &PlanFormat)
    ensures
        final(dst)@ == merged(old(dst)@, src@),
{
    if dst.bold.is_none() {
        dst.bold = src.bold;
    }
    if dst.italic.is_none() {
        dst.italic = src.italic;
    }
    fill_str(&mut dst.underline, &src.underline);
    fill_str(&mut dst.font_color, &src.font_color);
    fill_str(&mut dst.vertical_align, &src.vertical_align);
    fill_str(&mut dst.cn_font, &src.cn_font);
    fill_str(&mut dst.en_font, &src.en_font);
    if dst.font_half_points.is_none() {
        dst.font_half_points = src.font_half_points;
    }
    fill_str(&mut dst.align, &src.align);
    if dst.first_line_indent.is_none() {
        fill_str(&mut dst.first_line_chars, &src.first_line_chars);
    }
    if dst.hanging_indent.is_none() {
        fill_str(&mut dst.hanging_chars, &src.hanging_chars);
    }
    fill_str(&mut dst.first_line_indent, &src.first_line_indent);
    fill_str(&mut dst.hanging_indent, &src.hanging_indent);
    fill_str(&mut dst.line_spacing, &src.line_spacing);
    fill_str(&mut dst.line_spacing_rule, &src.line_spacing_rule);
    fill_str(&mut dst.before_spacing, &src.before_spacing);
    fill_str(&mut dst.after_spacing, &src.after_spacing);
    if dst.page_break_before.is_none() {
        dst.page_break_before = src.page_break_before;
    }
}

/// A format with nothing set.
pub open spec fn empty_format() -> FormatView {
    PlanFormat::spec_empty()@
}

pub open spec fn opt_str_view(o: Option<&str>) -> Option<Seq<char>> {
    match o {
        Some(s) => Some(s@),
        None => None,
    }
}

/// One role's thesis format.
pub open spec fn profile(
    half_points: i64,
    bold: bool,
    align: Seq<char>,
    page_break_before: bool,
    first_line_chars: Option<Seq<char>>,
    hanging_chars: Option<Seq<char>>,
    before: Seq<char>,
    after: Seq<char>,
    line: Seq<char>,
    line_rule: Seq<char>,
) -> FormatView {
    FormatView {
        bold: if bold { Some(true) } else { None },
        align: Some(align),
        page_break_before: if page_break_before { Some(true) } else { None },
        first_line_chars: first_line_chars,
        hanging_chars: hanging_chars,
        before_spacing: Some(before),
        after_spacing: Some(after),
        line_spacing: Some(line),
        line_spacing_rule: Some(line_rule),
        font_half_points: Some(half_points),
        ..empty_format()
    }
}

/// One role's thesis format: size (half-points), weight, alignment, page
/// break, indents in character units, spacing before/after, line spacing
/// and its rule.
pub fn thesis_format(
    half_points: i64,
    bold: bool,
    align: &str,
    page_break_before: bool,
    first_line_chars: Option<&str>,
    hanging_chars: Option<&str>,
    before: &str,
    after: &str,
    line: &str,
    line_rule: &str,
) -> (r: PlanFormat)
    ensures
        r@ == profile(
            half_points,
            bold,
            align@,
            page_break_before,
            opt_str_view(first_line_chars),
            opt_str_view(hanging_chars),
            before@,
            after@,
            line@,
            line_rule@,
        ),
{
    let mut f = PlanFormat::empty();
    f.bold = if bold { Some(true) } else { None };
    f.align = Some(String::from_str(align));
    f.page_break_before = if page_break_before { Some(true) } else { None };
    f.first_line_chars = match first_line_chars {
        Some(c) => Some(String::from_str(c)),
        None => None,
    };
    f.hanging_chars = match hanging_chars {
        Some(c) => Some(String::from_str(c)),
        None => None,
    };
    f.before_spacing = Some(String::from_str(before));
    f.after_spacing = Some(String::from_str(after));
    f.line_spacing = Some(String::from_str(line));
    f.line_spacing_rule = Some(String::from_str(line_rule));
    f.font_half_points = Some(half_points);
    f
}

/// The profile that the thesis preset gives a (trimmed, lower-cased) role.
pub open spec fn role_profile(role: Seq<char>) -> Option<FormatView> {
    if role == "heading1"@ {
        Some(profile(36, true, "center"@, true, None, None, "240"@, "120"@, "400"@, "exact"@))
    } else if role == "heading2"@ {
        Some(profile(32, true, "left"@, false, None, None, "200"@, "120"@, "400"@, "exact"@))
    } else if role == "heading3"@ {
        Some(profile(28, true, "left"@, false, None, None, "160"@, "80"@, "400"@, "exact"@))
    } else if role == "title"@ {
        Some(profile(44, true, "center"@, false, None, None, "240"@, "240"@, "480"@, "exact"@))
    } else if role == "body"@ || role == "paragraph"@ || role == ""@ {
        Some(profile(24, false, "both"@, false, Some("200"@), None, "0"@, "0"@, "400"@, "exact"@))
    } else if role == "reference"@ {
        Some(profile(24, false, "both"@, false, None, Some("200"@), "0"@, "0"@, "400"@, "exact"@))
    } else if role == "caption"@ {
        Some(profile(24, false, "center"@, false, None, None, "80"@, "80"@, "360"@, "exact"@))
    } else if role == "equation"@ {
        Some(profile(24, false, "center"@, false, None, None, "160"@, "160"@, "0"@, "auto"@))
    } else {
        None
    }
}

fn role_format(role: &str) -> (r: Option<PlanFormat>)
    ensures
        match r {
            Some(f) => role_profile(role@) == Some(f@),
            None => role_profile(role@) is None,
        },
{
    if str_eq(role, "heading1") {
        Some(thesis_format(36, true, "center", true, None, None, "240", "120", "400", "exact"))
    } else if str_eq(role, "heading2") {
        Some(thesis_format(32, true, "left", false, None, None, "200", "120", "400", "exact"))
    } else if str_eq(role, "heading3") {
        Some(thesis_format(28, true, "left", false, None, None, "160", "80", "400", "exact"))
    } else if str_eq(role, "title") {
        Some(thesis_format(44, true, "center", false, None, None, "240", "240", "480", "exact"))
    } else if str_eq(role, "body") || str_eq(role, "paragraph") || str_eq(role, "") {
        Some(thesis_format(24, false, "both", false, Some("200"), None, "0", "0", "400", "exact"))
    } else if str_eq(role, "reference") {
        Some(thesis_format(24, false, "both", false, None, Some("200"), "0", "0", "400", "exact"))
    } else if str_eq(role, "caption") {
        Some(thesis_format(24, false, "center", false, None, None, "80", "80", "360", "exact"))
    } else if str_eq(role, "equation") {
        Some(thesis_format(24, false, "center", false, None, None, "160", "160", "0", "auto"))
    } else {
        None
    }
}

/// What the preset does to one block: a role with a profile gets every
/// unset format field from it; other blocks stay as they are.
pub open spec fn block_with_preset(b: BlockView) -> BlockView {
    match role_profile(lower_seq(trimmed(b.role))) {
        Some(d) => BlockView {
            format: Some(
                merged(
                    match b.format {
                        Some(f) => f,
                        None => empty_format(),
                    },
                    d,
                ),
            ),
            ..b
        },
        None => b,
    }
}

/// Fills the block's format from the thesis profile of its role.
pub fn apply_block_defaults(block: &mut PlanBlock)
    ensures
        final(block)@ == block_with_preset(old(block)@),
{
    let role = trim_lower(block.role.as_str());
    match role_format(role.as_str()) {
        None => {},
        Some(d) => {
            let mut f = match block.format.take() {
                Some(f) => f,
                None => PlanFormat::empty(),
            };
            merge_into(&mut f, &d);
            block.format = Some(f);
        },
    }
}

/// The margins the preset leaves: unset sides get 1440/1440/1800/1800.
pub open spec fn margins_with_preset(m: Option<MarginsView>) -> MarginsView {
    let m = match m {
        Some(m) => m,
        None => MarginsView { top: None, bottom: None, left: None, right: None },
    };
    MarginsView {
        top: fill(m.top, Some("1440"@)),
        bottom: fill(m.bottom, Some("1440"@)),
        left: fill(m.left, Some("1800"@)),
        right: fill(m.right, Some("1800"@)),
    }
}

/// The header/footer settings the preset leaves: odd/even on, and a
/// centred page number unless one is chosen already.
pub open spec fn header_footer_with_preset(h: Option<HeaderFooterView>) -> HeaderFooterView {
    let h = match h {
        Some(h) => h,
        None => HeaderFooterView { odd_even: false, first_different: false, page_number: None },
    };
    HeaderFooterView {
        odd_even: true,
        page_number: fill(h.page_number, Some("center-page-number"@)),
        ..h
    }
}

/// The document settings the preset leaves: A4 portrait, 宋体 / Times New
/// Roman at 12pt, standard margins, odd/even headers, page numbers.
pub open spec fn document_with_preset(d: DocumentView) -> DocumentView {
    DocumentView {
        page_size: fill(d.page_size, Some("a4"@)),
        orientation: fill(d.orientation, Some("portrait"@)),
        cn_font: fill(d.cn_font, Some("宋体"@)),
        en_font: fill(d.en_font, Some("Times New Roman"@)),
        base_font_half_points: fill(d.base_font_half_points, Some(24i64)),
        margins: Some(margins_with_preset(d.margins)),
        header_footer: Some(header_footer_with_preset(d.header_footer)),
        ..d
    }
}

/// The whole plan after the preset.
pub open spec fn plan_with_preset(p: PlanView) -> PlanView {
    PlanView {
        document: document_with_preset(p.document),
        blocks: p.blocks.map_values(|b: BlockView| block_with_preset(b)),
        ..p
    }
}

fn fill_literal(dst: &mut Option<String>, v: &str)
    ensures
        ov(*final(dst)) == fill(ov(*old(dst)), Some(v@)),
{
    if dst.is_none() {
        *dst = Some(String::from_str(v));
    }
}

/// Fills the plan with the undergraduate-thesis defaults. Values the caller
/// set are kept; applying it twice is the same as applying it once.
pub fn apply_undergraduate_thesis(plan: &mut FormatPlan)
    ensures
        final(plan)@ == plan_with_preset(old(plan)@),
{
    let ghost old_blocks = plan.blocks@;
    fill_literal(&mut plan.document.page_size, "a4");
    fill_literal(&mut plan.document.orientation, "portrait");
    fill_literal(&mut plan.document.cn_font, "宋体");
    fill_literal(&mut plan.document.en_font, "Times New Roman");
    if plan.document.base_font_half_points.is_none() {
        plan.document.base_font_half_points = Some(24);
    }
    let mut m = match plan.document.margins.take() {
        Some(m) => m,
        None => PlanMargins::empty(),
    };
    fill_literal(&mut m.top, "1440");
    fill_literal(&mut m.bottom, "1440");
    fill_literal(&mut m.left, "1800");
    fill_literal(&mut m.right, "1800");
    plan.document.margins = Some(m);
    let mut hf = match plan.document.header_footer.take() {
        Some(h) => h,
        None => PlanHeaderFooter::empty(),
    };
    hf.odd_even = true;
    fill_literal(&mut hf.page_number, "center-page-number");
    plan.document.header_footer = Some(hf);
    assert(plan.document@.margins == Some(margins_with_preset(old(plan).document@.margins)));
    assert(plan.document@.header_footer == Some(header_footer_with_preset(old(plan).document@.header_footer)));
    assert(plan.document@ == document_with_preset(old(plan).document@));

    let ghost doc_after = plan.document;
    let mut i: usize = 0;
    while i < plan.blocks.len()
        invariant
            i <= plan.blocks@.len() == old_blocks.len(),
            plan.document == doc_after,
            plan.sections == old(plan).sections,
            plan.doc_type == old(plan).doc_type,
            forall|j: int| 0 <= j < i ==> #[trigger] plan.blocks@[j]@ == block_with_preset(old_blocks[j]@),
            forall|j: int| i <= j < plan.blocks@.len() ==> #[trigger] plan.blocks@[j] == old_blocks[j],
        decreases plan.blocks.len() - i,
    {
        apply_block_defaults(&mut plan.blocks[i]);
        i += 1;
    }
    assert(plan.blocks@.map_values(|b: PlanBlock| b@) == old_blocks.map_values(|b: PlanBlock| b@).map_values(|b: BlockView| block_with_preset(b)));
    assert(plan.sections@ == old(plan).sections@);
}

// ---------------------------------------------------------------------
// Laws.
// ---------------------------------------------------------------------
proof fn lemma_merged_twice(f: FormatView, d: FormatView)
    ensures
        merged(merged(f, d), d) == merged(f, d),
{
    let m = merged(f, d);
    let mm = merged(m, d);
    assert(mm.first_line_chars == m.first_line_chars);
    assert(mm.hanging_chars == m.hanging_chars);
}

/// Applying the thesis preset twice gives the same plan as applying it once.
pub proof fn thesis_preset_idempotent(p: PlanView)
    ensures
        plan_with_preset(plan_with_preset(p)) == plan_with_preset(p),
{
    let once = plan_with_preset(p);
    assert forall|i: int| 0 <= i < p.blocks.len() implies
        #[trigger] block_with_preset(block_with_preset(p.blocks[i])) == block_with_preset(p.blocks[i]) by {
        let b = p.blocks[i];
        match role_profile(lower_seq(trimmed(b.role))) {
            Some(d) => {
                let f = match b.format { Some(f) => f, None => empty_format() };
                lemma_merged_twice(f, d);
            },
            None => {},
        }
    }
    assert(once.blocks.map_values(|b: BlockView| block_with_preset(b)) == once.blocks);
    assert(document_with_preset(document_with_preset(p.document)) == document_with_preset(p.document));
}

/// A format field the caller set keeps its value under the preset.
pub proof fn thesis_preset_keeps_caller_values(b: BlockView)
    requires
        b.format is Some,
    ensures
        block_with_preset(b).format is Some,
        ({
            let f = b.format->0;
            let g = block_with_preset(b).format->0;
            &&& f.bold is Some ==> g.bold == f.bold
            &&& f.italic is Some ==> g.italic == f.italic
            &&& f.underline is Some ==> g.underline == f.underline
            &&& f.font_color is Some ==> g.font_color == f.font_color
            &&& f.vertical_align is Some ==> g.vertical_align == f.vertical_align
            &&& f.cn_font is Some ==> g.cn_font == f.cn_font
            &&& f.en_font is Some ==> g.en_font == f.en_font
            &&& f.font_half_points is Some ==> g.font_half_points == f.font_half_points
            &&& f.align is Some ==> g.align == f.align
            &&& f.first_line_indent is Some ==> g.first_line_indent == f.first_line_indent
            &&& f.hanging_indent is Some ==> g.hanging_indent == f.hanging_indent
            &&& f.line_spacing is Some ==> g.line_spacing == f.line_spacing
            &&& f.line_spacing_rule is Some ==> g.line_spacing_rule == f.line_spacing_rule
            &&& f.before_spacing is Some ==> g.before_spacing == f.before_spacing
            &&& f.after_spacing is Some ==> g.after_spacing == f.after_spacing
            &&& f.page_break_before is Some ==> g.page_break_before == f.page_break_before
            &&& (f.first_line_chars is Some || f.first_line_indent is Some) ==> g.first_line_chars == f.first_line_chars
            &&& (f.hanging_chars is Some || f.hanging_indent is Some) ==> g.hanging_chars == f.hanging_chars
            &&& g.style_id == f.style_id
        }),
{
}

/// What the thesis preset fills into a block's unset fields: size,
/// weight, alignment, page break, spacing before/after, line spacing and
/// rule; the fields the caller set stay.
pub open spec fn thesis_fills(
    b: BlockView,
    half_points: i64,
    bold: Option<bool>,
    align: Seq<char>,
    page_break: Option<bool>,
    before: Seq<char>,
    after: Seq<char>,
    line: Seq<char>,
    rule: Seq<char>,
) -> bool {
    let g = match b.format {
        Some(f) => f,
        None => empty_format(),
    };
    &&& block_with_preset(b).format is Some
    &&& ({
        let f = block_with_preset(b).format->0;
        &&& f.font_half_points == (if g.font_half_points is Some { g.font_half_points } else { Some(half_points) })
        &&& f.bold == (if g.bold is Some { g.bold } else { bold })
        &&& f.align == (if g.align is Some { g.align } else { Some(align) })
        &&& f.page_break_before == (if g.page_break_before is Some { g.page_break_before } else { page_break })
        &&& f.before_spacing == (if g.before_spacing is Some { g.before_spacing } else { Some(before) })
        &&& f.after_spacing == (if g.after_spacing is Some { g.after_spacing } else { Some(after) })
        &&& f.line_spacing == (if g.line_spacing is Some { g.line_spacing } else { Some(line) })
        &&& f.line_spacing_rule == (if g.line_spacing_rule is Some { g.line_spacing_rule } else { Some(rule) })
    })
}

/// The thesis preset's defaults per role (role trimmed, ASCII case
/// ignored): chapter headings (heading1) 18pt bold centred on a new page,
/// section headings 16pt/14pt bold left, the title 22pt bold centred,
/// body and references 12pt justified, captions and equations centred.
pub proof fn thesis_role_defaults(b: BlockView)
    ensures
        lower_seq(trimmed(b.role)) == "heading1"@ ==> thesis_fills(b, 36, Some(true), "center"@, Some(true), "240"@, "120"@, "400"@, "exact"@),
        lower_seq(trimmed(b.role)) == "heading2"@ ==> thesis_fills(b, 32, Some(true), "left"@, None, "200"@, "120"@, "400"@, "exact"@),
        lower_seq(trimmed(b.role)) == "heading3"@ ==> thesis_fills(b, 28, Some(true), "left"@, None, "160"@, "80"@, "400"@, "exact"@),
        lower_seq(trimmed(b.role)) == "title"@ ==> thesis_fills(b, 44, Some(true), "center"@, None, "240"@, "240"@, "480"@, "exact"@),
        lower_seq(trimmed(b.role)) == "body"@ ==> thesis_fills(b, 24, None, "both"@, None, "0"@, "0"@, "400"@, "exact"@),
        lower_seq(trimmed(b.role)) == "reference"@ ==> thesis_fills(b, 24, None, "both"@, None, "0"@, "0"@, "400"@, "exact"@),
        lower_seq(trimmed(b.role)) == "caption"@ ==> thesis_fills(b, 24, None, "center"@, None, "80"@, "80"@, "360"@, "exact"@),
        lower_seq(trimmed(b.role)) == "equation"@ ==> thesis_fills(b, 24, None, "center"@, None, "160"@, "160"@, "0"@, "auto"@),
{
    let r = lower_seq(trimmed(b.role));
    reveal_strlit("heading1");
    reveal_strlit("heading2");
    reveal_strlit("heading3");
    reveal_strlit("title");
    if r == "heading2"@ {
        assert(r[7] != "heading1"@[7]);
    }
    if r == "heading3"@ {
        assert(r[7] != "heading1"@[7]);
        assert(r[7] != "heading2"@[7]);
    }
    if r == "title"@ {
        assert(r.len() != "heading1"@.len());
        assert(r.len() != "heading2"@.len());
        assert(r.len() != "heading3"@.len());
    }
    reveal_strlit("body");
    reveal_strlit("paragraph");
    reveal_strlit("");
    reveal_strlit("reference");
    reveal_strlit("caption");
    reveal_strlit("equation");
    if r == "body"@ {
        assert(r.len() != "heading1"@.len() && r.len() != "heading2"@.len() && r.len() != "heading3"@.len());
        assert(r.len() != "title"@.len());
    }
    if r == "reference"@ {
        assert(r.len() != "heading1"@.len() && r.len() != "heading2"@.len() && r.len() != "heading3"@.len());
        assert(r.len() != "title"@.len() && r.len() != "body"@.len() && r.len() != ""@.len());
        assert(r[0] != "paragraph"@[0]);
    }
    if r == "caption"@ {
        assert(r.len() != "heading1"@.len() && r.len() != "heading2"@.len() && r.len() != "heading3"@.len());
        assert(r.len() != "title"@.len() && r.len() != "body"@.len() && r.len() != ""@.len());
        assert(r.len() != "paragraph"@.len() && r.len() != "reference"@.len());
    }
    if r == "equation"@ {
        assert(r[0] != "heading1"@[0] && r[0] != "heading2"@[0] && r[0] != "heading3"@[0]);
        assert(r.len() != "title"@.len() && r.len() != "body"@.len() && r.len() != ""@.len());
        assert(r.len() != "paragraph"@.len() && r.len() != "reference"@.len() && r.len() != "caption"@.len());
    }
}

} // verus!
