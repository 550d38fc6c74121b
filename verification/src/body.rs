//! The document body: paragraphs of text runs (with automatic
//! sub/superscript and citation fields), captions, tables, equations,
//! images, reference entries, and the section structure.

use vstd::prelude::*;
use crate::autoformat::{split, split_spec, segs_view, SegView, Segment};
use crate::plan::{PlanDocument, PlanFormat, DocumentView, FormatView, row_view};
use crate::props::{run_props, run_properties, fmt_of, opt_fmt};
use crate::refs::{citations, split_super_for_citations, pieces_view, CitPiece, PieceView, RefNormalize, BOOKMARK_PREFIX};
use crate::text::{
    escaped, push_escaped, decimal, push_decimal, int_decimal, push_int, str_eq, trimmed, trim_string, lower_seq,
    to_ascii_lowercase, eq_ignore_ascii_case,
};
use crate::plan::{PlanBlock, BlockView, EquationView, ov};
use crate::props::{
    or_else, or_empty, val_tag, ind_xml, spacing_xml, doc_line, rule_or_auto, mapped_align, push_ind, push_spacing,
    line_rule, fmt_field, opt_str,
};
use crate::docx::{osv, map_align, R_NS, W_NS, WP_NS, A_NS, PIC_NS, M_NS, XML_DECL};
use crate::plan::{FormatPlan, PlanSection, PlanView, SectionView};
use crate::props::{section_xml, section_inner, opt_section, HfKind, HfRefs, HfSlots};
use crate::parts::{Package, PackageView, ext_slot, ext_name, ext_slot_of, lemma_ext_slot};
use crate::archive::{ZipEntry, EntryView, Compression};
use crate::analyze::{SourceBlock, SourceBlockView, SourceRun, RunView, source_view, runs_view};
use crate::props::{para_props, paragraph_properties_inner};
use crate::refs::{
    leading_ref, leading_ref_split, split_leading_ref, block_ref, DEFAULT_HANGING_CHARS, DEFAULT_TAB_POSITION,
};
use crate::plan::clone_opt;
use crate::docx::key;
use crate::text::trim_lower;

verus! {

broadcast use vstd::std_specs::hash::group_hash_axioms;

// ---------------------------------------------------------------------
// Substring test.
// ---------------------------------------------------------------------
/// Whether `pat` occurs in `s`.
pub open spec fn has_substring(s: Seq<char>, pat: Seq<char>) -> bool {
    exists|i: int| 0 <= i && i + pat.len() <= s.len() && #[trigger] s.subrange(i, i + pat.len()) == pat
}

/// `str::contains` with a string pattern.
pub fn contains_str(s: &str, pat: &str) -> (r: bool)
    ensures
        r == has_substring(s@, pat@),
{
    let sv = crate::text::chars_of(s);
    let pv = crate::text::chars_of(pat);
    if pv.len() > sv.len() {
        return false;
    }
    if pv.len() == 0 {
        assert(s@.subrange(0, 0 + pat@.len() as int) =~= pat@);
        return true;
    }
    let last = sv.len() - pv.len();
    let mut i: usize = 0;
    while i <= last
        invariant
            sv@ == s@,
            pv@ == pat@,
            last == sv@.len() - pv@.len(),
            pv@.len() >= 1,
            i <= last + 1,
            forall|k: int| 0 <= k < i ==> #[trigger] sv@.subrange(k, k + pv@.len()) != pv@,
        decreases last + 1 - i,
    {
        let mut j: usize = 0;
        let mut same = true;
        while j < pv.len()
            invariant
                i <= last,
                last == sv@.len() - pv@.len(),
                i + pv@.len() <= sv@.len(),
                sv@.len() == sv.len(),
                pv@.len() == pv.len(),
                j <= pv@.len(),
                same == (forall|m: int| 0 <= m < j ==> sv@[i + m] == pv@[m]),
            decreases pv.len() - j,
        {
            if sv[i + j] != pv[j] {
                same = false;
            }
            j += 1;
        }
        if same {
            assert(sv@.subrange(i as int, i + pv@.len()) =~= pv@);
            return true;
        }
        assert(sv@.subrange(i as int, i + pv@.len()) != pv@) by {
            let m = choose|m: int| 0 <= m < pv@.len() && sv@[i + m] != pv@[m];
            assert(sv@.subrange(i as int, i + pv@.len())[m] != pv@[m]);
        }
        i += 1;
    }
    false
}

// ---------------------------------------------------------------------
// Paragraphs and body elements.
// ---------------------------------------------------------------------
/// A paragraph: the inside of its `<w:pPr>` and its runs.
pub struct Para {
    pub ppr_inner: String,
    pub run: String,
}

pub struct ParaView {
    pub ppr_inner: Seq<char>,
    pub run: Seq<char>,
}

impl View for Para {
    type V = ParaView;

    open spec fn view(&self) -> ParaView {
        ParaView { ppr_inner: self.ppr_inner@, run: self.run@ }
    }
}

/// `<w:p>` with `extra` (a `<w:sectPr>`) appended to its properties;
/// without properties there is no `<w:pPr>` at all.
pub open spec fn para_xml(p: ParaView, extra: Seq<char>) -> Seq<char> {
    let ppr = p.ppr_inner + extra;
    "<w:p>"@ + (if ppr.len() == 0 {
        Seq::empty()
    } else {
        "<w:pPr>"@ + ppr + "</w:pPr>"@
    }) + p.run + "</w:p>"@
}

impl Para {
    /// `Para::serialize`.
    pub fn serialize(&self, extra_ppr: &str) -> (r: String)
        ensures
            r@ == para_xml(self@, extra_ppr@),
    {
        let mut ppr = self.ppr_inner.clone();
        ppr.append(extra_ppr);
        let mut s = String::from_str("<w:p>");
        if !ppr.as_str().is_empty() {
            s.append("<w:pPr>");
            s.append(ppr.as_str());
            s.append("</w:pPr>");
        }
        s.append(self.run.as_str());
        s.append("</w:p>");
        s
    }
}

/// A body element: a paragraph (which can carry a section break) or raw
/// XML such as a table (which cannot).
pub enum BodyElem {
    Para(Para),
    Raw(String),
}

pub enum ElemView {
    Para(ParaView),
    Raw(Seq<char>),
}

impl View for BodyElem {
    type V = ElemView;

    open spec fn view(&self) -> ElemView {
        match self {
            BodyElem::Para(p) => ElemView::Para(p@),
            BodyElem::Raw(s) => ElemView::Raw(s@),
        }
    }
}

pub open spec fn elems_view(v: Seq<BodyElem>) -> Seq<ElemView> {
    v.map_values(|e: BodyElem| e@)
}

// ---------------------------------------------------------------------
// Text runs.
// ---------------------------------------------------------------------
pub open spec fn rn_view(rn: Option<&RefNormalize>) -> Option<Map<u32, u32>> {
    match rn {
        Some(r) => Some(r.refs@),
        None => None,
    }
}

/// The format of a segment's run: the base format with the segment's
/// vertical alignment, if it has one.
pub open spec fn seg_format(base: Option<FormatView>, seg: SegView) -> FormatView {
    let f = fmt_of(base);
    match seg.vertical_align {
        Some(va) => FormatView { vertical_align: Some(va), ..f },
        None => f,
    }
}

/// A text run.
pub open spec fn text_run(rp: Seq<char>, t: Seq<char>) -> Seq<char> {
    "<w:r>"@ + rp + "<w:t xml:space=\"preserve\">"@ + escaped(t) + "</w:t></w:r>"@
}

/// A REF field to the bookmark of reference `n`, every run carrying `rp`.
pub open spec fn ref_field(rp: Seq<char>, n: u32) -> Seq<char> {
    "<w:r>"@ + rp + "<w:fldChar w:fldCharType=\"begin\"/></w:r>"@ + "<w:r>"@ + rp
        + "<w:instrText xml:space=\"preserve\"> REF "@ + BOOKMARK_PREFIX@ + decimal(n as nat)
        + " \\h </w:instrText></w:r>"@ + "<w:r>"@ + rp + "<w:fldChar w:fldCharType=\"separate\"/></w:r>"@ + "<w:r>"@
        + rp + "<w:t>"@ + decimal(n as nat) + "</w:t></w:r>"@ + "<w:r>"@ + rp
        + "<w:fldChar w:fldCharType=\"end\"/></w:r>"@
}

pub open spec fn piece_xml(rp: Seq<char>, p: PieceView) -> Seq<char> {
    match p {
        PieceView::Text(s) => if s.len() == 0 {
            Seq::empty()
        } else {
            text_run(rp, s)
        },
        PieceView::Ref(n) => ref_field(rp, n),
    }
}

pub open spec fn pieces_xml(rp: Seq<char>, v: Seq<PieceView>) -> Seq<char>
    decreases v.len(),
{
    if v.len() == 0 {
        Seq::empty()
    } else {
        pieces_xml(rp, v.drop_last()) + piece_xml(rp, v.last())
    }
}

/// The runs of one segment: citations in a superscript segment (made so
/// by `split` or by the format's `vertical_align`) become REF fields when
/// references are being normalized.
pub open spec fn seg_xml(
    seg: SegView,
    base: Option<FormatView>,
    doc: DocumentView,
    heading: Option<u8>,
    is_title: bool,
    rn: Option<Map<u32, u32>>,
) -> Seq<char> {
    let rp = run_props(Some(seg_format(base, seg)), doc, heading, is_title);
    match rn {
        Some(refs) => if seg_format(base, seg).vertical_align == Some("superscript"@) {
            match citations(seg.text, refs) {
                Some(p) => pieces_xml(rp, p),
                None => text_run(rp, seg.text),
            }
        } else {
            text_run(rp, seg.text)
        },
        None => text_run(rp, seg.text),
    }
}

pub open spec fn segs_xml(
    segs: Seq<SegView>,
    base: Option<FormatView>,
    doc: DocumentView,
    heading: Option<u8>,
    is_title: bool,
    rn: Option<Map<u32, u32>>,
) -> Seq<char>
    decreases segs.len(),
{
    if segs.len() == 0 {
        Seq::empty()
    } else {
        segs_xml(segs.drop_last(), base, doc, heading, is_title, rn) + seg_xml(
            segs.last(),
            base,
            doc,
            heading,
            is_title,
            rn,
        )
    }
}

/// The runs of a text: one per segment of `split`, or one empty run.
pub open spec fn text_segments(
    text: Seq<char>,
    base: Option<FormatView>,
    doc: DocumentView,
    heading: Option<u8>,
    is_title: bool,
    rn: Option<Map<u32, u32>>,
) -> Seq<char> {
    let out = segs_xml(split_spec(text), base, doc, heading, is_title, rn);
    if out.len() == 0 {
        "<w:r>"@ + run_props(base, doc, heading, is_title) + "</w:r>"@
    } else {
        out
    }
}

fn push_text_run(out: &mut String, rpr: &str, t: &str)
    ensures
        final(out)@ == old(out)@ + text_run(rpr@, t@),
{
    out.append("<w:r>");
    out.append(rpr);
    out.append("<w:t xml:space=\"preserve\">");
    push_escaped(out, t);
    out.append("</w:t></w:r>");
}

fn push_ref_field(out: &mut String, rpr: &str, n: u32)
    ensures
        final(out)@ == old(out)@ + ref_field(rpr@, n),
{
    let mut f = String::from_str("<w:r>");
    f.append(rpr);
    f.append("<w:fldChar w:fldCharType=\"begin\"/></w:r>");
    f.append("<w:r>");
    f.append(rpr);
    f.append("<w:instrText xml:space=\"preserve\"> REF ");
    f.append(BOOKMARK_PREFIX);
    push_decimal(&mut f, n as u64);
    f.append(" \\h </w:instrText></w:r>");
    f.append("<w:r>");
    f.append(rpr);
    f.append("<w:fldChar w:fldCharType=\"separate\"/></w:r>");
    f.append("<w:r>");
    f.append(rpr);
    f.append("<w:t>");
    push_decimal(&mut f, n as u64);
    f.append("</w:t></w:r>");
    f.append("<w:r>");
    f.append(rpr);
    f.append("<w:fldChar w:fldCharType=\"end\"/></w:r>");
    out.append(f.as_str());
}

fn push_pieces(out: &mut String, rpr: &str, pieces: &Vec<CitPiece>)
    ensures
        final(out)@ == old(out)@ + pieces_xml(rpr@, pieces_view(pieces@)),
{
    let ghost pv = pieces_view(pieces@);
    let mut i: usize = 0;
    while i < pieces.len()
        invariant
            i <= pieces@.len(),
            pv == pieces_view(pieces@),
            out@ == old(out)@ + pieces_xml(rpr@, pv.take(i as int)),
        decreases pieces.len() - i,
    {
        let ghost before = out@;
        match &pieces[i] {
            CitPiece::Text(s) => {
                if !s.as_str().is_empty() {
                    push_text_run(out, rpr, s.as_str());
                }
            },
            CitPiece::Ref(n) => {
                push_ref_field(out, rpr, *n);
            },
        }
        assert(out@ == before + piece_xml(rpr@, pv[i as int]));
        assert(pv.take(i + 1).drop_last() == pv.take(i as int));
        i += 1;
    }
    assert(pv.take(pieces@.len() as int) == pv);
}

fn push_segment(
    out: &mut String,
    seg: &Segment,
    base: Option<&PlanFormat>,
    doc: &PlanDocument,
    heading: Option<u8>,
    is_title: bool,
    rn: Option<&RefNormalize>,
)
    ensures
        final(out)@ == old(out)@ + seg_xml(seg@, opt_fmt(base), doc@, heading, is_title, rn_view(rn)),
{
    let mut overlay = match base {
        Some(f) => f.duplicate(),
        None => PlanFormat::empty(),
    };
    match &seg.vertical_align {
        Some(va) => {
            overlay.vertical_align = Some(va.clone());
        },
        None => {},
    }
    assert(overlay@ == seg_format(opt_fmt(base), seg@));
    let rpr = run_properties(Some(&overlay), doc, heading, is_title);
    match rn {
        Some(r) => {
            let sup = match &overlay.vertical_align {
                Some(v) => str_eq(v.as_str(), "superscript"),
                None => false,
            };
            if sup {
                match split_super_for_citations(seg.text.as_str(), &r.refs) {
                    Some(pieces) => {
                        push_pieces(out, rpr.as_str(), &pieces);
                        return ;
                    },
                    None => {},
                }
            }
        },
        None => {},
    }
    push_text_run(out, rpr.as_str(), seg.text.as_str());
}

/// `render_text_segments`: the runs of a piece of text, split by
/// `autoformat::split`; with reference normalization on, citations in
/// superscript segments become REF fields.
pub fn render_text_segments(
    text: &str,
    base: Option<&PlanFormat>,
    doc: &PlanDocument,
    heading: Option<u8>,
    is_title: bool,
    rn: Option<&RefNormalize>,
) -> (r: String)
    ensures
        r@ == text_segments(text@, opt_fmt(base), doc@, heading, is_title, rn_view(rn)),
{
    let segs = split(text);
    let ghost sv = segs_view(segs@);
    let mut out = String::new();
    let mut i: usize = 0;
    while i < segs.len()
        invariant
            i <= segs@.len(),
            sv == segs_view(segs@),
            sv == split_spec(text@),
            out@ == segs_xml(sv.take(i as int), opt_fmt(base), doc@, heading, is_title, rn_view(rn)),
        decreases segs.len() - i,
    {
        push_segment(&mut out, &segs[i], base, doc, heading, is_title, rn);
        assert(sv.take(i + 1).drop_last() == sv.take(i as int));
        i += 1;
    }
    assert(sv.take(segs@.len() as int) == sv);
    if out.as_str().is_empty() {
        let rpr = run_properties(base, doc, heading, is_title);
        out.append("<w:r>");
        out.append(rpr.as_str());
        out.append("</w:r>");
    }
    out
}

// ---------------------------------------------------------------------
// Captions and tables.
// ---------------------------------------------------------------------
/// A centred caption paragraph.
pub open spec fn caption_view(doc: DocumentView, text: Seq<char>) -> ParaView {
    ParaView { ppr_inner: "<w:jc w:val=\"center\"/>"@, run: text_segments(text, None, doc, None, false, None) }
}

/// `caption_para`.
pub fn caption_para(doc: &PlanDocument, text: &str) -> (r: Para)
    ensures
        r@ == caption_view(doc@, text@),
{
    Para {
        ppr_inner: String::from_str("<w:jc w:val=\"center\"/>"),
        run: render_text_segments(text, None, doc, None, false, None),
    }
}

pub const TABLE_PROPERTIES: &'static str = "<w:tblPr><w:tblW w:w=\"5000\" w:type=\"pct\"/><w:jc w:val=\"center\"/><w:tblBorders><w:top w:val=\"single\" w:sz=\"12\"/><w:bottom w:val=\"single\" w:sz=\"12\"/><w:left w:val=\"none\" w:sz=\"0\"/><w:right w:val=\"none\" w:sz=\"0\"/><w:insideH w:val=\"none\" w:sz=\"0\"/><w:insideV w:val=\"none\" w:sz=\"0\"/></w:tblBorders></w:tblPr>";

pub const EMPTY_TABLE_ROW: &'static str = "<w:tr><w:tc><w:tcPr><w:tcW w:type=\"auto\"/></w:tcPr><w:p><w:r><w:t></w:t></w:r></w:p></w:tc></w:tr>";

/// The format of a header-row cell: bold.
pub open spec fn bold_format() -> FormatView {
    FormatView { bold: Some(true), ..PlanFormat::spec_empty()@ }
}

pub open spec fn cell_xml(doc: DocumentView, cell: Seq<char>, header: bool) -> Seq<char> {
    "<w:tc><w:tcPr><w:tcW w:type=\"auto\"/>"@ + (if header {
        "<w:tcBorders><w:bottom w:val=\"single\" w:sz=\"6\"/></w:tcBorders>"@
    } else {
        Seq::empty()
    }) + "</w:tcPr><w:p>"@ + text_segments(
        cell,
        if header {
            Some(bold_format())
        } else {
            None
        },
        doc,
        None,
        false,
        None,
    ) + "</w:p></w:tc>"@
}

pub open spec fn cells_xml(doc: DocumentView, row: Seq<Seq<char>>, header: bool) -> Seq<char>
    decreases row.len(),
{
    if row.len() == 0 {
        Seq::empty()
    } else {
        cells_xml(doc, row.drop_last(), header) + cell_xml(doc, row.last(), header)
    }
}

/// The first `n` rows; the first row is the header row when there are
/// at least two.
pub open spec fn rows_xml(doc: DocumentView, rows: Seq<Seq<Seq<char>>>, n: int) -> Seq<char>
    decreases n,
{
    if n <= 0 {
        Seq::empty()
    } else {
        rows_xml(doc, rows, n - 1) + "<w:tr>"@ + cells_xml(doc, rows[n - 1], n - 1 == 0 && rows.len() > 1)
            + "</w:tr>"@
    }
}

/// A three-line table (rules above and below, and under the header row).
pub open spec fn table_xml(doc: DocumentView, rows: Seq<Seq<Seq<char>>>) -> Seq<char> {
    "<w:tbl>"@ + TABLE_PROPERTIES@ + rows_xml(doc, rows, rows.len() as int) + (if rows.len() == 0 {
        EMPTY_TABLE_ROW@
    } else {
        Seq::empty()
    }) + "</w:tbl>"@
}

fn push_cell(out: &mut String, doc: &PlanDocument, cell: &str, header: bool, base: Option<&PlanFormat>)
    requires
        opt_fmt(base) == if header {
            Some(bold_format())
        } else {
            None::<FormatView>
        },
    ensures
        final(out)@ == old(out)@ + cell_xml(doc@, cell@, header),
{
    let runs = render_text_segments(cell, base, doc, None, false, None);
    let mut c = String::from_str("<w:tc><w:tcPr><w:tcW w:type=\"auto\"/>");
    if header {
        c.append("<w:tcBorders><w:bottom w:val=\"single\" w:sz=\"6\"/></w:tcBorders>");
    }
    c.append("</w:tcPr><w:p>");
    c.append(runs.as_str());
    c.append("</w:p></w:tc>");
    out.append(c.as_str());
}

fn push_row(out: &mut String, doc: &PlanDocument, row: &Vec<String>, header: bool)
    ensures
        final(out)@ == old(out)@ + cells_xml(doc@, row_view(*row), header),
{
    let ghost rv = row_view(*row);
    let bold = if header {
        let mut f = PlanFormat::empty();
        f.bold = Some(true);
        Some(f)
    } else {
        None
    };
    let base = match &bold {
        Some(f) => Some(f),
        None => None,
    };
    assert(opt_fmt(base) == if header {
        Some(bold_format())
    } else {
        None::<FormatView>
    });
    let mut i: usize = 0;
    while i < row.len()
        invariant
            i <= row@.len(),
            rv == row_view(*row),
            opt_fmt(base) == if header {
                Some(bold_format())
            } else {
                None::<FormatView>
            },
            out@ == old(out)@ + cells_xml(doc@, rv.take(i as int), header),
        decreases row.len() - i,
    {
        push_cell(out, doc, row[i].as_str(), header, base);
        assert(rv.take(i + 1).drop_last() == rv.take(i as int));
        i += 1;
    }
    assert(rv.take(row@.len() as int) == rv);
}

pub open spec fn rows_view(rows: Seq<Vec<String>>) -> Seq<Seq<Seq<char>>> {
    rows.map_values(|r: Vec<String>| row_view(r))
}

/// `build_table`.
pub fn build_table(doc: &PlanDocument, rows: &Vec<Vec<String>>) -> (r: String)
    ensures
        r@ == table_xml(doc@, rows_view(rows@)),
{
    let ghost rv = rows_view(rows@);
    let mut s = String::from_str("<w:tbl>");
    s.append(TABLE_PROPERTIES);
    let ghost head = s@;
    let row_count = rows.len();
    let mut i: usize = 0;
    while i < row_count
        invariant
            i <= row_count,
            row_count == rows@.len(),
            rv == rows_view(rows@),
            s@ == head + rows_xml(doc@, rv, i as int),
        decreases row_count - i,
    {
        let header = i == 0 && row_count > 1;
        s.append("<w:tr>");
        push_row(&mut s, doc, &rows[i], header);
        s.append("</w:tr>");
        i += 1;
    }
    if row_count == 0 {
        s.append(EMPTY_TABLE_ROW);
    }
    s.append("</w:tbl>");
    s
}

// ---------------------------------------------------------------------
// Equations.
// ---------------------------------------------------------------------
/// The OMML of an equation, when it is given and not blank.
pub open spec fn equation_xml(e: Option<EquationView>) -> Option<Seq<char>> {
    match e {
        Some(v) => match v.xml {
            Some(x) => if trimmed(x).len() > 0 {
                Some(x)
            } else {
                None
            },
            None => None,
        },
        None => None,
    }
}

pub open spec fn equation_display(e: Option<EquationView>) -> bool {
    match e {
        Some(v) => match v.display_mode {
            Some(m) => lower_seq(m) == lower_seq("display"@),
            None => false,
        },
        None => false,
    }
}

pub open spec fn equation_text(e: Option<EquationView>) -> Seq<char> {
    match e {
        Some(v) => or_empty(v.text),
        None => Seq::empty(),
    }
}

/// Display OMML wrapped in an `m:oMathPara` centred as a group.
pub open spec fn omml_para(x: Seq<char>) -> Seq<char> {
    "<m:oMathPara><m:oMathParaPr><m:jc m:val=\"centerGroup\"/></m:oMathParaPr>"@ + x + "</m:oMathPara>"@
}

/// The OMML written for an equation: in display mode it is wrapped in
/// `omml_para`, unless it already is an `m:oMathPara`.
pub open spec fn omml_run(x: Seq<char>, display: bool) -> Seq<char> {
    if display && !crate::analyze::starts_with(trimmed(x), "<m:oMathPara"@) {
        omml_para(x)
    } else {
        x
    }
}

/// An equation paragraph: the given OMML (without line spacing, which
/// would clip tall math; see `omml_run`), else its text run through
/// `split`, else an empty run; display equations are centred.
pub open spec fn equation_view(doc: DocumentView, b: BlockView) -> ParaView {
    let fv = fmt_of(b.format);
    let xml = equation_xml(b.equation);
    let text = equation_text(b.equation);
    let align = if equation_display(b.equation) {
        Some("center"@)
    } else {
        fv.align
    };
    let line = if xml is Some {
        None
    } else {
        or_else(fv.line_spacing, doc_line(doc))
    };
    ParaView {
        ppr_inner: val_tag("<w:jc w:val=\""@, mapped_align(align)) + ind_xml(fv.first_line_indent, fv.first_line_chars, fv.hanging_indent, fv.hanging_chars)
            + spacing_xml(fv.before_spacing, fv.after_spacing, line, rule_or_auto(fv.line_spacing_rule)),
        run: match xml {
            Some(x) => omml_run(x, equation_display(b.equation)),
            None => if text.len() > 0 {
                text_segments(text, None, doc, None, false, None)
            } else {
                "<w:r>"@ + run_props(None, doc, None, false) + "</w:r>"@
            },
        },
    }
}

fn equation_parts(block: &PlanBlock) -> (r: (Option<&str>, &str, bool))
    ensures
        osv(r.0) == equation_xml(block@.equation),
        r.1@ == equation_text(block@.equation),
        r.2 == equation_display(block@.equation),
{
    match &block.equation {
        Some(e) => {
            let xml = match &e.xml {
                Some(x) => if trim_string(x.as_str()).as_str().is_empty() {
                    None
                } else {
                    Some(x.as_str())
                },
                None => None,
            };
            let text = match &e.text {
                Some(t) => t.as_str(),
                None => "",
            };
            proof {
                reveal_strlit("");
            }
            let display = match &e.display_mode {
                Some(m) => eq_ignore_ascii_case(m.as_str(), "display"),
                None => false,
            };
            (xml, text, display)
        },
        None => {
            proof {
                reveal_strlit("");
            }
            (None, "", false)
        },
    }
}

fn omml_string(x: &str, display: bool) -> (r: String)
    ensures
        r@ == omml_run(x@, display),
{
    let t = trim_string(x);
    let tv = crate::text::chars_of(t.as_str());
    if display && !crate::analyze::starts_with_str(&tv, "<m:oMathPara") {
        let mut r = String::from_str("<m:oMathPara><m:oMathParaPr><m:jc m:val=\"centerGroup\"/></m:oMathParaPr>");
        r.append(x);
        r.append("</m:oMathPara>");
        proof {
            reveal_strlit("<m:oMathPara><m:oMathParaPr><m:jc m:val=\"centerGroup\"/></m:oMathParaPr>");
            reveal_strlit("</m:oMathPara>");
        }
        r
    } else {
        String::from_str(x)
    }
}

/// `equation_para`.
pub fn equation_para(doc: &PlanDocument, block: &PlanBlock) -> (r: Para)
    ensures
        r@ == equation_view(doc@, block@),
{
    let (xml, text, display) = equation_parts(block);
    let pf = match &block.format {
        Some(f) => Some(f),
        None => None,
    };
    assert(opt_fmt(pf) == block@.format);
    let mut ppr = String::new();
    let align = if display {
        Some("center")
    } else {
        fmt_field(pf, 6)
    };
    let mapped = match align {
        Some(a) => map_align(a),
        None => None,
    };
    match mapped {
        Some(a) => {
            ppr.append("<w:jc w:val=\"");
            ppr.append(a);
            ppr.append("\"/>");
        },
        None => {},
    }
    push_ind(&mut ppr, fmt_field(pf, 7), fmt_field(pf, 13), fmt_field(pf, 8), fmt_field(pf, 14));
    let line: Option<String> = if xml.is_some() {
        None
    } else {
        match fmt_field(pf, 9) {
            Some(v) => Some(String::from_str(v)),
            None => match doc.line_spacing_twips {
                Some(t) => Some(crate::text::int_string(t)),
                None => None,
            },
        }
    };
    let line_ref = match &line {
        Some(l) => Some(l.as_str()),
        None => None,
    };
    let rule = line_rule(fmt_field(pf, 10));
    push_spacing(&mut ppr, fmt_field(pf, 11), fmt_field(pf, 12), line_ref, rule);
    let run = match xml {
        Some(x) => omml_string(x, display),
        None => if !text.is_empty() {
            render_text_segments(text, None, doc, None, false, None)
        } else {
            let rpr = run_properties(None, doc, None, false);
            let mut r = String::from_str("<w:r>");
            r.append(rpr.as_str());
            r.append("</w:r>");
            r
        },
    };
    Para { ppr_inner: ppr, run }
}

// ---------------------------------------------------------------------
// Images.
// ---------------------------------------------------------------------
/// `Path::file_name` of a path, through `to_string_lossy`. Which characters
/// separate path components depends on the platform, so nothing is stated
/// of the name but that it is not empty.
#[verifier::external_body]
fn path_file_name(path: &str) -> (r: Option<String>)
    ensures
        r matches Some(n) ==> n@.len() > 0,
{
    match std::path::Path::new(path).file_name() {
        Some(n) => Some(n.to_string_lossy().to_string()),
        None => None,
    }
}

/// `Path::extension` of a path, when it is valid UTF-8: the part of the
/// file name after its last dot. What the file name is depends on the
/// platform, so nothing is stated of the extension but that it holds no dot.
#[verifier::external_body]
fn path_extension(path: &str) -> (r: Option<String>)
    ensures
        r matches Some(e) ==> forall|i: int| 0 <= i < e@.len() ==> e@[i] != '.',
{
    match std::path::Path::new(path).extension() {
        Some(e) => match e.to_str() {
            Some(x) => Some(x.to_string()),
            None => None,
        },
        None => None,
    }
}

/// An image file a plan may name: its path, its bytes (`None` when it
/// could not be read), and its file name and extension.
pub struct ImageFile {
    pub path: String,
    pub bytes: Option<Vec<u8>>,
    pub file_name: Option<String>,
    pub extension: Option<String>,
}

pub struct ImageFileView {
    pub path: Seq<char>,
    pub bytes: Option<Seq<u8>>,
    pub file_name: Option<Seq<char>>,
    pub extension: Option<Seq<char>>,
}

impl View for ImageFile {
    type V = ImageFileView;

    open spec fn view(&self) -> ImageFileView {
        ImageFileView {
            path: self.path@,
            bytes: match self.bytes {
                Some(b) => Some(b@),
                None => None,
            },
            file_name: ov(self.file_name),
            extension: ov(self.extension),
        }
    }
}

pub open spec fn images_view(v: Seq<ImageFile>) -> Seq<ImageFileView> {
    v.map_values(|f: ImageFile| f@)
}

impl ImageFile {
    /// An image file at `path` with the bytes read from it; its name and
    /// extension are taken from the path.
    pub fn open(path: String, bytes: Option<Vec<u8>>) -> (r: Self)
        ensures
            r.path == path,
            r.bytes == bytes,
            r.file_name matches Some(n) ==> n@.len() > 0,
            r.extension matches Some(e) ==> forall|i: int| 0 <= i < e@.len() ==> e@[i] != '.',
    {
        let file_name = path_file_name(path.as_str());
        let extension = path_extension(path.as_str());
        ImageFile { path, bytes, file_name, extension }
    }
}

/// The first image file at `path`.
pub open spec fn find_image(images: Seq<ImageFileView>, path: Seq<char>) -> Option<ImageFileView>
    decreases images.len(),
{
    if images.len() == 0 {
        None
    } else if images[0].path == path {
        Some(images[0])
    } else {
        find_image(images.drop_first(), path)
    }
}

fn lookup_image<'a>(images: &'a Vec<ImageFile>, path: &str) -> (r: Option<&'a ImageFile>)
    ensures
        match r {
            Some(f) => find_image(images_view(images@), path@) == Some(f@),
            None => find_image(images_view(images@), path@) is None,
        },
{
    let ghost iv = images_view(images@);
    assert(iv.skip(0) == iv);
    let mut i: usize = 0;
    while i < images.len()
        invariant
            i <= images@.len(),
            iv == images_view(images@),
            find_image(iv, path@) == find_image(iv.skip(i as int), path@),
        decreases images.len() - i,
    {
        assert(iv.skip(i as int).drop_first() == iv.skip(i + 1));
        if str_eq(images[i].path.as_str(), path) {
            return Some(&images[i]);
        }
        i += 1;
    }
    assert(iv.skip(i as int).len() == 0);
    None
}

pub open spec fn image_ct_ext(c: Seq<char>) -> Option<Seq<char>> {
    let l = lower_seq(c);
    if l == "image/png"@ {
        Some("png"@)
    } else if l == "image/jpeg"@ || l == "image/jpg"@ {
        Some("jpeg"@)
    } else if l == "image/gif"@ {
        Some("gif"@)
    } else if l == "image/bmp"@ {
        Some("bmp"@)
    } else if l == "image/tiff"@ {
        Some("tiff"@)
    } else if l == "image/x-emf"@ {
        Some("emf"@)
    } else if l == "image/x-wmf"@ {
        Some("wmf"@)
    } else {
        None
    }
}

pub open spec fn image_file_ext(e: Seq<char>) -> Seq<char> {
    let l = lower_seq(e);
    if l == "png"@ {
        "png"@
    } else if l == "jpg"@ || l == "jpeg"@ {
        "jpeg"@
    } else if l == "gif"@ {
        "gif"@
    } else if l == "bmp"@ {
        "bmp"@
    } else if l == "tif"@ || l == "tiff"@ {
        "tiff"@
    } else if l == "emf"@ {
        "emf"@
    } else if l == "wmf"@ {
        "wmf"@
    } else {
        "png"@
    }
}

/// The extension an image is stored under: by its content type when that
/// names one, else by its file extension, else `png`.
pub open spec fn ext_for(extension: Option<Seq<char>>, content_type: Option<Seq<char>>) -> Seq<char> {
    match match content_type {
        Some(c) => image_ct_ext(c),
        None => None,
    } {
        Some(e) => e,
        None => match extension {
            Some(e) => image_file_ext(e),
            None => "png"@,
        },
    }
}

/// `image_ext`, given the path's extension.
pub fn image_ext(extension: Option<&str>, content_type: Option<&str>) -> (r: &'static str)
    ensures
        r@ == ext_for(osv(extension), osv(content_type)),
        ext_slot(r@) >= 0 && ext_name(ext_slot(r@)) == r@,
{
    proof {
        lemma_ext_slot(0);
        lemma_ext_slot(1);
        lemma_ext_slot(2);
        lemma_ext_slot(3);
        lemma_ext_slot(4);
        lemma_ext_slot(5);
        lemma_ext_slot(6);
    }
    match content_type {
        Some(c) => {
            let l = to_ascii_lowercase(c);
            let l = l.as_str();
            if str_eq(l, "image/png") {
                return "png";
            } else if str_eq(l, "image/jpeg") || str_eq(l, "image/jpg") {
                return "jpeg";
            } else if str_eq(l, "image/gif") {
                return "gif";
            } else if str_eq(l, "image/bmp") {
                return "bmp";
            } else if str_eq(l, "image/tiff") {
                return "tiff";
            } else if str_eq(l, "image/x-emf") {
                return "emf";
            } else if str_eq(l, "image/x-wmf") {
                return "wmf";
            }
        },
        None => {},
    }
    match extension {
        Some(e) => {
            let l = to_ascii_lowercase(e);
            let l = l.as_str();
            if str_eq(l, "png") {
                "png"
            } else if str_eq(l, "jpg") || str_eq(l, "jpeg") {
                "jpeg"
            } else if str_eq(l, "gif") {
                "gif"
            } else if str_eq(l, "bmp") {
                "bmp"
            } else if str_eq(l, "tif") || str_eq(l, "tiff") {
                "tiff"
            } else if str_eq(l, "emf") {
                "emf"
            } else if str_eq(l, "wmf") {
                "wmf"
            } else {
                "png"
            }
        },
        None => "png",
    }
}

/// An inline DrawingML picture.
pub open spec fn drawing_xml(w: i64, h: i64, name: Seq<char>, alt: Seq<char>, rid: Seq<char>) -> Seq<char> {
    "<w:drawing><wp:inline distT=\"0\" distB=\"0\" distL=\"0\" distR=\"0\">"@ + "<wp:extent cx=\""@ + int_decimal(
        w as int,
    ) + "\" cy=\""@ + int_decimal(h as int) + "\"/>"@ + "<wp:effectExtent l=\"0\" t=\"0\" r=\"0\" b=\"0\"/>"@
        + "<wp:docPr id=\"1\" name=\""@ + name + "\" descr=\""@ + alt + "\"/>"@
        + "<wp:cNvGraphicFramePr><a:graphicFrameLocks noChangeAspect=\"1\"/></wp:cNvGraphicFramePr>"@
        + "<a:graphic><a:graphicData uri=\"http://schemas.openxmlformats.org/drawingml/2006/picture\">"@
        + "<pic:pic><pic:nvPicPr><pic:cNvPr id=\"0\" name=\""@ + name + "\" descr=\""@ + alt
        + "\"/><pic:cNvPicPr/></pic:nvPicPr>"@ + "<pic:blipFill><a:blip r:embed=\""@ + rid
        + "\"/><a:stretch><a:fillRect/></a:stretch></pic:blipFill>"@
        + "<pic:spPr><a:xfrm><a:off x=\"0\" y=\"0\"/><a:ext cx=\""@ + int_decimal(w as int) + "\" cy=\""@
        + int_decimal(h as int) + "\"/></a:xfrm>"@
        + "<a:prstGeom prst=\"rect\"><a:avLst/></a:prstGeom></pic:spPr>"@
        + "</pic:pic></a:graphicData></a:graphic></wp:inline></w:drawing>"@
}

/// An image block: its picture paragraph, if its file was read, and the
/// package with the media part, its default content type and its
/// relationship added.
pub open spec fn image_step(b: BlockView, p: PackageView, images: Seq<ImageFileView>) -> (Option<ParaView>, PackageView) {
    match b.image {
        None => (None, p),
        Some(img) => match img.path {
            None => (None, p),
            Some(path) => match find_image(images, path) {
                None => (None, p),
                Some(f) => match f.bytes {
                    None => (None, p),
                    Some(bytes) => {
                        let ext = ext_for(f.extension, img.content_type);
                        let n = p.img_seq + 1;
                        let media = "media/image"@ + decimal(n) + "."@ + ext;
                        let p2 = p.with_default(ext_slot(ext)).with_image().with_part(
                            EntryView { path: "word/"@ + media, bytes, stored: true },
                        );
                        let rid = p2.next_rid();
                        let p3 = p2.with_rel(R_NS@ + "/image"@, media);
                        let w = match img.width_emu {
                            Some(x) => x,
                            None => 4000000,
                        };
                        let h = match img.height_emu {
                            Some(x) => x,
                            None => 3000000,
                        };
                        let name = match f.file_name {
                            Some(x) => x,
                            None => "image"@,
                        };
                        let alt = match img.alt_text {
                            Some(a) => a,
                            None => name,
                        };
                        (
                            Some(
                                ParaView {
                                    ppr_inner: Seq::empty(),
                                    run: "<w:r>"@ + drawing_xml(w, h, escaped(name), escaped(alt), rid) + "</w:r>"@,
                                },
                            ),
                            p3,
                        )
                    },
                },
            },
        },
    }
}

fn push_drawing(out: &mut String, w: i64, h: i64, name: &str, alt: &str, rid: &str)
    ensures
        final(out)@ == old(out)@ + drawing_xml(w, h, escaped(name@), escaped(alt@), rid@),
{
    let mut d = String::from_str("<w:drawing><wp:inline distT=\"0\" distB=\"0\" distL=\"0\" distR=\"0\">");
    d.append("<wp:extent cx=\"");
    push_int(&mut d, w);
    d.append("\" cy=\"");
    push_int(&mut d, h);
    d.append("\"/>");
    d.append("<wp:effectExtent l=\"0\" t=\"0\" r=\"0\" b=\"0\"/>");
    d.append("<wp:docPr id=\"1\" name=\"");
    push_escaped(&mut d, name);
    d.append("\" descr=\"");
    push_escaped(&mut d, alt);
    d.append("\"/>");
    d.append("<wp:cNvGraphicFramePr><a:graphicFrameLocks noChangeAspect=\"1\"/></wp:cNvGraphicFramePr>");
    d.append("<a:graphic><a:graphicData uri=\"http://schemas.openxmlformats.org/drawingml/2006/picture\">");
    d.append("<pic:pic><pic:nvPicPr><pic:cNvPr id=\"0\" name=\"");
    push_escaped(&mut d, name);
    d.append("\" descr=\"");
    push_escaped(&mut d, alt);
    d.append("\"/><pic:cNvPicPr/></pic:nvPicPr>");
    d.append("<pic:blipFill><a:blip r:embed=\"");
    d.append(rid);
    d.append("\"/><a:stretch><a:fillRect/></a:stretch></pic:blipFill>");
    d.append("<pic:spPr><a:xfrm><a:off x=\"0\" y=\"0\"/><a:ext cx=\"");
    push_int(&mut d, w);
    d.append("\" cy=\"");
    push_int(&mut d, h);
    d.append("\"/></a:xfrm>");
    d.append("<a:prstGeom prst=\"rect\"><a:avLst/></a:prstGeom></pic:spPr>");
    d.append("</pic:pic></a:graphicData></a:graphic></wp:inline></w:drawing>");
    out.append(d.as_str());
}

/// `image_paragraph`: the picture paragraph of an image block (none when
/// the block names no image or its file could not be read), registering
/// the media part and its relationship.
pub fn image_paragraph(block: &PlanBlock, pkg: &mut Package, images: &Vec<ImageFile>) -> (r: Option<Para>)
    requires
        old(pkg).wf(),
        old(pkg)@.rels.len() + 3 <= u32::MAX,
        old(pkg)@.img_seq + 1 < u32::MAX,
    ensures
        final(pkg).wf(),
        (opt_para(r), final(pkg)@) == image_step(block@, old(pkg)@, images_view(images@)),
{
    let img = match &block.image {
        Some(i) => i,
        None => {
            return None;
        },
    };
    let path = match &img.path {
        Some(p) => p.as_str(),
        None => {
            return None;
        },
    };
    let file = match lookup_image(images, path) {
        Some(f) => f,
        None => {
            return None;
        },
    };
    let bytes = match &file.bytes {
        Some(b) => b,
        None => {
            return None;
        },
    };
    let ext = image_ext(opt_str(&file.extension), opt_str(&img.content_type));
    pkg.add_default(ext_slot_of(ext));
    let seq_no = pkg.next_image();
    let mut media = String::from_str("media/image");
    push_decimal(&mut media, seq_no as u64);
    media.append(".");
    media.append(ext);
    let mut part_path = String::from_str("word/");
    part_path.append(media.as_str());
    pkg.add_part(ZipEntry { path: part_path, bytes: bytes.clone(), compression: Compression::Stored });
    let mut rel_type = String::from_str(R_NS);
    rel_type.append("/image");
    let rid = pkg.add_rel(rel_type.as_str(), media.as_str());
    let w = match img.width_emu {
        Some(x) => x,
        None => 4000000,
    };
    let h = match img.height_emu {
        Some(x) => x,
        None => 3000000,
    };
    let name: &str = match &file.file_name {
        Some(n) => n.as_str(),
        None => "image",
    };
    let alt: &str = match &img.alt_text {
        Some(a) => a.as_str(),
        None => name,
    };
    let mut run = String::from_str("<w:r>");
    push_drawing(&mut run, w, h, name, alt, rid.as_str());
    run.append("</w:r>");
    Some(Para { ppr_inner: String::new(), run })
}

pub open spec fn opt_para(o: Option<Para>) -> Option<ParaView> {
    match o {
        Some(p) => Some(p@),
        None => None,
    }
}

// ---------------------------------------------------------------------
// Source blocks.
// ---------------------------------------------------------------------
/// The source block at `path`; of several, the last.
pub open spec fn source_lookup(v: Seq<SourceBlockView>, path: Seq<char>) -> Option<SourceBlockView>
    decreases v.len(),
{
    if v.len() == 0 {
        None
    } else if v.last().path == path {
        Some(v.last())
    } else {
        source_lookup(v.drop_last(), path)
    }
}

/// The source block at `path`; of several, the last (as a map built from
/// them in order would hold).
pub fn find_source<'a>(source: &'a Vec<SourceBlock>, path: &str) -> (r: Option<&'a SourceBlock>)
    ensures
        match r {
            Some(b) => source_lookup(source_view(source@), path@) == Some(b@),
            None => source_lookup(source_view(source@), path@) is None,
        },
{
    let ghost sv = source_view(source@);
    assert(sv.take(sv.len() as int) == sv);
    let mut i: usize = source.len();
    while i > 0
        invariant
            i <= source@.len(),
            sv == source_view(source@),
            source_lookup(sv, path@) == source_lookup(sv.take(i as int), path@),
        decreases i,
    {
        assert(sv.take(i as int).drop_last() == sv.take(i - 1));
        if str_eq(source[i - 1].path.as_str(), path) {
            return Some(&source[i - 1]);
        }
        i -= 1;
    }
    assert(sv.take(0).len() == 0);
    None
}

// ---------------------------------------------------------------------
// Blocks.
// ---------------------------------------------------------------------
pub open spec fn source_opt(source: Option<&Vec<SourceBlock>>) -> Option<Seq<SourceBlockView>> {
    match source {
        Some(v) => Some(source_view(v@)),
        None => None,
    }
}

/// The source block a plan block refers to, if a source is given.
pub open spec fn overlay_of(b: BlockView, source: Option<Seq<SourceBlockView>>) -> Option<SourceBlockView> {
    match b.source_ref {
        Some(r) => match source {
            Some(m) => source_lookup(m, r),
            None => None,
        },
        None => None,
    }
}

/// The block's role, trimmed and lower-cased; a source heading level of
/// 1 to 3 makes it that heading.
pub open spec fn block_role(b: BlockView, overlay: Option<SourceBlockView>) -> Seq<char> {
    let role = key(b.role);
    match overlay {
        Some(sb) => match sb.heading_level {
            Some(l) => if l == 1 {
                "heading1"@
            } else if l == 2 {
                "heading2"@
            } else if l == 3 {
                "heading3"@
            } else {
                role
            },
            None => role,
        },
        None => role,
    }
}

pub open spec fn role_level(role: Seq<char>) -> Option<u8> {
    if role == "heading1"@ {
        Some(1u8)
    } else if role == "heading2"@ {
        Some(2u8)
    } else if role == "heading3"@ {
        Some(3u8)
    } else {
        None
    }
}

/// The text of a paragraph block: the source block's, else its own, else
/// (for a caption) its caption.
pub open spec fn block_text(b: BlockView, overlay: Option<SourceBlockView>, role: Seq<char>) -> Seq<char> {
    match overlay {
        Some(sb) => sb.text,
        None => match b.text {
            Some(t) => t,
            None => if role == "caption"@ {
                or_empty(b.caption)
            } else {
                Seq::empty()
            },
        },
    }
}

/// A caption that is present and not blank.
pub open spec fn caption_of(b: BlockView) -> Option<Seq<char>> {
    match b.caption {
        Some(c) => if trimmed(c).len() > 0 {
            Some(c)
        } else {
            None
        },
        None => None,
    }
}

pub open spec fn caption_elems(doc: DocumentView, b: BlockView) -> Seq<ElemView> {
    match caption_of(b) {
        Some(c) => seq![ElemView::Para(caption_view(doc, c))],
        None => Seq::empty(),
    }
}

/// The runs of a reference entry: `[`, the bookmarked number, `]`, a tab,
/// the content.
pub open spec fn entry_runs(rp: Seq<char>, n: u32, bid: u32, content: Seq<char>) -> Seq<char> {
    "<w:r>"@ + rp + "<w:t>[</w:t></w:r>"@ + "<w:bookmarkStart w:id=\""@ + decimal(bid as nat) + "\" w:name=\""@
        + BOOKMARK_PREFIX@ + decimal(n as nat) + "\"/>"@ + "<w:r>"@ + rp + "<w:t>"@ + decimal(n as nat)
        + "</w:t></w:r>"@ + "<w:bookmarkEnd w:id=\""@ + decimal(bid as nat) + "\"/>"@ + "<w:r>"@ + rp
        + "<w:t>]</w:t></w:r>"@ + "<w:r>"@ + rp + "<w:tab/></w:r>"@ + (if content.len() > 0 {
        text_run(rp, content)
    } else {
        Seq::empty()
    })
}

/// A reference entry `[n] content`: the number bookmarked (digits only,
/// brackets outside), a tab, the content; a hanging indent and a tab stop
/// are added unless the format sets them.
pub open spec fn reference_view(doc: DocumentView, b: BlockView, n: u32, bid: u32, content: Seq<char>) -> ParaView {
    let runs = entry_runs(run_props(b.format, doc, None, false), n, bid, content);
    let ppr0 = para_props(b.format, doc, None);
    let ppr1 = if has_substring(ppr0, "<w:ind"@) {
        ppr0
    } else {
        ppr0 + "<w:ind w:hangingChars=\""@ + DEFAULT_HANGING_CHARS@ + "\"/>"@
    };
    let ppr2 = if has_substring(ppr1, "<w:tabs"@) {
        ppr1
    } else {
        ppr1 + "<w:tabs><w:tab w:val=\"left\" w:pos=\""@ + DEFAULT_TAB_POSITION@ + "\"/></w:tabs>"@
    };
    ParaView { ppr_inner: ppr2, run: runs }
}

/// The format of a source run: its bold, italic and vertical alignment.
pub open spec fn source_run_format(sr: RunView) -> FormatView {
    FormatView {
        bold: if sr.bold {
            Some(true)
        } else {
            None
        },
        italic: if sr.italic {
            Some(true)
        } else {
            None
        },
        vertical_align: sr.vertical_align,
        ..PlanFormat::spec_empty()@
    }
}

/// A source run: a tab, or its text with its own formatting; with
/// references normalized, citations in a superscript run become REF
/// fields, as in generated text.
pub open spec fn source_run_xml(
    sr: RunView,
    doc: DocumentView,
    heading: Option<u8>,
    is_title: bool,
    rp: Seq<char>,
    rn: Option<Map<u32, u32>>,
) -> Seq<char> {
    if sr.kind == Some("tab"@) {
        "<w:r>"@ + rp + "<w:tab/></w:r>"@
    } else if sr.text.len() == 0 {
        Seq::empty()
    } else {
        let srp = run_props(Some(source_run_format(sr)), doc, heading, is_title);
        match rn {
            Some(refs) => if sr.vertical_align == Some("superscript"@) {
                match citations(sr.text, refs) {
                    Some(p) => pieces_xml(srp, p),
                    None => text_run(srp, sr.text),
                }
            } else {
                text_run(srp, sr.text)
            },
            None => text_run(srp, sr.text),
        }
    }
}

pub open spec fn source_runs_xml(
    runs: Seq<RunView>,
    doc: DocumentView,
    heading: Option<u8>,
    is_title: bool,
    rp: Seq<char>,
    rn: Option<Map<u32, u32>>,
) -> Seq<char>
    decreases runs.len(),
{
    if runs.len() == 0 {
        Seq::empty()
    } else {
        source_runs_xml(runs.drop_last(), doc, heading, is_title, rp, rn) + source_run_xml(
            runs.last(),
            doc,
            heading,
            is_title,
            rp,
            rn,
        )
    }
}

/// The runs of a paragraph block: the source block's runs (keeping their
/// bold, italic and vertical alignment; see `source_run_xml`), a PAGE
/// field, or its text.
pub open spec fn block_runs(
    doc: DocumentView,
    b: BlockView,
    overlay: Option<SourceBlockView>,
    role: Seq<char>,
    rn: Option<Map<u32, u32>>,
) -> Seq<char> {
    let heading = role_level(role);
    let is_title = role == "title"@;
    let rp = run_props(b.format, doc, heading, is_title);
    let text = block_text(b, overlay, role);
    let own = if role == "pagenumber"@ {
        crate::parts::page_field(rp)
    } else {
        text_segments(text, b.format, doc, heading, is_title, rn)
    };
    match overlay {
        Some(sb) => if sb.runs.len() > 0 {
            source_runs_xml(sb.runs, doc, heading, is_title, rp, rn)
        } else {
            own
        },
        None => own,
    }
}

/// A paragraph block: a reference entry when references are normalized
/// and its text starts with a known `[n]`, else a paragraph with the
/// block's format.
pub open spec fn text_block_view(
    doc: DocumentView,
    b: BlockView,
    overlay: Option<SourceBlockView>,
    role: Seq<char>,
    rn: Option<Map<u32, u32>>,
) -> ParaView {
    let text = block_text(b, overlay, role);
    let plain = ParaView {
        ppr_inner: para_props(b.format, doc, role_level(role)),
        run: block_runs(doc, b, overlay, role, rn),
    };
    match rn {
        Some(refs) => match leading_ref_split(text) {
            Some((n, content)) => if refs.contains_key(n) {
                reference_view(doc, b, n, refs[n], content)
            } else {
                plain
            },
            None => plain,
        },
        None => plain,
    }
}

/// The elements of one block, and the package after it.
#[verifier::opaque]
pub open spec fn block_step(
    doc: DocumentView,
    b: BlockView,
    p: PackageView,
    source: Option<Seq<SourceBlockView>>,
    rn: Option<Map<u32, u32>>,
    images: Seq<ImageFileView>,
) -> (Seq<ElemView>, PackageView) {
    let overlay = overlay_of(b, source);
    let role = block_role(b, overlay);
    if role == "figure"@ || b.image is Some {
        let (pic, p2) = image_step(b, p, images);
        (
            match pic {
                Some(v) => seq![ElemView::Para(v)],
                None => Seq::empty(),
            } + caption_elems(doc, b),
            p2,
        )
    } else if role == "equation"@ || b.equation is Some {
        (seq![ElemView::Para(equation_view(doc, b))], p)
    } else if role == "table"@ || b.table is Some {
        let rows = match b.table {
            Some(t) => t,
            None => Seq::empty(),
        };
        (caption_elems(doc, b) + seq![ElemView::Raw(table_xml(doc, rows))], p)
    } else {
        (seq![ElemView::Para(text_block_view(doc, b, overlay, role, rn))], p)
    }
}

fn push_source_runs(
    out: &mut String,
    runs: &Vec<SourceRun>,
    doc: &PlanDocument,
    heading: Option<u8>,
    is_title: bool,
    rpr: &str,
    rn: Option<&RefNormalize>,
)
    ensures
        final(out)@ == old(out)@ + source_runs_xml(runs_view(runs@), doc@, heading, is_title, rpr@, rn_view(rn)),
{
    let ghost rv = runs_view(runs@);
    let mut i: usize = 0;
    while i < runs.len()
        invariant
            i <= runs@.len(),
            rv == runs_view(runs@),
            out@ == old(out)@ + source_runs_xml(rv.take(i as int), doc@, heading, is_title, rpr@, rn_view(rn)),
        decreases runs.len() - i,
    {
        let sr = &runs[i];
        let ghost before = out@;
        let is_tab = match &sr.kind {
            Some(k) => str_eq(k.as_str(), "tab"),
            None => false,
        };
        if is_tab {
            out.append("<w:r>");
            out.append(rpr);
            out.append("<w:tab/></w:r>");
        } else if !sr.text.as_str().is_empty() {
            let mut f = PlanFormat::empty();
            if sr.bold {
                f.bold = Some(true);
            }
            if sr.italic {
                f.italic = Some(true);
            }
            f.vertical_align = clone_opt(&sr.vertical_align);
            assert(f@ == source_run_format(sr@));
            let rp = run_properties(Some(&f), doc, heading, is_title);
            let pieces = match rn {
                Some(r) => {
                    let sup = match &sr.vertical_align {
                        Some(v) => str_eq(v.as_str(), "superscript"),
                        None => false,
                    };
                    if sup {
                        split_super_for_citations(sr.text.as_str(), &r.refs)
                    } else {
                        None
                    }
                },
                None => None,
            };
            match pieces {
                Some(p) => push_pieces(out, rp.as_str(), &p),
                None => push_text_run(out, rp.as_str(), sr.text.as_str()),
            }
        }
        assert(out@ == before + source_run_xml(rv[i as int], doc@, heading, is_title, rpr@, rn_view(rn)));
        assert(rv.take(i + 1).drop_last() == rv.take(i as int));
        i += 1;
    }
    assert(rv.take(runs@.len() as int) == rv);
}

fn reference_para(doc: &PlanDocument, block: &PlanBlock, n: u32, bid: u32, content: &str) -> (r: Para)
    ensures
        r@ == reference_view(doc@, block@, n, bid, content@),
{
    let fmt = match &block.format {
        Some(f) => Some(f),
        None => None,
    };
    assert(opt_fmt(fmt) == block@.format);
    let rpr = run_properties(fmt, doc, None, false);
    let rpr = rpr.as_str();
    let mut runs = String::from_str("<w:r>");
    runs.append(rpr);
    runs.append("<w:t>[</w:t></w:r>");
    runs.append("<w:bookmarkStart w:id=\"");
    push_decimal(&mut runs, bid as u64);
    runs.append("\" w:name=\"");
    runs.append(BOOKMARK_PREFIX);
    push_decimal(&mut runs, n as u64);
    runs.append("\"/>");
    runs.append("<w:r>");
    runs.append(rpr);
    runs.append("<w:t>");
    push_decimal(&mut runs, n as u64);
    runs.append("</w:t></w:r>");
    runs.append("<w:bookmarkEnd w:id=\"");
    push_decimal(&mut runs, bid as u64);
    runs.append("\"/>");
    runs.append("<w:r>");
    runs.append(rpr);
    runs.append("<w:t>]</w:t></w:r>");
    runs.append("<w:r>");
    runs.append(rpr);
    runs.append("<w:tab/></w:r>");
    if !content.is_empty() {
        push_text_run(&mut runs, rpr, content);
    }
    let mut ppr_inner = paragraph_properties_inner(fmt, doc, None);
    if !contains_str(ppr_inner.as_str(), "<w:ind") {
        ppr_inner.append("<w:ind w:hangingChars=\"");
        ppr_inner.append(DEFAULT_HANGING_CHARS);
        ppr_inner.append("\"/>");
    }
    if !contains_str(ppr_inner.as_str(), "<w:tabs") {
        ppr_inner.append("<w:tabs><w:tab w:val=\"left\" w:pos=\"");
        ppr_inner.append(DEFAULT_TAB_POSITION);
        ppr_inner.append("\"/></w:tabs>");
    }
    Para { ppr_inner, run: runs }
}

fn heading_role(role: &str) -> (r: Option<u8>)
    ensures
        r == role_level(role@),
{
    if str_eq(role, "heading1") {
        Some(1)
    } else if str_eq(role, "heading2") {
        Some(2)
    } else if str_eq(role, "heading3") {
        Some(3)
    } else {
        None
    }
}

fn caption_elements(doc: &PlanDocument, block: &PlanBlock, out: &mut Vec<BodyElem>)
    ensures
        elems_view(final(out)@) == elems_view(old(out)@) + caption_elems(doc@, block@),
{
    match &block.caption {
        Some(c) => {
            if !trim_string(c.as_str()).as_str().is_empty() {
                out.push(BodyElem::Para(caption_para(doc, c.as_str())));
                assert(elems_view(out@) =~= elems_view(old(out)@) + caption_elems(doc@, block@));
            } else {
                assert(elems_view(out@) =~= elems_view(old(out)@) + caption_elems(doc@, block@));
            }
        },
        None => {
            assert(elems_view(out@) =~= elems_view(old(out)@) + caption_elems(doc@, block@));
        },
    }
}

fn text_block(
    doc: &PlanDocument,
    block: &PlanBlock,
    overlay: Option<&SourceBlock>,
    role: &str,
    rn: Option<&RefNormalize>,
) -> (r: Para)
    ensures
        r@ == text_block_view(doc@, block@, opt_source(overlay), role@, rn_view(rn)),
{
    let heading_level = heading_role(role);
    let is_title = str_eq(role, "title");
    let text: String = match overlay {
        Some(sb) => sb.text.clone(),
        None => match &block.text {
            Some(t) => t.clone(),
            None => if str_eq(role, "caption") {
                match &block.caption {
                    Some(c) => c.clone(),
                    None => String::new(),
                }
            } else {
                String::new()
            },
        },
    };
    assert(text@ == block_text(block@, opt_source(overlay), role@));
    let fmt = match &block.format {
        Some(f) => Some(f),
        None => None,
    };
    assert(opt_fmt(fmt) == block@.format);
    match rn {
        Some(r) => match split_leading_ref(text.as_str()) {
            Some((n, content)) => match r.refs.get(&n) {
                Some(bid) => {
                    return reference_para(doc, block, n, *bid, content.as_str());
                },
                None => {},
            },
            None => {},
        },
        None => {},
    }
    let ppr_inner = paragraph_properties_inner(fmt, doc, heading_level);
    let rpr = run_properties(fmt, doc, heading_level, is_title);
    let mut run = String::new();
    let from_source = match overlay {
        Some(sb) => sb.runs.len() > 0,
        None => false,
    };
    if from_source {
        match overlay {
            Some(sb) => push_source_runs(&mut run, &sb.runs, doc, heading_level, is_title, rpr.as_str(), rn),
            None => {},
        }
    } else if str_eq(role, "pagenumber") {
        run.append("<w:fldSimple w:instr=\" PAGE \"><w:r>");
        run.append(rpr.as_str());
        run.append("<w:t>1</w:t></w:r></w:fldSimple>");
    } else {
        run = render_text_segments(text.as_str(), fmt, doc, heading_level, is_title, rn);
    }
    Para { ppr_inner, run }
}

pub open spec fn opt_source(o: Option<&SourceBlock>) -> Option<SourceBlockView> {
    match o {
        Some(b) => Some(b@),
        None => None,
    }
}

/// `render_block`: the body elements of one plan block (figure, equation,
/// table or paragraph), with images registered in the package.
pub fn render_block(
    doc: &PlanDocument,
    block: &PlanBlock,
    pkg: &mut Package,
    source: Option<&Vec<SourceBlock>>,
    rn: Option<&RefNormalize>,
    images: &Vec<ImageFile>,
) -> (r: Vec<BodyElem>)
    requires
        old(pkg).wf(),
        old(pkg)@.rels.len() + 3 <= u32::MAX,
        old(pkg)@.img_seq + 1 < u32::MAX,
    ensures
        final(pkg).wf(),
        (elems_view(r@), final(pkg)@) == block_step(
            doc@,
            block@,
            old(pkg)@,
            source_opt(source),
            rn_view(rn),
            images_view(images@),
        ),
        final(pkg)@.rels.len() <= old(pkg)@.rels.len() + 1,
        final(pkg)@.img_seq <= old(pkg)@.img_seq + 1,
{
    reveal(block_step);
    let overlay: Option<&SourceBlock> = match &block.source_ref {
        Some(r) => match source {
            Some(m) => find_source(m, r.as_str()),
            None => None,
        },
        None => None,
    };
    assert(opt_source(overlay) == overlay_of(block@, source_opt(source)));
    let mut role = trim_lower(block.role.as_str());
    match overlay {
        Some(sb) => match sb.heading_level {
            Some(lvl) => {
                if lvl == 1 {
                    role = String::from_str("heading1");
                } else if lvl == 2 {
                    role = String::from_str("heading2");
                } else if lvl == 3 {
                    role = String::from_str("heading3");
                }
            },
            None => {},
        },
        None => {},
    }
    assert(role@ == block_role(block@, opt_source(overlay)));
    let role = role.as_str();
    let mut out: Vec<BodyElem> = Vec::new();
    if str_eq(role, "figure") || block.image.is_some() {
        match image_paragraph(block, pkg, images) {
            Some(p) => out.push(BodyElem::Para(p)),
            None => {},
        }
        let ghost mid = out@;
        caption_elements(doc, block, &mut out);
        return out;
    }
    if str_eq(role, "equation") || block.equation.is_some() {
        out.push(BodyElem::Para(equation_para(doc, block)));
        assert(elems_view(out@) =~= seq![ElemView::Para(equation_view(doc@, block@))]);
        return out;
    }
    if str_eq(role, "table") || block.table.is_some() {
        caption_elements(doc, block, &mut out);
        let table = match &block.table {
            Some(t) => build_table(doc, &t.rows),
            None => build_table(doc, &Vec::new()),
        };
        out.push(BodyElem::Raw(table));
        return out;
    }
    out.push(BodyElem::Para(text_block(doc, block, overlay, role, rn)));
    assert(elems_view(out@) =~= seq![ElemView::Para(text_block_view(doc@, block@, opt_source(overlay), role@, rn_view(rn)))]);
    out
}

// ---------------------------------------------------------------------
// The document and its sections.
// ---------------------------------------------------------------------
pub open spec fn elem_xml(e: ElemView) -> Seq<char> {
    match e {
        ElemView::Para(p) => para_xml(p, Seq::empty()),
        ElemView::Raw(s) => s,
    }
}

pub open spec fn elems_xml(v: Seq<ElemView>) -> Seq<char>
    decreases v.len(),
{
    if v.len() == 0 {
        Seq::empty()
    } else {
        elems_xml(v.drop_last()) + elem_xml(v.last())
    }
}

/// `<w:sectPr>` of a section.
pub open spec fn sect_pr(section: Option<SectionView>, doc: DocumentView, is_break: bool, hf: HfSlots) -> Seq<char> {
    "<w:sectPr>"@ + section_xml(section, doc, is_break, hf.list(HfKind::Header), hf.list(HfKind::Footer))
        + "</w:sectPr>"@
}

/// The elements of a section that ends in a break: a table cannot carry
/// the break, so an empty paragraph is added after one (or when there
/// is nothing).
pub open spec fn host_elems(elems: Seq<ElemView>) -> Seq<ElemView> {
    if elems.len() > 0 && elems.last() is Para {
        elems
    } else {
        elems.push(ElemView::Para(ParaView { ppr_inner: Seq::empty(), run: "<w:r/>"@ }))
    }
}

/// One section of the body: the last section's properties follow its
/// elements; any other's go in the properties of its last paragraph.
#[verifier::opaque]
pub open spec fn group_xml(
    elems: Seq<ElemView>,
    section: Option<SectionView>,
    doc: DocumentView,
    hf: HfSlots,
    last: bool,
) -> Seq<char> {
    if last {
        elems_xml(elems) + sect_pr(section, doc, false, hf)
    } else {
        let es = host_elems(elems);
        elems_xml(es.drop_last()) + match es.last() {
            ElemView::Para(p) => para_xml(p, sect_pr(section, doc, true, hf)),
            ElemView::Raw(x) => x,
        }
    }
}

/// The first section with key `k`.
pub open spec fn first_section(v: Seq<SectionView>, k: Seq<char>) -> Option<SectionView>
    decreases v.len(),
{
    if v.len() == 0 {
        None
    } else if v[0].key == k {
        Some(v[0])
    } else {
        first_section(v.drop_first(), k)
    }
}

pub open spec fn section_for(sections: Seq<SectionView>, key: Option<Seq<char>>) -> Option<SectionView> {
    match key {
        Some(k) => first_section(sections, k),
        None => None,
    }
}

/// The end of the run of blocks, from `start`, that share its section key
/// (searching from `j`).
pub open spec fn group_end(blocks: Seq<BlockView>, start: int, j: int) -> int
    decreases blocks.len() - j,
{
    if j >= blocks.len() {
        j
    } else if blocks[j].section_key != blocks[start].section_key {
        j
    } else {
        group_end(blocks, start, j + 1)
    }
}

pub proof fn lemma_group_end(blocks: Seq<BlockView>, start: int, j: int)
    requires
        j <= blocks.len(),
    ensures
        j <= group_end(blocks, start, j) <= blocks.len(),
    decreases blocks.len() - j,
{
    if j < blocks.len() && blocks[j].section_key == blocks[start].section_key {
        lemma_group_end(blocks, start, j + 1);
    }
}

/// The elements of blocks `start..end`, rendered in order, and the
/// package after them.
pub open spec fn blocks_render(
    doc: DocumentView,
    blocks: Seq<BlockView>,
    start: int,
    end: int,
    p: PackageView,
    source: Option<Seq<SourceBlockView>>,
    rn: Option<Map<u32, u32>>,
    images: Seq<ImageFileView>,
) -> (Seq<ElemView>, PackageView)
    decreases end - start,
{
    if end <= start {
        (Seq::empty(), p)
    } else {
        let (e, p1) = blocks_render(doc, blocks, start, end - 1, p, source, rn, images);
        let (e2, p2) = block_step(doc, blocks[end - 1], p1, source, rn, images);
        (e + e2, p2)
    }
}

/// The body from block `start` on, section by section, and the package
/// after it.
pub open spec fn body_from(
    plan: PlanView,
    start: int,
    p: PackageView,
    hf: HfSlots,
    source: Option<Seq<SourceBlockView>>,
    rn: Option<Map<u32, u32>>,
    images: Seq<ImageFileView>,
) -> (Seq<char>, PackageView)
    decreases plan.blocks.len() - start,
{
    if start < 0 || start >= plan.blocks.len() {
        (Seq::empty(), p)
    } else {
        let end = group_end(plan.blocks, start, start + 1);
        proof {
            lemma_group_end(plan.blocks, start, start + 1);
        }
        let (elems, p1) = blocks_render(plan.document, plan.blocks, start, end, p, source, rn, images);
        let g = group_xml(
            elems,
            section_for(plan.sections, plan.blocks[start].section_key),
            plan.document,
            hf,
            end >= plan.blocks.len(),
        );
        let (rest, p2) = body_from(plan, end, p1, hf, source, rn, images);
        (g + rest, p2)
    }
}

/// The main document part and the package after it: the blocks in
/// sections of consecutive equal section keys (an empty plan has one
/// empty section).
#[verifier::opaque]
pub open spec fn document_spec(
    plan: PlanView,
    p: PackageView,
    hf: HfSlots,
    source: Option<Seq<SourceBlockView>>,
    rn: Option<Map<u32, u32>>,
    images: Seq<ImageFileView>,
) -> (Seq<char>, PackageView) {
    let (body, p2) = if plan.blocks.len() == 0 {
        (group_xml(Seq::empty(), None, plan.document, hf, true), p)
    } else {
        body_from(plan, 0, p, hf, source, rn, images)
    };
    (
        XML_DECL@ + "<w:document xmlns:w=\""@ + W_NS@ + "\" xmlns:r=\""@ + R_NS@ + "\" xmlns:wp=\""@ + WP_NS@
            + "\" xmlns:a=\""@ + A_NS@ + "\" xmlns:pic=\""@ + PIC_NS@ + "\" xmlns:m=\""@ + M_NS@ + "\"><w:body>"@
            + body + "</w:body></w:document>"@,
        p2,
    )
}

fn push_elems(out: &mut String, elems: &Vec<BodyElem>, upto: usize)
    requires
        upto <= elems@.len(),
    ensures
        final(out)@ == old(out)@ + elems_xml(elems_view(elems@).take(upto as int)),
{
    let ghost ev = elems_view(elems@);
    let mut i: usize = 0;
    while i < upto
        invariant
            i <= upto <= elems@.len(),
            ev == elems_view(elems@),
            out@ == old(out)@ + elems_xml(ev.take(i as int)),
        decreases upto - i,
    {
        match &elems[i] {
            BodyElem::Para(p) => {
                let x = p.serialize("");
                proof {
                    reveal_strlit("");
                    assert(""@ =~= Seq::<char>::empty());
                }
                out.append(x.as_str());
            },
            BodyElem::Raw(x) => out.append(x.as_str()),
        }
        assert(ev.take(i + 1).drop_last() == ev.take(i as int));
        i += 1;
    }
}

fn push_group(
    out: &mut String,
    elems: Vec<BodyElem>,
    section: Option<&PlanSection>,
    doc: &PlanDocument,
    hf_refs: &HfRefs,
    last: bool,
)
    ensures
        final(out)@ == old(out)@ + group_xml(elems_view(elems@), opt_section(section), doc@, hf_refs@, last),
{
    reveal(group_xml);
    let ghost ev = elems_view(elems@);
    if last {
        push_elems(out, &elems, elems.len());
        assert(ev.take(ev.len() as int) == ev);
        out.append("<w:sectPr>");
        let inner = section_inner(section, doc, false, hf_refs);
        out.append(inner.as_str());
        out.append("</w:sectPr>");
    } else {
        let mut sect = String::from_str("<w:sectPr>");
        let inner = section_inner(section, doc, true, hf_refs);
        sect.append(inner.as_str());
        sect.append("</w:sectPr>");
        let mut elems = elems;
        let host_in_last_para = elems.len() > 0 && match &elems[elems.len() - 1] {
            BodyElem::Para(_) => true,
            BodyElem::Raw(_) => false,
        };
        if !host_in_last_para {
            elems.push(BodyElem::Para(Para { ppr_inner: String::new(), run: String::from_str("<w:r/>") }));
        }
        let ghost hv = elems_view(elems@);
        assert(hv =~= host_elems(ev));
        let n = elems.len();
        push_elems(out, &elems, n - 1);
        assert(hv.take(n - 1) =~= hv.drop_last());
        match &elems[n - 1] {
            BodyElem::Para(p) => {
                let x = p.serialize(sect.as_str());
                out.append(x.as_str());
            },
            BodyElem::Raw(x) => out.append(x.as_str()),
        }
    }
}

fn same_key(a: &Option<String>, b: &Option<String>) -> (r: bool)
    ensures
        r == (ov(*a) == ov(*b)),
{
    match (a, b) {
        (Some(x), Some(y)) => str_eq(x.as_str(), y.as_str()),
        (None, None) => true,
        _ => false,
    }
}

pub open spec fn sections_view(v: Seq<PlanSection>) -> Seq<SectionView> {
    v.map_values(|s: PlanSection| s@)
}

fn find_section<'a>(sections: &'a Vec<PlanSection>, key: &Option<String>) -> (r: Option<&'a PlanSection>)
    ensures
        opt_section(r) == section_for(sections_view(sections@), ov(*key)),
{
    let k = match key {
        Some(k) => k.as_str(),
        None => {
            return None;
        },
    };
    let ghost sv = sections_view(sections@);
    assert(sv.skip(0) == sv);
    let mut i: usize = 0;
    while i < sections.len()
        invariant
            i <= sections@.len(),
            sv == sections_view(sections@),
            ov(*key) == Some(k@),
            first_section(sv, k@) == first_section(sv.skip(i as int), k@),
        decreases sections.len() - i,
    {
        assert(sv.skip(i as int).drop_first() == sv.skip(i + 1));
        assert(sv.skip(i as int)[0] == sections@[i as int]@);
        if str_eq(sections[i].key.as_str(), k) {
            assert(sv.skip(i as int).len() > 0);
            assert(sv.skip(i as int)[0].key == k@);
            assert(first_section(sv.skip(i as int), k@) == Some(sections@[i as int]@));
            let r = Some(&sections[i]);
            assert(opt_section(r) == Some(sections@[i as int]@));
            return r;
        }
        i += 1;
    }
    assert(sv.skip(i as int).len() == 0);
    None
}

fn render_range(
    plan: &FormatPlan,
    start: usize,
    end: usize,
    pkg: &mut Package,
    source: Option<&Vec<SourceBlock>>,
    rn: Option<&RefNormalize>,
    images: &Vec<ImageFile>,
) -> (r: Vec<BodyElem>)
    requires
        start <= end <= plan.blocks@.len(),
        old(pkg).wf(),
        old(pkg)@.rels.len() + (end - start) + 3 <= u32::MAX,
        old(pkg)@.img_seq + (end - start) + 1 < u32::MAX,
    ensures
        final(pkg).wf(),
        (elems_view(r@), final(pkg)@) == blocks_render(
            plan@.document,
            plan@.blocks,
            start as int,
            end as int,
            old(pkg)@,
            source_opt(source),
            rn_view(rn),
            images_view(images@),
        ),
        final(pkg)@.rels.len() <= old(pkg)@.rels.len() + (end - start),
        final(pkg)@.img_seq <= old(pkg)@.img_seq + (end - start),
{
    let ghost p0 = pkg@;
    let mut elems: Vec<BodyElem> = Vec::new();
    let mut k = start;
    while k < end
        invariant
            start <= k <= end <= plan.blocks@.len(),
            pkg.wf(),
            p0.rels.len() + (end - start) + 3 <= u32::MAX,
            p0.img_seq + (end - start) + 1 < u32::MAX,
            pkg@.rels.len() <= p0.rels.len() + (k - start),
            pkg@.img_seq <= p0.img_seq + (k - start),
            (elems_view(elems@), pkg@) == blocks_render(
                plan@.document,
                plan@.blocks,
                start as int,
                k as int,
                p0,
                source_opt(source),
                rn_view(rn),
                images_view(images@),
            ),
        decreases end - k,
    {
        let ghost before = elems@;
        let mut e = render_block(&plan.document, &plan.blocks[k], pkg, source, rn, images);
        let ghost added = e@;
        elems.append(&mut e);
        assert(elems_view(elems@) =~= elems_view(before) + elems_view(added));
        k += 1;
    }
    elems
}

/// `render_document`: `word/document.xml` for the plan; images are
/// registered in the package as they are met.
pub fn render_document(
    plan: &FormatPlan,
    pkg: &mut Package,
    hf_refs: &HfRefs,
    source: Option<&Vec<SourceBlock>>,
    rn: Option<&RefNormalize>,
    images: &Vec<ImageFile>,
) -> (r: String)
    requires
        old(pkg).wf(),
        old(pkg)@.rels.len() + plan.blocks@.len() + 3 <= u32::MAX,
        old(pkg)@.img_seq + plan.blocks@.len() + 1 < u32::MAX,
    ensures
        final(pkg).wf(),
        (r@, final(pkg)@) == document_spec(
            plan@,
            old(pkg)@,
            hf_refs@,
            source_opt(source),
            rn_view(rn),
            images_view(images@),
        ),
{
    reveal(document_spec);
    let ghost p0 = pkg@;
    let ghost src = source_opt(source);
    let ghost rnv = rn_view(rn);
    let ghost imv = images_view(images@);
    let n = plan.blocks.len();
    let mut body = String::new();
    if n == 0 {
        let none: Vec<BodyElem> = Vec::new();
        assert(elems_view(none@) =~= Seq::<ElemView>::empty());
        push_group(&mut body, none, None, &plan.document, hf_refs, true);
    } else {
        let mut start: usize = 0;
        while start < n
            invariant
                n == plan.blocks@.len(),
                start <= n,
                pkg.wf(),
                src == source_opt(source),
                rnv == rn_view(rn),
                imv == images_view(images@),
                p0.rels.len() + n + 3 <= u32::MAX,
                p0.img_seq + n + 1 < u32::MAX,
                pkg@.rels.len() <= p0.rels.len() + start,
                pkg@.img_seq <= p0.img_seq + start,
                body_from(plan@, 0, p0, hf_refs@, src, rnv, imv) == (
                    body@ + body_from(plan@, start as int, pkg@, hf_refs@, src, rnv, imv).0,
                    body_from(plan@, start as int, pkg@, hf_refs@, src, rnv, imv).1,
                ),
            decreases n - start,
        {
            let ghost pstart = pkg@;
            let ghost bstart = body@;
            let mut end = start + 1;
            proof {
                lemma_group_end(plan@.blocks, start as int, start + 1);
            }
            while end < n && same_key(&plan.blocks[end].section_key, &plan.blocks[start].section_key)
                invariant
                    n == plan.blocks@.len(),
                    start < end <= n,
                    pkg@ == pstart,
                    pkg.wf(),
                    pkg@.rels.len() <= p0.rels.len() + start,
                    pkg@.img_seq <= p0.img_seq + start,
                    p0.rels.len() + n + 3 <= u32::MAX,
                    p0.img_seq + n + 1 < u32::MAX,
                    group_end(plan@.blocks, start as int, end as int) == group_end(
                        plan@.blocks,
                        start as int,
                        start + 1,
                    ),
                decreases n - end,
            {
                end += 1;
            }
            let elems = render_range(plan, start, end, pkg, source, rn, images);
            let ghost ev = elems_view(elems@);
            let section = find_section(&plan.sections, &plan.blocks[start].section_key);
            let ghost sec = opt_section(section);
            proof {
                assert(sections_view(plan.sections@) =~= plan@.sections);
                assert(sec == section_for(plan@.sections, plan@.blocks[start as int].section_key));
                assert(group_end(plan@.blocks, start as int, start + 1) == end as int);
                let br = blocks_render(plan@.document, plan@.blocks, start as int, end as int, pstart, src, rnv, imv);
                assert(pkg@ == br.1);
                assert(ev == br.0);
                let bf = body_from(plan@, start as int, pstart, hf_refs@, src, rnv, imv);
                let rest = body_from(plan@, end as int, pkg@, hf_refs@, src, rnv, imv);
                assert(bf == (group_xml(ev, sec, plan@.document, hf_refs@, end == n) + rest.0, rest.1));
            }
            push_group(&mut body, elems, section, &plan.document, hf_refs, end == n);
            proof {
                let rest = body_from(plan@, end as int, pkg@, hf_refs@, src, rnv, imv);
                assert(body@ == bstart + group_xml(ev, sec, plan@.document, hf_refs@, end == n));
                assert(bstart + (group_xml(ev, sec, plan@.document, hf_refs@, end == n) + rest.0) =~= body@ + rest.0);
            }
            start = end;
        }
    }
    let mut s = String::from_str(XML_DECL);
    s.append("<w:document xmlns:w=\"");
    s.append(W_NS);
    s.append("\" xmlns:r=\"");
    s.append(R_NS);
    s.append("\" xmlns:wp=\"");
    s.append(WP_NS);
    s.append("\" xmlns:a=\"");
    s.append(A_NS);
    s.append("\" xmlns:pic=\"");
    s.append(PIC_NS);
    s.append("\" xmlns:m=\"");
    s.append(M_NS);
    s.append("\"><w:body>");
    s.append(body.as_str());
    s.append("</w:body></w:document>");
    s
}

// ---------------------------------------------------------------------
// Laws of the body.
// ---------------------------------------------------------------------
proof fn lemma_substring_extend(a: Seq<char>, b: Seq<char>, pat: Seq<char>)
    requires
        has_substring(a, pat),
    ensures
        has_substring(a + b, pat),
{
    let i = choose|i: int| 0 <= i && i + pat.len() <= a.len() && #[trigger] a.subrange(i, i + pat.len()) == pat;
    assert((a + b).subrange(i, i + pat.len()) =~= a.subrange(i, i + pat.len()));
}

proof fn lemma_substring_at_end(a: Seq<char>, b: Seq<char>, pat: Seq<char>)
    requires
        pat.len() <= b.len(),
        b.subrange(0, pat.len() as int) == pat,
    ensures
        has_substring(a + b, pat),
{
    let i = a.len() as int;
    assert((a + b).subrange(i, i + pat.len()) =~= b.subrange(0, pat.len() as int));
}

/// A normalized reference entry always has an indent and a tab stop:
/// the hanging indent and the tab are added when its format has none.
pub proof fn reference_entries_are_indented(doc: DocumentView, b: BlockView, n: u32, bid: u32, content: Seq<char>)
    ensures
        has_substring(reference_view(doc, b, n, bid, content).ppr_inner, "<w:ind"@),
        has_substring(reference_view(doc, b, n, bid, content).ppr_inner, "<w:tabs"@),
{
    reveal_strlit("<w:ind");
    reveal_strlit("<w:tabs");
    reveal_strlit("<w:ind w:hangingChars=\"");
    reveal_strlit("<w:tabs><w:tab w:val=\"left\" w:pos=\"");
    let ppr0 = para_props(b.format, doc, None);
    let ind = "<w:ind w:hangingChars=\""@ + DEFAULT_HANGING_CHARS@ + "\"/>"@;
    let tabs = "<w:tabs><w:tab w:val=\"left\" w:pos=\""@ + DEFAULT_TAB_POSITION@ + "\"/></w:tabs>"@;
    let ppr1 = if has_substring(ppr0, "<w:ind"@) {
        ppr0
    } else {
        ppr0 + ind
    };
    assert(ppr0 + ind =~= ppr0 + "<w:ind w:hangingChars=\""@ + DEFAULT_HANGING_CHARS@ + "\"/>"@);
    assert(ppr1 + tabs =~= ppr1 + "<w:tabs><w:tab w:val=\"left\" w:pos=\""@ + DEFAULT_TAB_POSITION@ + "\"/></w:tabs>"@);
    if !has_substring(ppr0, "<w:ind"@) {
        assert(ind.subrange(0, 6) =~= "<w:ind"@);
        lemma_substring_at_end(ppr0, ind, "<w:ind"@);
    }
    assert(has_substring(ppr1, "<w:ind"@));
    if !has_substring(ppr1, "<w:tabs"@) {
        assert(tabs.subrange(0, 7) =~= "<w:tabs"@);
        lemma_substring_at_end(ppr1, tabs, "<w:tabs"@);
        lemma_substring_extend(ppr1, tabs, "<w:ind"@);
    }
}

/// Only superscript text (by the segment or by the format) is searched
/// for citations: any other segment is written the same with reference
/// normalization on or off.
pub proof fn only_superscript_is_cited(
    seg: SegView,
    base: Option<FormatView>,
    doc: DocumentView,
    heading: Option<u8>,
    is_title: bool,
    refs: Map<u32, u32>,
)
    requires
        seg_format(base, seg).vertical_align != Some("superscript"@),
    ensures
        seg_xml(seg, base, doc, heading, is_title, Some(refs)) == seg_xml(seg, base, doc, heading, is_title, None),
{
}

/// A superscript segment in which no number names a known reference is
/// written as plain text.
pub proof fn unknown_citations_stay_text(
    seg: SegView,
    base: Option<FormatView>,
    doc: DocumentView,
    heading: Option<u8>,
    is_title: bool,
    refs: Map<u32, u32>,
)
    requires
        citations(seg.text, refs) is None,
    ensures
        seg_xml(seg, base, doc, heading, is_title, Some(refs)) == seg_xml(seg, base, doc, heading, is_title, None),
{
}

/// A section that ends in a break always has a paragraph to carry it: the
/// elements are kept, and an empty paragraph follows them when they do
/// not end in one.
pub proof fn section_break_has_host(elems: Seq<ElemView>)
    ensures
        host_elems(elems).len() > 0,
        host_elems(elems).last() is Para,
        host_elems(elems).take(elems.len() as int) == elems,
        host_elems(elems).len() <= elems.len() + 1,
{
    assert(host_elems(elems).take(elems.len() as int) =~= elems);
}

/// With references normalized, a paragraph block of its own (no source
/// block, no figure, equation or table) whose text starts with `[n]`, `n`
/// a known reference, is written as the reference entry that carries
/// bookmark `_Ref_ref_<n>` under the id given to `n`: the target of every
/// REF field to `n`.
pub proof fn reference_blocks_carry_their_bookmark(
    doc: DocumentView,
    b: BlockView,
    p: PackageView,
    source: Option<Seq<SourceBlockView>>,
    refs: Map<u32, u32>,
    images: Seq<ImageFileView>,
    n: u32,
)
    requires
        b.source_ref is None,
        b.image is None,
        b.equation is None,
        b.table is None,
        key(b.role) != "figure"@ && key(b.role) != "equation"@ && key(b.role) != "table"@,
        block_ref(b, source) == Some(n),
        refs.contains_key(n),
    ensures
        ({
            let (elems, p2) = block_step(doc, b, p, source, Some(refs), images);
            &&& p2 == p
            &&& elems.len() == 1
            &&& elems[0] matches ElemView::Para(v) && has_substring(
                v.run,
                "<w:bookmarkStart w:id=\""@ + decimal(refs[n] as nat) + "\" w:name=\""@ + BOOKMARK_PREFIX@ + decimal(
                    n as nat,
                ) + "\"/>"@,
            )
        }),
{
    lemma_plain_block_step(doc, b, p, source, Some(refs), images);
    let t = b.text->0;
    assert(b.text is Some) by {
        if b.text is None {
            assert(leading_ref(Seq::<char>::empty()) is None);
        }
    }
    let (m, content) = leading_ref_split(t)->0;
    assert(m == n);
    lemma_reference_block(doc, b, block_role(b, None), refs, n, content);
    lemma_entry_bookmark(doc, b, n, refs[n], content);
}

proof fn lemma_plain_block_step(
    doc: DocumentView,
    b: BlockView,
    p: PackageView,
    source: Option<Seq<SourceBlockView>>,
    rn: Option<Map<u32, u32>>,
    images: Seq<ImageFileView>,
)
    requires
        b.source_ref is None,
        b.image is None,
        b.equation is None,
        b.table is None,
        key(b.role) != "figure"@ && key(b.role) != "equation"@ && key(b.role) != "table"@,
    ensures
        block_step(doc, b, p, source, rn, images) == (
            seq![ElemView::Para(text_block_view(doc, b, None, block_role(b, None), rn))],
            p,
        ),
{
    reveal(block_step);
    assert(overlay_of(b, source) is None);
}

proof fn lemma_reference_block(
    doc: DocumentView,
    b: BlockView,
    role: Seq<char>,
    refs: Map<u32, u32>,
    n: u32,
    content: Seq<char>,
)
    requires
        b.text is Some,
        leading_ref_split(b.text->0) == Some((n, content)),
        refs.contains_key(n),
    ensures
        text_block_view(doc, b, None, role, Some(refs)) == reference_view(doc, b, n, refs[n], content),
{
    assert(block_text(b, None, role) == b.text->0);
}

proof fn lemma_entry_bookmark(doc: DocumentView, b: BlockView, n: u32, bid: u32, content: Seq<char>)
    ensures
        has_substring(
            reference_view(doc, b, n, bid, content).run,
            "<w:bookmarkStart w:id=\""@ + decimal(bid as nat) + "\" w:name=\""@ + BOOKMARK_PREFIX@ + decimal(n as nat)
                + "\"/>"@,
        ),
{
    lemma_runs_bookmark(run_props(b.format, doc, None, false), n, bid, content);
}

proof fn lemma_runs_bookmark(rp: Seq<char>, n: u32, bid: u32, content: Seq<char>)
    ensures
        has_substring(
            entry_runs(rp, n, bid, content),
            "<w:bookmarkStart w:id=\""@ + decimal(bid as nat) + "\" w:name=\""@ + BOOKMARK_PREFIX@ + decimal(n as nat)
                + "\"/>"@,
        ),
{
    let mark = "<w:bookmarkStart w:id=\""@ + decimal(bid as nat) + "\" w:name=\""@ + BOOKMARK_PREFIX@ + decimal(n as nat)
        + "\"/>"@;
    let p0 = "<w:r>"@ + rp + "<w:t>[</w:t></w:r>"@;
    let p1 = p0 + "<w:bookmarkStart w:id=\""@ + decimal(bid as nat) + "\" w:name=\""@ + BOOKMARK_PREFIX@ + decimal(
        n as nat,
    ) + "\"/>"@;
    assert(p1 =~= p0 + mark);
    assert(mark.subrange(0, mark.len() as int) =~= mark);
    lemma_substring_at_end(p0, mark, mark);
    let p2 = p1 + "<w:r>"@;
    lemma_substring_extend(p1, "<w:r>"@, mark);
    let p3 = p2 + rp;
    lemma_substring_extend(p2, rp, mark);
    let p4 = p3 + "<w:t>"@;
    lemma_substring_extend(p3, "<w:t>"@, mark);
    let p5 = p4 + decimal(n as nat);
    lemma_substring_extend(p4, decimal(n as nat), mark);
    let p6 = p5 + "</w:t></w:r>"@;
    lemma_substring_extend(p5, "</w:t></w:r>"@, mark);
    let p7 = p6 + "<w:bookmarkEnd w:id=\""@;
    lemma_substring_extend(p6, "<w:bookmarkEnd w:id=\""@, mark);
    let p8 = p7 + decimal(bid as nat);
    lemma_substring_extend(p7, decimal(bid as nat), mark);
    let p9 = p8 + "\"/>"@;
    lemma_substring_extend(p8, "\"/>"@, mark);
    let p10 = p9 + "<w:r>"@;
    lemma_substring_extend(p9, "<w:r>"@, mark);
    let p11 = p10 + rp;
    lemma_substring_extend(p10, rp, mark);
    let p12 = p11 + "<w:t>]</w:t></w:r>"@;
    lemma_substring_extend(p11, "<w:t>]</w:t></w:r>"@, mark);
    let p13 = p12 + "<w:r>"@;
    lemma_substring_extend(p12, "<w:r>"@, mark);
    let p14 = p13 + rp;
    lemma_substring_extend(p13, rp, mark);
    let p15 = p14 + "<w:tab/></w:r>"@;
    lemma_substring_extend(p14, "<w:tab/></w:r>"@, mark);
    let last = if content.len() > 0 {
        text_run(rp, content)
    } else {
        Seq::empty()
    };
    lemma_substring_extend(p15, last, mark);
    assert(entry_runs(rp, n, bid, content) == p15 + last);
}

/// A block laid over a source paragraph of heading level `n` (1 to 3)
/// is written as heading `n`: its level is `n`, its paragraph properties
/// end with outline level `n - 1`, and reading that outline level back
/// gives `n` again.
pub proof fn overlay_keeps_source_heading(doc: DocumentView, b: BlockView, sb: SourceBlockView, n: i32)
    requires
        sb.heading_level == Some(n),
        1 <= n <= 3,
    ensures
        role_level(block_role(b, Some(sb))) == Some(n as u8),
        text_block_view(doc, b, Some(sb), block_role(b, Some(sb)), None).ppr_inner == para_props(b.format, doc, None)
            + "<w:outlineLvl w:val=\""@ + decimal((n - 1) as nat) + "\"/>"@,
        crate::analyze::outline_value(decimal((n - 1) as nat)) == Some(n),
{
    reveal_strlit("heading1");
    reveal_strlit("heading2");
    reveal_strlit("heading3");
    let r = block_role(b, Some(sb));
    if n == 2 {
        assert(r[7] != "heading1"@[7]);
    }
    if n == 3 {
        assert(r[7] != "heading1"@[7]);
        assert(r[7] != "heading2"@[7]);
    }
    crate::analyze::outline_level_reads_back(n as u8);
    assert(crate::props::level_index(n as u8) == (n - 1) as nat);
}

} // verus!
