//! Run, paragraph and section properties (`w:rPr`, `w:pPr`, `w:sectPr`),
//! and the header/footer references that a section points at.

use vstd::prelude::*;
use crate::plan::{PlanDocument, PlanFormat, PlanSection, DocumentView, FormatView, SectionView, MarginsView, ov};
use crate::text::{escaped, push_escaped, int_decimal, push_int, decimal, push_decimal, str_eq};
use crate::docx::{
    osv, underline_of, vertical_align_of, align_of, line_rule_of, section_type_of, page_num_fmt_of,
    page_size_of, fallback_size_of, map_underline, map_vertical_align, map_align, map_line_rule,
    map_section_type, map_page_num_fmt, page_size_twips,
};

verus! {

// ---------------------------------------------------------------------
// Small option helpers over views.
// ---------------------------------------------------------------------
/// A value that is present and not empty.
pub open spec fn nonempty(o: Option<Seq<char>>) -> Option<Seq<char>> {
    match o {
        Some(s) => if s.len() > 0 {
            Some(s)
        } else {
            None
        },
        None => None,
    }
}

pub open spec fn or_else(a: Option<Seq<char>>, b: Option<Seq<char>>) -> Option<Seq<char>> {
    match a {
        Some(x) => Some(x),
        None => b,
    }
}

pub open spec fn or_empty(o: Option<Seq<char>>) -> Seq<char> {
    match o {
        Some(s) => s,
        None => Seq::empty(),
    }
}

pub open spec fn opt_fmt(f: Option<&PlanFormat>) -> Option<FormatView> {
    match f {
        Some(p) => Some(p@),
        None => None,
    }
}

/// The format in force: the given one, or the empty format.
pub open spec fn fmt_of(f: Option<FormatView>) -> FormatView {
    match f {
        Some(v) => v,
        None => PlanFormat::spec_empty()@,
    }
}

/// Whether a format names a paragraph style.
pub open spec fn styled(f: FormatView) -> bool {
    nonempty(f.style_id) is Some
}

pub fn opt_str(o: &Option<String>) -> (r: Option<&str>)
    ensures
        osv(r) == ov(*o),
{
    match o {
        Some(s) => Some(s.as_str()),
        None => None,
    }
}

pub fn nonempty_str(o: Option<&str>) -> (r: Option<&str>)
    ensures
        osv(r) == nonempty(osv(o)),
{
    match o {
        Some(s) => if s.is_empty() {
            None
        } else {
            Some(s)
        },
        None => None,
    }
}

/// `<tag` + value + `"/>` when the value is there.
pub open spec fn val_tag(open: Seq<char>, v: Option<Seq<char>>) -> Seq<char> {
    match v {
        Some(x) => open + x + "\"/>"@,
        None => Seq::empty(),
    }
}

fn push_val_tag(out: &mut String, open: &str, v: Option<&str>)
    ensures
        final(out)@ == old(out)@ + val_tag(open@, osv(v)),
{
    match v {
        Some(x) => {
            out.append(open);
            out.append(x);
            out.append("\"/>");
        },
        None => {},
    }
}

// ---------------------------------------------------------------------
// Run properties.
// ---------------------------------------------------------------------
/// `<w:rFonts>` with whichever sides are filled.
pub open spec fn fonts_xml(ascii: Option<Seq<char>>, east: Option<Seq<char>>) -> Seq<char> {
    if ascii is Some || east is Some {
        let a = or_empty(ascii);
        let e = or_empty(east);
        "<w:rFonts"@ + (if a.len() > 0 {
            " w:ascii=\""@ + escaped(a) + "\" w:hAnsi=\""@ + escaped(a) + "\""@
        } else {
            Seq::empty()
        }) + (if e.len() > 0 {
            " w:eastAsia=\""@ + escaped(e) + "\" w:cs=\""@ + escaped(e) + "\""@
        } else {
            Seq::empty()
        }) + "/>"@
    } else {
        Seq::empty()
    }
}

pub open spec fn run_ascii(fv: FormatView, doc: DocumentView) -> Option<Seq<char>> {
    if styled(fv) {
        nonempty(fv.en_font)
    } else {
        or_else(or_else(nonempty(fv.en_font), doc.en_font), Some("Times New Roman"@))
    }
}

pub open spec fn run_east(fv: FormatView, doc: DocumentView) -> Option<Seq<char>> {
    if styled(fv) {
        nonempty(fv.cn_font)
    } else {
        or_else(or_else(nonempty(fv.cn_font), doc.cn_font), Some("宋体"@))
    }
}

pub open spec fn run_bold(fv: FormatView, heading: Option<u8>, is_title: bool) -> bool {
    fv.bold == Some(true) || (!styled(fv) && (heading is Some || is_title))
}

pub open spec fn mapped_underline(fv: FormatView) -> Option<Seq<char>> {
    match fv.underline {
        Some(u) => underline_of(u),
        None => None,
    }
}

pub open spec fn mapped_vertical(fv: FormatView) -> Option<Seq<char>> {
    match fv.vertical_align {
        Some(v) => vertical_align_of(v),
        None => None,
    }
}

pub open spec fn escaped_opt(o: Option<Seq<char>>) -> Option<Seq<char>> {
    match o {
        Some(s) => Some(escaped(s)),
        None => None,
    }
}

/// The run size in half-points: the format's, else (without a style) the
/// document's, else the default for the heading level.
pub open spec fn run_size(fv: FormatView, doc: DocumentView, heading: Option<u8>) -> Option<Seq<char>> {
    match fv.font_half_points {
        Some(h) => Some(int_decimal(h as int)),
        None => if styled(fv) {
            None
        } else {
            match doc.base_font_half_points {
                Some(h) => Some(int_decimal(h as int)),
                None => Some(fallback_size_of(heading)),
            }
        },
    }
}

pub open spec fn size_xml(s: Option<Seq<char>>) -> Seq<char> {
    match s {
        Some(v) => "<w:sz w:val=\""@ + v + "\"/><w:szCs w:val=\""@ + v + "\"/>"@,
        None => Seq::empty(),
    }
}

/// The children of `<w:rPr>`, in schema order.
pub open spec fn run_inner(f: Option<FormatView>, doc: DocumentView, heading: Option<u8>, is_title: bool) -> Seq<char> {
    let fv = fmt_of(f);
    fonts_xml(run_ascii(fv, doc), run_east(fv, doc)) + (if run_bold(fv, heading, is_title) {
        "<w:b/>"@
    } else {
        Seq::empty()
    }) + (if fv.italic == Some(true) {
        "<w:i/>"@
    } else {
        Seq::empty()
    }) + val_tag("<w:u w:val=\""@, mapped_underline(fv)) + val_tag(
        "<w:color w:val=\""@,
        escaped_opt(fv.font_color),
    ) + val_tag("<w:vertAlign w:val=\""@, mapped_vertical(fv)) + size_xml(run_size(fv, doc, heading))
}

/// `<w:rPr>`, or nothing at all when there is no direct formatting (an
/// empty `<w:rPr/>` would mask the paragraph style's run properties).
pub open spec fn run_props(f: Option<FormatView>, doc: DocumentView, heading: Option<u8>, is_title: bool) -> Seq<char> {
    let inner = run_inner(f, doc, heading, is_title);
    if inner.len() == 0 {
        Seq::empty()
    } else {
        "<w:rPr>"@ + inner + "</w:rPr>"@
    }
}

fn fonts_tag(ascii: Option<&str>, east: Option<&str>) -> (r: String)
    ensures
        r@ == fonts_xml(osv(ascii), osv(east)),
{
    if ascii.is_some() || east.is_some() {
        let mut tag = String::from_str("<w:rFonts");
        match ascii {
            Some(a) => if !a.is_empty() {
                tag.append(" w:ascii=\"");
                push_escaped(&mut tag, a);
                tag.append("\" w:hAnsi=\"");
                push_escaped(&mut tag, a);
                tag.append("\"");
            },
            None => {},
        }
        let ghost t1 = tag@;
        match east {
            Some(e) => if !e.is_empty() {
                tag.append(" w:eastAsia=\"");
                push_escaped(&mut tag, e);
                tag.append("\" w:cs=\"");
                push_escaped(&mut tag, e);
                tag.append("\"");
            },
            None => {},
        }
        tag.append("/>");
        tag
    } else {
        String::new()
    }
}

pub fn fmt_field<'a>(fmt: Option<&'a PlanFormat>, which: u8) -> (r: Option<&'a str>)
    ensures
        osv(r) == (if which == 0 {
            fmt_of(opt_fmt(fmt)).style_id
        } else if which == 1 {
            fmt_of(opt_fmt(fmt)).en_font
        } else if which == 2 {
            fmt_of(opt_fmt(fmt)).cn_font
        } else if which == 3 {
            fmt_of(opt_fmt(fmt)).underline
        } else if which == 4 {
            fmt_of(opt_fmt(fmt)).font_color
        } else if which == 5 {
            fmt_of(opt_fmt(fmt)).vertical_align
        } else if which == 6 {
            fmt_of(opt_fmt(fmt)).align
        } else if which == 7 {
            fmt_of(opt_fmt(fmt)).first_line_indent
        } else if which == 8 {
            fmt_of(opt_fmt(fmt)).hanging_indent
        } else if which == 9 {
            fmt_of(opt_fmt(fmt)).line_spacing
        } else if which == 10 {
            fmt_of(opt_fmt(fmt)).line_spacing_rule
        } else if which == 11 {
            fmt_of(opt_fmt(fmt)).before_spacing
        } else if which == 12 {
            fmt_of(opt_fmt(fmt)).after_spacing
        } else if which == 13 {
            fmt_of(opt_fmt(fmt)).first_line_chars
        } else {
            fmt_of(opt_fmt(fmt)).hanging_chars
        }),
{
    match fmt {
        Some(f) => if which == 0 {
            opt_str(&f.style_id)
        } else if which == 1 {
            opt_str(&f.en_font)
        } else if which == 2 {
            opt_str(&f.cn_font)
        } else if which == 3 {
            opt_str(&f.underline)
        } else if which == 4 {
            opt_str(&f.font_color)
        } else if which == 5 {
            opt_str(&f.vertical_align)
        } else if which == 6 {
            opt_str(&f.align)
        } else if which == 7 {
            opt_str(&f.first_line_indent)
        } else if which == 8 {
            opt_str(&f.hanging_indent)
        } else if which == 9 {
            opt_str(&f.line_spacing)
        } else if which == 10 {
            opt_str(&f.line_spacing_rule)
        } else if which == 11 {
            opt_str(&f.before_spacing)
        } else if which == 12 {
            opt_str(&f.after_spacing)
        } else if which == 13 {
            opt_str(&f.first_line_chars)
        } else {
            opt_str(&f.hanging_chars)
        },
        None => None,
    }
}

fn has_style_id(fmt: Option<&PlanFormat>) -> (r: bool)
    ensures
        r == styled(fmt_of(opt_fmt(fmt))),
{
    nonempty_str(fmt_field(fmt, 0)).is_some()
}

fn fallback_font<'a>(explicit: Option<&'a str>, doc_font: Option<&'a str>, def: &'a str) -> (r: Option<&'a str>)
    ensures
        osv(r) == or_else(or_else(osv(explicit), osv(doc_font)), Some(def@)),
{
    match explicit {
        Some(a) => Some(a),
        None => match doc_font {
            Some(a) => Some(a),
            None => Some(def),
        },
    }
}

/// `run_properties`: the `<w:rPr>` of a run with format `fmt` in a
/// paragraph at `heading_level` (bold and sized as a heading unless a
/// style is named).
#[verifier::rlimit(40)]
pub fn run_properties(fmt: Option<&PlanFormat>, doc: &PlanDocument, heading_level: Option<u8>, is_title: bool) -> (r: String)
    ensures
        r@ == run_props(opt_fmt(fmt), doc@, heading_level, is_title),
{
    let ghost fv = fmt_of(opt_fmt(fmt));
    let has_style = has_style_id(fmt);
    let explicit_ascii = nonempty_str(fmt_field(fmt, 1));
    let explicit_east = nonempty_str(fmt_field(fmt, 2));
    let ascii = if has_style {
        explicit_ascii
    } else {
        fallback_font(explicit_ascii, opt_str(&doc.en_font), "Times New Roman")
    };
    let east = if has_style {
        explicit_east
    } else {
        fallback_font(explicit_east, opt_str(&doc.cn_font), "宋体")
    };
    let mut inner = fonts_tag(ascii, east);
    let bold_set = match fmt {
        Some(f) => match f.bold {
            Some(b) => b,
            None => false,
        },
        None => false,
    };
    let bold = bold_set || (!has_style && (heading_level.is_some() || is_title));
    if bold {
        inner.append("<w:b/>");
    }
    let italic = match fmt {
        Some(f) => match f.italic {
            Some(b) => b,
            None => false,
        },
        None => false,
    };
    if italic {
        inner.append("<w:i/>");
    }
    let underline = match fmt_field(fmt, 3) {
        Some(u) => map_underline(u),
        None => None,
    };
    push_val_tag(&mut inner, "<w:u w:val=\"", underline);
    match fmt_field(fmt, 4) {
        Some(c) => {
            let ghost before = inner@;
            inner.append("<w:color w:val=\"");
            push_escaped(&mut inner, c);
            inner.append("\"/>");
            assert(inner@ == before + val_tag("<w:color w:val=\""@, escaped_opt(fv.font_color)));
        },
        None => {},
    }
    let vertical = match fmt_field(fmt, 5) {
        Some(v) => map_vertical_align(v),
        None => None,
    };
    push_val_tag(&mut inner, "<w:vertAlign w:val=\"", vertical);
    let own_size = match fmt {
        Some(f) => f.font_half_points,
        None => None,
    };
    let ghost before_size = inner@;
    match own_size {
        Some(h) => {
            push_size(&mut inner, h);
        },
        None => if !has_style {
            match doc.base_font_half_points {
                Some(h) => {
                    push_size(&mut inner, h);
                },
                None => {
                    let s = crate::docx::fallback_heading_size(heading_level);
                    inner.append("<w:sz w:val=\"");
                    inner.append(s.as_str());
                    inner.append("\"/><w:szCs w:val=\"");
                    inner.append(s.as_str());
                    inner.append("\"/>");
                },
            }
        },
    }
    assert(inner@ == before_size + size_xml(run_size(fv, doc@, heading_level)));
    assert(inner@ == run_inner(opt_fmt(fmt), doc@, heading_level, is_title));
    if inner.as_str().is_empty() {
        String::new()
    } else {
        let mut out = String::from_str("<w:rPr>");
        out.append(inner.as_str());
        out.append("</w:rPr>");
        out
    }
}

fn push_size(out: &mut String, h: i64)
    ensures
        final(out)@ == old(out)@ + size_xml(Some(int_decimal(h as int))),
{
    out.append("<w:sz w:val=\"");
    push_int(out, h);
    out.append("\"/><w:szCs w:val=\"");
    push_int(out, h);
    out.append("\"/>");
}

// ---------------------------------------------------------------------
// Paragraph properties.
// ---------------------------------------------------------------------
/// One ` w:name="value"` attribute of `<w:ind>`, if the value is given.
pub open spec fn ind_attr(name: Seq<char>, v: Option<Seq<char>>) -> Seq<char> {
    match v {
        Some(x) => " w:"@ + name + "=\""@ + escaped(x) + "\""@,
        None => Seq::empty(),
    }
}

/// `<w:ind>` with the indents that are given: first line and hanging, in
/// twips and in hundredths of a character (`firstLineChars`,
/// `hangingChars`, which Word prefers to the twips).
pub open spec fn ind_xml(
    first: Option<Seq<char>>,
    first_chars: Option<Seq<char>>,
    hanging: Option<Seq<char>>,
    hanging_chars: Option<Seq<char>>,
) -> Seq<char> {
    if first is Some || first_chars is Some || hanging is Some || hanging_chars is Some {
        "<w:ind"@ + ind_attr("firstLine"@, first) + ind_attr("firstLineChars"@, first_chars) + ind_attr(
            "hanging"@,
            hanging,
        ) + ind_attr("hangingChars"@, hanging_chars) + "/>"@
    } else {
        Seq::empty()
    }
}

/// `<w:spacing>` with the spacings that are given; the line rule goes
/// with the line spacing.
pub open spec fn spacing_xml(
    before: Option<Seq<char>>,
    after: Option<Seq<char>>,
    line: Option<Seq<char>>,
    rule: Seq<char>,
) -> Seq<char> {
    if before is Some || after is Some || line is Some {
        "<w:spacing"@ + (match before {
            Some(v) => " w:before=\""@ + escaped(v) + "\""@,
            None => Seq::empty(),
        }) + (match after {
            Some(v) => " w:after=\""@ + escaped(v) + "\""@,
            None => Seq::empty(),
        }) + (match line {
            Some(v) => " w:line=\""@ + escaped(v) + "\" w:lineRule=\""@ + rule + "\""@,
            None => Seq::empty(),
        }) + "/>"@
    } else {
        Seq::empty()
    }
}

/// The document line spacing in twips, as written.
pub open spec fn doc_line(doc: DocumentView) -> Option<Seq<char>> {
    match doc.line_spacing_twips {
        Some(t) => Some(int_decimal(t as int)),
        None => None,
    }
}

/// The mapped line rule, `auto` by default.
pub open spec fn rule_or_auto(o: Option<Seq<char>>) -> Seq<char> {
    match o {
        Some(v) => match line_rule_of(v) {
            Some(r) => r,
            None => "auto"@,
        },
        None => "auto"@,
    }
}

pub open spec fn mapped_align(o: Option<Seq<char>>) -> Option<Seq<char>> {
    match o {
        Some(a) => align_of(a),
        None => None,
    }
}

/// `u8::saturating_sub(1)`.
pub open spec fn level_index(n: u8) -> nat {
    if n == 0 {
        0
    } else {
        (n - 1) as nat
    }
}

/// The children of `<w:pPr>`, in schema order (`pStyle` first).
pub open spec fn para_props(f: Option<FormatView>, doc: DocumentView, heading: Option<u8>) -> Seq<char> {
    let fv = fmt_of(f);
    val_tag("<w:pStyle w:val=\""@, escaped_opt(nonempty(fv.style_id))) + val_tag(
        "<w:jc w:val=\""@,
        mapped_align(fv.align),
    ) + ind_xml(fv.first_line_indent, fv.first_line_chars, fv.hanging_indent, fv.hanging_chars) + spacing_xml(
        fv.before_spacing,
        fv.after_spacing,
        or_else(fv.line_spacing, doc_line(doc)),
        rule_or_auto(fv.line_spacing_rule),
    ) + (if fv.page_break_before == Some(true) {
        "<w:pageBreakBefore/>"@
    } else {
        Seq::empty()
    }) + (match heading {
        Some(n) => "<w:outlineLvl w:val=\""@ + decimal(level_index(n)) + "\"/>"@,
        None => Seq::empty(),
    })
}

fn push_ind_attr(out: &mut String, name: &str, v: Option<&str>)
    ensures
        final(out)@ == old(out)@ + ind_attr(name@, osv(v)),
{
    match v {
        Some(x) => {
            out.append(" w:");
            out.append(name);
            out.append("=\"");
            push_escaped(out, x);
            out.append("\"");
            proof {
                reveal_strlit(" w:");
                reveal_strlit("=\"");
                reveal_strlit("\"");
            }
        },
        None => {},
    }
}

/// Appends `<w:ind ...>`.
pub fn push_ind(out: &mut String, first: Option<&str>, first_chars: Option<&str>, hanging: Option<&str>, hanging_chars: Option<&str>)
    ensures
        final(out)@ == old(out)@ + ind_xml(osv(first), osv(first_chars), osv(hanging), osv(hanging_chars)),
{
    if first.is_some() || first_chars.is_some() || hanging.is_some() || hanging_chars.is_some() {
        let mut ind = String::from_str("<w:ind");
        push_ind_attr(&mut ind, "firstLine", first);
        push_ind_attr(&mut ind, "firstLineChars", first_chars);
        push_ind_attr(&mut ind, "hanging", hanging);
        push_ind_attr(&mut ind, "hangingChars", hanging_chars);
        ind.append("/>");
        out.append(ind.as_str());
    }
}

/// Appends `<w:spacing ...>`.
pub fn push_spacing(out: &mut String, before: Option<&str>, after: Option<&str>, line: Option<&str>, rule: &str)
    ensures
        final(out)@ == old(out)@ + spacing_xml(osv(before), osv(after), osv(line), rule@),
{
    if before.is_some() || after.is_some() || line.is_some() {
        let mut sp = String::from_str("<w:spacing");
        match before {
            Some(v) => {
                sp.append(" w:before=\"");
                push_escaped(&mut sp, v);
                sp.append("\"");
            },
            None => {},
        }
        match after {
            Some(v) => {
                sp.append(" w:after=\"");
                push_escaped(&mut sp, v);
                sp.append("\"");
            },
            None => {},
        }
        match line {
            Some(v) => {
                sp.append(" w:line=\"");
                push_escaped(&mut sp, v);
                sp.append("\" w:lineRule=\"");
                sp.append(rule);
                sp.append("\"");
            },
            None => {},
        }
        sp.append("/>");
        out.append(sp.as_str());
    }
}

/// The line rule of a format, mapped, `auto` by default.
pub fn line_rule(rule: Option<&str>) -> (r: &'static str)
    ensures
        r@ == rule_or_auto(osv(rule)),
{
    match rule {
        Some(v) => match map_line_rule(v) {
            Some(r) => r,
            None => "auto",
        },
        None => "auto",
    }
}

/// The line spacing of a format, else the document's.
fn line_value(fmt: Option<&PlanFormat>, doc: &PlanDocument) -> (r: Option<String>)
    ensures
        ov(r) == or_else(fmt_of(opt_fmt(fmt)).line_spacing, doc_line(doc@)),
{
    match fmt_field(fmt, 9) {
        Some(v) => Some(String::from_str(v)),
        None => match doc.line_spacing_twips {
            Some(t) => Some(crate::text::int_string(t)),
            None => None,
        },
    }
}

/// `paragraph_properties_inner`: the children of `<w:pPr>` for a
/// paragraph with format `fmt` at `heading_level` (which adds an
/// `outlineLvl`, 0-based).
pub fn paragraph_properties_inner(fmt: Option<&PlanFormat>, doc: &PlanDocument, heading_level: Option<u8>) -> (r: String)
    ensures
        r@ == para_props(opt_fmt(fmt), doc@, heading_level),
{
    let ghost fv = fmt_of(opt_fmt(fmt));
    let mut inner = String::new();
    match nonempty_str(fmt_field(fmt, 0)) {
        Some(s) => {
            inner.append("<w:pStyle w:val=\"");
            push_escaped(&mut inner, s);
            inner.append("\"/>");
        },
        None => {},
    }
    let ghost p1 = inner@;
    assert(p1 == val_tag("<w:pStyle w:val=\""@, escaped_opt(nonempty(fv.style_id))));
    let align = match fmt_field(fmt, 6) {
        Some(a) => map_align(a),
        None => None,
    };
    push_val_tag(&mut inner, "<w:jc w:val=\"", align);
    push_ind(&mut inner, fmt_field(fmt, 7), fmt_field(fmt, 13), fmt_field(fmt, 8), fmt_field(fmt, 14));
    let line = line_value(fmt, doc);
    let line_ref = match &line {
        Some(l) => Some(l.as_str()),
        None => None,
    };
    let rule = line_rule(fmt_field(fmt, 10));
    push_spacing(&mut inner, fmt_field(fmt, 11), fmt_field(fmt, 12), line_ref, rule);
    let page_break = match fmt {
        Some(f) => match f.page_break_before {
            Some(b) => b,
            None => false,
        },
        None => false,
    };
    if page_break {
        inner.append("<w:pageBreakBefore/>");
    }
    match heading_level {
        Some(n) => {
            let lvl: u8 = if n == 0 {
                0
            } else {
                n - 1
            };
            inner.append("<w:outlineLvl w:val=\"");
            push_decimal(&mut inner, lvl as u64);
            inner.append("\"/>");
        },
        None => {},
    }
    inner
}

// ---------------------------------------------------------------------
// Header and footer references.
// ---------------------------------------------------------------------
/// Header or footer.
#[derive(Clone, Copy, PartialEq, Eq, Structural)]
pub enum HfKind {
    Header,
    Footer,
}

/// Which pages a header or footer is for (`w:type`).
#[derive(Clone, Copy, PartialEq, Eq, Structural)]
pub enum HfType {
    Default,
    Even,
    First,
}

impl HfKind {
    pub open spec fn spec_name(self) -> Seq<char> {
        match self {
            HfKind::Header => "header"@,
            HfKind::Footer => "footer"@,
        }
    }

    pub fn name(&self) -> (r: &'static str)
        ensures
            r@ == self.spec_name(),
    {
        match self {
            HfKind::Header => "header",
            HfKind::Footer => "footer",
        }
    }
}

impl HfType {
    pub open spec fn spec_name(self) -> Seq<char> {
        match self {
            HfType::Default => "default"@,
            HfType::Even => "even"@,
            HfType::First => "first"@,
        }
    }

    pub fn name(&self) -> (r: &'static str)
        ensures
            r@ == self.spec_name(),
    {
        match self {
            HfType::Default => "default",
            HfType::Even => "even",
            HfType::First => "first",
        }
    }
}

/// Rank of a reference type among its siblings in `w:sectPr`.
pub open spec fn type_order(t: Seq<char>) -> u8 {
    if t == "default"@ {
        0
    } else if t == "even"@ {
        1
    } else if t == "first"@ {
        2
    } else {
        99
    }
}

/// `order_for`: default, even, first, then anything else.
pub fn order_for(t: &str) -> (r: u8)
    ensures
        r == type_order(t@),
{
    if str_eq(t, "default") {
        0
    } else if str_eq(t, "even") {
        1
    } else if str_eq(t, "first") {
        2
    } else {
        99
    }
}

/// The relationship id assigned to each (kind, type) header/footer part.
pub struct HfRefs {
    header_default: Option<String>,
    header_even: Option<String>,
    header_first: Option<String>,
    footer_default: Option<String>,
    footer_even: Option<String>,
    footer_first: Option<String>,
}

/// What `HfRefs` holds: an optional id per (kind, type).
pub struct HfSlots {
    pub header_default: Option<Seq<char>>,
    pub header_even: Option<Seq<char>>,
    pub header_first: Option<Seq<char>>,
    pub footer_default: Option<Seq<char>>,
    pub footer_even: Option<Seq<char>>,
    pub footer_first: Option<Seq<char>>,
}

/// One `(type, rId)` reference.
pub open spec fn ref_view(r: (HfType, String)) -> (HfType, Seq<char>) {
    (r.0, r.1@)
}

impl HfSlots {
    pub open spec fn empty() -> HfSlots {
        HfSlots {
            header_default: None,
            header_even: None,
            header_first: None,
            footer_default: None,
            footer_even: None,
            footer_first: None,
        }
    }

    /// The id registered for `(k, t)`.
    pub open spec fn get(self, k: HfKind, t: HfType) -> Option<Seq<char>> {
        match (k, t) {
            (HfKind::Header, HfType::Default) => self.header_default,
            (HfKind::Header, HfType::Even) => self.header_even,
            (HfKind::Header, HfType::First) => self.header_first,
            (HfKind::Footer, HfType::Default) => self.footer_default,
            (HfKind::Footer, HfType::Even) => self.footer_even,
            (HfKind::Footer, HfType::First) => self.footer_first,
        }
    }

    /// The slots with `(k, t)` set to `v`.
    pub open spec fn set(self, k: HfKind, t: HfType, v: Seq<char>) -> HfSlots {
        match (k, t) {
            (HfKind::Header, HfType::Default) => HfSlots { header_default: Some(v), ..self },
            (HfKind::Header, HfType::Even) => HfSlots { header_even: Some(v), ..self },
            (HfKind::Header, HfType::First) => HfSlots { header_first: Some(v), ..self },
            (HfKind::Footer, HfType::Default) => HfSlots { footer_default: Some(v), ..self },
            (HfKind::Footer, HfType::Even) => HfSlots { footer_even: Some(v), ..self },
            (HfKind::Footer, HfType::First) => HfSlots { footer_first: Some(v), ..self },
        }
    }

    pub open spec fn entry(self, k: HfKind, t: HfType) -> Seq<(HfType, Seq<char>)> {
        match self.get(k, t) {
            Some(r) => seq![(t, r)],
            None => Seq::empty(),
        }
    }

    /// The references of one kind, ordered default, even, first.
    pub open spec fn list(self, k: HfKind) -> Seq<(HfType, Seq<char>)> {
        self.entry(k, HfType::Default) + self.entry(k, HfType::Even) + self.entry(k, HfType::First)
    }
}

impl View for HfRefs {
    type V = HfSlots;

    closed spec fn view(&self) -> HfSlots {
        HfSlots {
            header_default: ov(self.header_default),
            header_even: ov(self.header_even),
            header_first: ov(self.header_first),
            footer_default: ov(self.footer_default),
            footer_even: ov(self.footer_even),
            footer_first: ov(self.footer_first),
        }
    }
}

impl HfRefs {
    pub fn new() -> (r: Self)
        ensures
            r@ == HfSlots::empty(),
    {
        HfRefs {
            header_default: None,
            header_even: None,
            header_first: None,
            footer_default: None,
            footer_even: None,
            footer_first: None,
        }
    }

    /// Registers `rid` for `(k, t)`, replacing an earlier one.
    pub fn insert(&mut self, k: HfKind, t: HfType, rid: String)
        ensures
            final(self)@ == old(self)@.set(k, t, rid@),
    {
        match k {
            HfKind::Header => match t {
                HfType::Default => self.header_default = Some(rid),
                HfType::Even => self.header_even = Some(rid),
                HfType::First => self.header_first = Some(rid),
            },
            HfKind::Footer => match t {
                HfType::Default => self.footer_default = Some(rid),
                HfType::Even => self.footer_even = Some(rid),
                HfType::First => self.footer_first = Some(rid),
            },
        }
    }

    fn slot(&self, k: HfKind, t: HfType) -> (r: Option<&String>)
        ensures
            match r {
                Some(s) => self@.get(k, t) == Some(s@),
                None => self@.get(k, t) is None,
            },
    {
        let o = match k {
            HfKind::Header => match t {
                HfType::Default => &self.header_default,
                HfType::Even => &self.header_even,
                HfType::First => &self.header_first,
            },
            HfKind::Footer => match t {
                HfType::Default => &self.footer_default,
                HfType::Even => &self.footer_even,
                HfType::First => &self.footer_first,
            },
        };
        match o {
            Some(s) => Some(s),
            None => None,
        }
    }

    fn collect_kind(&self, k: HfKind) -> (r: Vec<(HfType, String)>)
        ensures
            r@.map_values(|x: (HfType, String)| ref_view(x)) == self@.list(k),
    {
        let mut v: Vec<(HfType, String)> = Vec::new();
        match self.slot(k, HfType::Default) {
            Some(s) => v.push((HfType::Default, s.clone())),
            None => {},
        }
        let ghost v1 = v@;
        assert(v1.map_values(|x: (HfType, String)| ref_view(x)) == self@.entry(k, HfType::Default));
        match self.slot(k, HfType::Even) {
            Some(s) => v.push((HfType::Even, s.clone())),
            None => {},
        }
        let ghost v2 = v@;
        assert(v2.map_values(|x: (HfType, String)| ref_view(x)) == self@.entry(k, HfType::Default) + self@.entry(
            k,
            HfType::Even,
        ));
        match self.slot(k, HfType::First) {
            Some(s) => v.push((HfType::First, s.clone())),
            None => {},
        }
        assert(v@.map_values(|x: (HfType, String)| ref_view(x)) == self@.list(k));
        v
    }

    /// The header references, ordered default, even, first.
    pub fn headers(&self) -> (r: Vec<(HfType, String)>)
        ensures
            r@.map_values(|x: (HfType, String)| ref_view(x)) == self@.list(HfKind::Header),
    {
        self.collect_kind(HfKind::Header)
    }

    /// The footer references, ordered default, even, first.
    pub fn footers(&self) -> (r: Vec<(HfType, String)>)
        ensures
            r@.map_values(|x: (HfType, String)| ref_view(x)) == self@.list(HfKind::Footer),
    {
        self.collect_kind(HfKind::Footer)
    }
}

pub open spec fn rank(t: HfType) -> int {
    match t {
        HfType::Default => 0,
        HfType::Even => 1,
        HfType::First => 2,
    }
}

proof fn lemma_type_order(t: HfType)
    ensures
        type_order(t.spec_name()) as int == rank(t),
{
    reveal_strlit("default");
    reveal_strlit("even");
    reveal_strlit("first");
    assert("default"@.len() == 7);
    assert("even"@.len() == 4);
    assert("first"@.len() == 5);
    assert("even"@ != "default"@);
    assert("first"@ != "default"@);
    assert("first"@ != "even"@);
}

/// The references of a section are listed in ascending `order_for` of
/// their types.
pub proof fn references_in_order(refs: HfSlots, k: HfKind)
    ensures
        forall|i: int, j: int|
            0 <= i < j < refs.list(k).len() ==> type_order(#[trigger] refs.list(k)[i].0.spec_name()) < type_order(
                #[trigger] refs.list(k)[j].0.spec_name(),
            ),
{
    let l = refs.list(k);
    assert forall|i: int| 0 <= i < l.len() implies type_order(#[trigger] l[i].0.spec_name()) as int == rank(l[i].0) by {
        lemma_type_order(l[i].0);
    }
    let a = refs.entry(k, HfType::Default);
    let b = refs.entry(k, HfType::Even);
    let c = refs.entry(k, HfType::First);
    assert(l == a + b + c);
    assert forall|i: int, j: int| 0 <= i < j < l.len() implies type_order(#[trigger] l[i].0.spec_name()) < type_order(
        #[trigger] l[j].0.spec_name(),
    ) by {
        assert(forall|x: int| 0 <= x < a.len() ==> #[trigger] (a + b + c)[x] == a[x]);
        assert(forall|x: int| a.len() <= x < a.len() + b.len() ==> #[trigger] (a + b + c)[x] == b[x - a.len()]);
        assert(forall|x: int|
            a.len() + b.len() <= x < a.len() + b.len() + c.len() ==> #[trigger] (a + b + c)[x] == c[x - a.len()
                - b.len()]);
    }
}

// ---------------------------------------------------------------------
// Section properties.
// ---------------------------------------------------------------------
/// `headerReference` / `footerReference` elements for a list of references.
pub open spec fn refs_xml(open: Seq<char>, l: Seq<(HfType, Seq<char>)>) -> Seq<char>
    decreases l.len(),
{
    if l.len() == 0 {
        Seq::empty()
    } else {
        refs_xml(open, l.drop_last()) + open + l.last().0.spec_name() + "\" r:id=\""@ + l.last().1 + "\"/>"@
    }
}

pub open spec fn opt_section(s: Option<&PlanSection>) -> Option<SectionView> {
    match s {
        Some(v) => Some(v@),
        None => None,
    }
}

/// One side of a margin set: 0 top, 1 bottom, 2 left, 3 right.
pub open spec fn margin_side(m: Option<MarginsView>, side: int) -> Option<Seq<char>> {
    match m {
        Some(v) => if side == 0 {
            v.top
        } else if side == 1 {
            v.bottom
        } else if side == 2 {
            v.left
        } else {
            v.right
        },
        None => None,
    }
}

/// A page margin: the section's, else the document's, else the default.
pub open spec fn margin_value(s: Option<SectionView>, doc: DocumentView, side: int, def: Seq<char>) -> Seq<char> {
    let own = match s {
        Some(v) => margin_side(v.margins, side),
        None => None,
    };
    match or_else(own, margin_side(doc.margins, side)) {
        Some(v) => v,
        None => def,
    }
}

/// `<w:type>`: the break type, only on a section that breaks to the next.
pub open spec fn break_xml(s: Option<SectionView>, is_break: bool) -> Seq<char> {
    if is_break {
        match s {
            Some(v) => val_tag(
                "<w:type w:val=\""@,
                match v.kind {
                    Some(k) => section_type_of(k),
                    None => None,
                },
            ),
            None => Seq::empty(),
        }
    } else {
        Seq::empty()
    }
}

pub open spec fn orientation_of(s: Option<SectionView>, doc: DocumentView) -> Option<Seq<char>> {
    or_else(
        match s {
            Some(v) => v.orientation,
            None => None,
        },
        doc.orientation,
    )
}

/// `<w:pgSz>` and `<w:pgMar>`; a landscape page swaps width and height.
pub open spec fn page_xml(s: Option<SectionView>, doc: DocumentView) -> Seq<char> {
    pg_size_xml(s, doc) + pg_mar_xml(s, doc)
}

/// `<w:pgSz>` for a paper of width `w` and height `h` (in twips), turned
/// when `landscape`.
pub open spec fn pg_size_tag(w: Seq<char>, h: Seq<char>, landscape: bool) -> Seq<char> {
    if landscape {
        "<w:pgSz w:w=\""@ + h + "\" w:h=\""@ + w + "\""@ + " w:orient=\"landscape\""@ + "/>"@
    } else {
        "<w:pgSz w:w=\""@ + w + "\" w:h=\""@ + h + "\""@ + "/>"@
    }
}

/// `<w:pgSz>`: the document's paper size, swapped for a landscape page.
pub open spec fn pg_size_xml(s: Option<SectionView>, doc: DocumentView) -> Seq<char> {
    let size = page_size_of(doc.page_size);
    pg_size_tag(size.0, size.1, orientation_of(s, doc) == Some("landscape"@))
}

/// `<w:pgMar>`: the section's margins, else the document's, else the defaults.
pub open spec fn pg_mar_xml(s: Option<SectionView>, doc: DocumentView) -> Seq<char> {
    "<w:pgMar w:top=\""@ + escaped(margin_value(s, doc, 0, "1440"@)) + "\" w:bottom=\""@ + escaped(
        margin_value(s, doc, 1, "1440"@),
    ) + "\" w:left=\""@ + escaped(margin_value(s, doc, 2, "1800"@)) + "\" w:right=\""@ + escaped(
        margin_value(s, doc, 3, "1800"@),
    ) + "\" w:header=\"720\" w:footer=\"720\" w:gutter=\"0\"/>"@
}

/// The ` w:fmt` attribute of `<w:pgNumType>`.
pub open spec fn fmt_attr(v: SectionView) -> Seq<char> {
    match v.page_num_fmt {
        Some(f) => match page_num_fmt_of(f) {
            Some(m) => " w:fmt=\""@ + m + "\""@,
            None => Seq::empty(),
        },
        None => Seq::empty(),
    }
}

/// Whether the document asks for a different first page
/// (`headerFooter.firstDifferent`).
pub open spec fn first_different(doc: DocumentView) -> bool {
    doc.header_footer matches Some(h) && h.first_different
}

/// `<w:pgNumType>` of a section, then `<w:titlePg>` when the section asks
/// for its own first page or the document asks for a different first page.
pub open spec fn numbering_xml(s: Option<SectionView>, doc: DocumentView) -> Seq<char> {
    (match s {
        Some(v) => match v.page_start {
            Some(st) => "<w:pgNumType"@ + fmt_attr(v) + " w:start=\""@ + int_decimal(st as int) + "\"/>"@,
            None => if fmt_attr(v).len() > 0 {
                "<w:pgNumType"@ + fmt_attr(v) + "/>"@
            } else {
                Seq::empty()
            },
        },
        None => Seq::empty(),
    }) + (if (s matches Some(v) && v.title_page) || first_different(doc) {
        "<w:titlePg/>"@
    } else {
        Seq::empty()
    })
}

/// The children of `<w:sectPr>`: references first, as the schema orders them.
pub open spec fn section_xml(
    s: Option<SectionView>,
    doc: DocumentView,
    is_break: bool,
    headers: Seq<(HfType, Seq<char>)>,
    footers: Seq<(HfType, Seq<char>)>,
) -> Seq<char> {
    refs_xml("<w:headerReference w:type=\""@, headers) + refs_xml("<w:footerReference w:type=\""@, footers)
        + break_xml(s, is_break) + page_xml(s, doc) + numbering_xml(s, doc)
}

fn push_refs(out: &mut String, open: &str, l: &Vec<(HfType, String)>)
    ensures
        final(out)@ == old(out)@ + refs_xml(open@, l@.map_values(|x: (HfType, String)| ref_view(x))),
{
    let ghost lv = l@.map_values(|x: (HfType, String)| ref_view(x));
    let mut i: usize = 0;
    while i < l.len()
        invariant
            i <= l@.len(),
            lv == l@.map_values(|x: (HfType, String)| ref_view(x)),
            out@ == old(out)@ + refs_xml(open@, lv.take(i as int)),
        decreases l.len() - i,
    {
        let ghost before = out@;
        out.append(open);
        out.append(l[i].0.name());
        out.append("\" r:id=\"");
        out.append(l[i].1.as_str());
        out.append("\"/>");
        assert(lv.take(i + 1).drop_last() == lv.take(i as int));
        assert(lv.take(i + 1).last() == ref_view(l@[i as int]));
        i += 1;
    }
    assert(lv.take(l@.len() as int) == lv);
}

fn margin_field(m: &Option<crate::plan::PlanMargins>, side: u8) -> (r: Option<&str>)
    ensures
        osv(r) == margin_side(crate::plan::margins_view(*m), side as int),
{
    match m {
        Some(v) => if side == 0 {
            opt_str(&v.top)
        } else if side == 1 {
            opt_str(&v.bottom)
        } else if side == 2 {
            opt_str(&v.left)
        } else {
            opt_str(&v.right)
        },
        None => None,
    }
}

fn pick_margin<'a>(section: Option<&'a PlanSection>, doc: &'a PlanDocument, side: u8, def: &'a str) -> (r: &'a str)
    ensures
        r@ == margin_value(opt_section(section), doc@, side as int, def@),
{
    let own = match section {
        Some(s) => margin_field(&s.margins, side),
        None => None,
    };
    match own {
        Some(v) => v,
        None => match margin_field(&doc.margins, side) {
            Some(v) => v,
            None => def,
        },
    }
}

fn push_page(out: &mut String, section: Option<&PlanSection>, doc: &PlanDocument)
    ensures
        final(out)@ == old(out)@ + page_xml(opt_section(section), doc@),
{
    let ghost sv = opt_section(section);
    let (w, h) = page_size_twips(opt_str(&doc.page_size));
    let orientation = match section {
        Some(s) => match opt_str(&s.orientation) {
            Some(o) => Some(o),
            None => opt_str(&doc.orientation),
        },
        None => opt_str(&doc.orientation),
    };
    assert(osv(orientation) == orientation_of(sv, doc@));
    let landscape = match orientation {
        Some(o) => str_eq(o, "landscape"),
        None => false,
    };
    let (pw, ph) = if landscape {
        (h, w)
    } else {
        (w, h)
    };
    let mut p = String::from_str("<w:pgSz w:w=\"");
    p.append(pw);
    p.append("\" w:h=\"");
    p.append(ph);
    p.append("\"");
    if landscape {
        p.append(" w:orient=\"landscape\"");
    }
    p.append("/>");
    p.append("<w:pgMar w:top=\"");
    push_escaped(&mut p, pick_margin(section, doc, 0, "1440"));
    p.append("\" w:bottom=\"");
    push_escaped(&mut p, pick_margin(section, doc, 1, "1440"));
    p.append("\" w:left=\"");
    push_escaped(&mut p, pick_margin(section, doc, 2, "1800"));
    p.append("\" w:right=\"");
    push_escaped(&mut p, pick_margin(section, doc, 3, "1800"));
    p.append("\" w:header=\"720\" w:footer=\"720\" w:gutter=\"0\"/>");
    out.append(p.as_str());
}

fn push_numbering(out: &mut String, section: Option<&PlanSection>, doc: &PlanDocument)
    ensures
        final(out)@ == old(out)@ + numbering_xml(opt_section(section), doc@),
{
    let ghost before = out@;
    match section {
        Some(s) => {
            let mut attr = String::new();
            match opt_str(&s.page_num_fmt) {
                Some(f) => match map_page_num_fmt(f) {
                    Some(m) => {
                        attr.append(" w:fmt=\"");
                        attr.append(m);
                        attr.append("\"");
                    },
                    None => {},
                },
                None => {},
            }
            assert(attr@ == fmt_attr(s@));
            let mut p = String::new();
            match s.page_start {
                Some(start) => {
                    p.append("<w:pgNumType");
                    p.append(attr.as_str());
                    p.append(" w:start=\"");
                    push_int(&mut p, start as i64);
                    p.append("\"/>");
                },
                None => if !attr.as_str().is_empty() {
                    p.append("<w:pgNumType");
                    p.append(attr.as_str());
                    p.append("/>");
                },
            }
            out.append(p.as_str());
        },
        None => {},
    }
    let own = match section {
        Some(s) => s.title_page,
        None => false,
    };
    let doc_first = match &doc.header_footer {
        Some(h) => h.first_different,
        None => false,
    };
    if own || doc_first {
        out.append("<w:titlePg/>");
    }
}

/// `section_inner`: the children of a `<w:sectPr>` for `section` (the
/// document's settings where it has none); `is_break` for a section that
/// is followed by another.
pub fn section_inner(section: Option<&PlanSection>, doc: &PlanDocument, is_break: bool, hf_refs: &HfRefs) -> (r: String)
    ensures
        r@ == section_xml(
            opt_section(section),
            doc@,
            is_break,
            hf_refs@.list(HfKind::Header),
            hf_refs@.list(HfKind::Footer),
        ),
{
    let mut out = String::new();
    let headers = hf_refs.headers();
    push_refs(&mut out, "<w:headerReference w:type=\"", &headers);
    let footers = hf_refs.footers();
    push_refs(&mut out, "<w:footerReference w:type=\"", &footers);
    if is_break {
        match section {
            Some(s) => {
                let t = match opt_str(&s.kind) {
                    Some(k) => map_section_type(k),
                    None => None,
                };
                push_val_tag(&mut out, "<w:type w:val=\"", t);
            },
            None => {},
        }
    }
    push_page(&mut out, section, doc);
    push_numbering(&mut out, section, doc);
    out
}

// ---------------------------------------------------------------------
// Laws of run properties.
// ---------------------------------------------------------------------
/// A run whose format names a paragraph style carries only what the
/// format sets: document defaults do not reach it (so they cannot mask
/// the style), and it is bold only when the format says so.
pub proof fn styled_runs_ignore_document_defaults(
    f: FormatView,
    d1: DocumentView,
    d2: DocumentView,
    heading: Option<u8>,
    is_title: bool,
)
    requires
        styled(f),
    ensures
        run_props(Some(f), d1, heading, is_title) == run_props(Some(f), d2, heading, is_title),
        run_bold(f, heading, is_title) == (f.bold == Some(true)),
{
}

/// An empty `<w:rPr></w:rPr>` is never written.
pub proof fn no_empty_run_properties(f: Option<FormatView>, doc: DocumentView, heading: Option<u8>, is_title: bool)
    ensures
        run_props(f, doc, heading, is_title) != "<w:rPr></w:rPr>"@,
{
    reveal_strlit("<w:rPr></w:rPr>");
    reveal_strlit("<w:rPr>");
    reveal_strlit("</w:rPr>");
    let inner = run_inner(f, doc, heading, is_title);
    if inner.len() > 0 {
        assert(run_props(f, doc, heading, is_title).len() > "<w:rPr></w:rPr>"@.len());
    }
}

/// Whether a section's page is landscape.
pub open spec fn landscape(s: Option<SectionView>, doc: DocumentView) -> bool {
    orientation_of(s, doc) == Some("landscape"@)
}

/// The paper sizes, in twips (page name trimmed, ASCII case ignored):
/// letter 12240 x 15840, legal 12240 x 20160, a5 8391 x 11906, and A4
/// 11906 x 16838 for "a4", no name or any other; a landscape page swaps
/// width and height (see `pg_size_tag`).
pub proof fn paper_sizes(s: Option<SectionView>, doc: DocumentView)
    ensures
        doc.page_size matches Some(p) && crate::docx::key(p) == "letter"@ ==> page_xml(s, doc) == pg_size_tag("12240"@, "15840"@, landscape(s, doc)) + pg_mar_xml(s, doc),
        doc.page_size matches Some(p) && crate::docx::key(p) == "legal"@ ==> page_xml(s, doc) == pg_size_tag("12240"@, "20160"@, landscape(s, doc)) + pg_mar_xml(s, doc),
        doc.page_size matches Some(p) && crate::docx::key(p) == "a5"@ ==> page_xml(s, doc) == pg_size_tag("8391"@, "11906"@, landscape(s, doc)) + pg_mar_xml(s, doc),
        doc.page_size matches Some(p) && crate::docx::key(p) == "a4"@ ==> page_xml(s, doc) == pg_size_tag("11906"@, "16838"@, landscape(s, doc)) + pg_mar_xml(s, doc),
        doc.page_size is None ==> page_xml(s, doc) == pg_size_tag("11906"@, "16838"@, landscape(s, doc)) + pg_mar_xml(s, doc),
{
    reveal_strlit("letter");
    reveal_strlit("legal");
    reveal_strlit("a5");
    reveal_strlit("a4");
    let k = match doc.page_size {
        Some(p) => crate::docx::key(p),
        None => Seq::empty(),
    };
    if doc.page_size is Some {
        if k == "legal"@ {
            assert(k.len() != "letter"@.len());
        }
        if k == "a5"@ {
            assert(k.len() != "letter"@.len() && k.len() != "legal"@.len());
        }
        if k == "a4"@ {
            assert(k.len() != "letter"@.len() && k.len() != "legal"@.len());
            assert(k[1] != "a5"@[1]);
        }
    }
}

} // verus!
