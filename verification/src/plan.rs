//! The FormatPlan model: what a caller asks the engine to write.
//!
//! Point sizes are held in half-points and document line spacing in
//! twips (240 per line), the integer units that end up in the XML.

use vstd::prelude::*;

verus! {

pub struct FormatPlan {
    pub doc_type: Option<String>,
    pub document: PlanDocument,
    pub sections: Vec<PlanSection>,
    pub blocks: Vec<PlanBlock>,
}

pub struct PlanDocument {
    pub title: Option<String>,
    pub author: Option<String>,
    pub page_size: Option<String>,
    pub orientation: Option<String>,
    pub margins: Option<PlanMargins>,
    pub cn_font: Option<String>,
    pub en_font: Option<String>,
    /// Base font size in half-points (12pt is 24).
    pub base_font_half_points: Option<i64>,
    /// Document line spacing in twips (single spacing is 240).
    pub line_spacing_twips: Option<i64>,
    pub header_footer: Option<PlanHeaderFooter>,
    /// Optional preset that fills the plan with defaults ("undergraduate-thesis").
    pub preset: Option<String>,
    /// Odd-page header text of the thesis preset.
    pub thesis_university: Option<String>,
    /// Even-page header text of the thesis preset.
    pub thesis_title: Option<String>,
}

pub struct PlanMargins {
    pub top: Option<String>,
    pub bottom: Option<String>,
    pub left: Option<String>,
    pub right: Option<String>,
}

pub struct PlanHeaderFooter {
    pub odd_even: bool,
    pub first_different: bool,
    pub page_number: Option<String>,
}

pub struct PlanSection {
    pub key: String,
    /// Section break type (`type` in the plan JSON).
    pub kind: Option<String>,
    pub orientation: Option<String>,
    pub margins: Option<PlanMargins>,
    pub page_start: Option<i32>,
    pub page_num_fmt: Option<String>,
    pub title_page: bool,
}

pub struct PlanBlock {
    /// Path of a source-document block (`ref` in the plan JSON).
    pub source_ref: Option<String>,
    pub role: String,
    pub section_key: Option<String>,
    pub text: Option<String>,
    pub caption: Option<String>,
    pub format: Option<PlanFormat>,
    pub table: Option<PlanTable>,
    pub image: Option<PlanImage>,
    pub equation: Option<PlanEquation>,
}

pub struct PlanEquation {
    pub text: Option<String>,
    /// Raw OMML, inserted as-is.
    pub xml: Option<String>,
    /// "inline" (default) or "display".
    pub display_mode: Option<String>,
}

pub struct PlanTable {
    pub rows: Vec<Vec<String>>,
}

pub struct PlanImage {
    pub path: Option<String>,
    pub content_type: Option<String>,
    pub width_emu: Option<i64>,
    pub height_emu: Option<i64>,
    pub alt_text: Option<String>,
}

pub struct PlanFormat {
    pub bold: Option<bool>,
    pub italic: Option<bool>,
    pub underline: Option<String>,
    pub font_color: Option<String>,
    pub vertical_align: Option<String>,
    pub cn_font: Option<String>,
    pub en_font: Option<String>,
    /// Font size in half-points.
    pub font_half_points: Option<i64>,
    pub align: Option<String>,
    pub first_line_indent: Option<String>,
    pub first_line_chars: Option<String>,
    pub hanging_indent: Option<String>,
    pub hanging_chars: Option<String>,
    pub line_spacing: Option<String>,
    /// auto | exact | atLeast.
    pub line_spacing_rule: Option<String>,
    pub before_spacing: Option<String>,
    pub after_spacing: Option<String>,
    pub page_break_before: Option<bool>,
    /// Paragraph style id, written as `<w:pStyle>`.
    pub style_id: Option<String>,
}


// ---------------------------------------------------------------------
// Mathematical views of the plan types.
// ---------------------------------------------------------------------
pub open spec fn ov(o: Option<String>) -> Option<Seq<char>> {
    match o {
        Some(s) => Some(s@),
        None => None,
    }
}

pub struct MarginsView {
    pub top: Option<Seq<char>>,
    pub bottom: Option<Seq<char>>,
    pub left: Option<Seq<char>>,
    pub right: Option<Seq<char>>,
}

pub struct HeaderFooterView {
    pub odd_even: bool,
    pub first_different: bool,
    pub page_number: Option<Seq<char>>,
}

pub struct DocumentView {
    pub title: Option<Seq<char>>,
    pub author: Option<Seq<char>>,
    pub page_size: Option<Seq<char>>,
    pub orientation: Option<Seq<char>>,
    pub margins: Option<MarginsView>,
    pub cn_font: Option<Seq<char>>,
    pub en_font: Option<Seq<char>>,
    pub base_font_half_points: Option<i64>,
    pub line_spacing_twips: Option<i64>,
    pub header_footer: Option<HeaderFooterView>,
    pub preset: Option<Seq<char>>,
    pub thesis_university: Option<Seq<char>>,
    pub thesis_title: Option<Seq<char>>,
}

pub struct SectionView {
    pub key: Seq<char>,
    pub kind: Option<Seq<char>>,
    pub orientation: Option<Seq<char>>,
    pub margins: Option<MarginsView>,
    pub page_start: Option<i32>,
    pub page_num_fmt: Option<Seq<char>>,
    pub title_page: bool,
}

pub struct FormatView {
    pub bold: Option<bool>,
    pub italic: Option<bool>,
    pub underline: Option<Seq<char>>,
    pub font_color: Option<Seq<char>>,
    pub vertical_align: Option<Seq<char>>,
    pub cn_font: Option<Seq<char>>,
    pub en_font: Option<Seq<char>>,
    pub font_half_points: Option<i64>,
    pub align: Option<Seq<char>>,
    pub first_line_indent: Option<Seq<char>>,
    pub first_line_chars: Option<Seq<char>>,
    pub hanging_indent: Option<Seq<char>>,
    pub hanging_chars: Option<Seq<char>>,
    pub line_spacing: Option<Seq<char>>,
    pub line_spacing_rule: Option<Seq<char>>,
    pub before_spacing: Option<Seq<char>>,
    pub after_spacing: Option<Seq<char>>,
    pub page_break_before: Option<bool>,
    pub style_id: Option<Seq<char>>,
}

pub struct EquationView {
    pub text: Option<Seq<char>>,
    pub xml: Option<Seq<char>>,
    pub display_mode: Option<Seq<char>>,
}

pub struct ImageView {
    pub path: Option<Seq<char>>,
    pub content_type: Option<Seq<char>>,
    pub width_emu: Option<i64>,
    pub height_emu: Option<i64>,
    pub alt_text: Option<Seq<char>>,
}

pub struct BlockView {
    pub source_ref: Option<Seq<char>>,
    pub role: Seq<char>,
    pub section_key: Option<Seq<char>>,
    pub text: Option<Seq<char>>,
    pub caption: Option<Seq<char>>,
    pub format: Option<FormatView>,
    pub table: Option<Seq<Seq<Seq<char>>>>,
    pub image: Option<ImageView>,
    pub equation: Option<EquationView>,
}

pub struct PlanView {
    pub doc_type: Option<Seq<char>>,
    pub document: DocumentView,
    pub sections: Seq<SectionView>,
    pub blocks: Seq<BlockView>,
}

impl View for PlanMargins {
    type V = MarginsView;

    open spec fn view(&self) -> MarginsView {
        MarginsView { top: ov(self.top), bottom: ov(self.bottom), left: ov(self.left), right: ov(self.right) }
    }
}

pub open spec fn margins_view(o: Option<PlanMargins>) -> Option<MarginsView> {
    match o {
        Some(m) => Some(m@),
        None => None,
    }
}

impl View for PlanHeaderFooter {
    type V = HeaderFooterView;

    open spec fn view(&self) -> HeaderFooterView {
        HeaderFooterView {
            odd_even: self.odd_even,
            first_different: self.first_different,
            page_number: ov(self.page_number),
        }
    }
}

impl View for PlanDocument {
    type V = DocumentView;

    open spec fn view(&self) -> DocumentView {
        DocumentView {
            title: ov(self.title),
            author: ov(self.author),
            page_size: ov(self.page_size),
            orientation: ov(self.orientation),
            margins: margins_view(self.margins),
            cn_font: ov(self.cn_font),
            en_font: ov(self.en_font),
            base_font_half_points: self.base_font_half_points,
            line_spacing_twips: self.line_spacing_twips,
            header_footer: match self.header_footer {
                Some(h) => Some(h@),
                None => None,
            },
            preset: ov(self.preset),
            thesis_university: ov(self.thesis_university),
            thesis_title: ov(self.thesis_title),
        }
    }
}

impl View for PlanSection {
    type V = SectionView;

    open spec fn view(&self) -> SectionView {
        SectionView {
            key: self.key@,
            kind: ov(self.kind),
            orientation: ov(self.orientation),
            margins: margins_view(self.margins),
            page_start: self.page_start,
            page_num_fmt: ov(self.page_num_fmt),
            title_page: self.title_page,
        }
    }
}

impl View for PlanFormat {
    type V = FormatView;

    open spec fn view(&self) -> FormatView {
        FormatView {
            bold: self.bold,
            italic: self.italic,
            underline: ov(self.underline),
            font_color: ov(self.font_color),
            vertical_align: ov(self.vertical_align),
            cn_font: ov(self.cn_font),
            en_font: ov(self.en_font),
            font_half_points: self.font_half_points,
            align: ov(self.align),
            first_line_indent: ov(self.first_line_indent),
            first_line_chars: ov(self.first_line_chars),
            hanging_indent: ov(self.hanging_indent),
            hanging_chars: ov(self.hanging_chars),
            line_spacing: ov(self.line_spacing),
            line_spacing_rule: ov(self.line_spacing_rule),
            before_spacing: ov(self.before_spacing),
            after_spacing: ov(self.after_spacing),
            page_break_before: self.page_break_before,
            style_id: ov(self.style_id),
        }
    }
}

pub open spec fn format_view(o: Option<PlanFormat>) -> Option<FormatView> {
    match o {
        Some(f) => Some(f@),
        None => None,
    }
}

impl View for PlanEquation {
    type V = EquationView;

    open spec fn view(&self) -> EquationView {
        EquationView { text: ov(self.text), xml: ov(self.xml), display_mode: ov(self.display_mode) }
    }
}

impl View for PlanImage {
    type V = ImageView;

    open spec fn view(&self) -> ImageView {
        ImageView {
            path: ov(self.path),
            content_type: ov(self.content_type),
            width_emu: self.width_emu,
            height_emu: self.height_emu,
            alt_text: ov(self.alt_text),
        }
    }
}

pub open spec fn row_view(r: Vec<String>) -> Seq<Seq<char>> {
    r@.map_values(|c: String| c@)
}

impl View for PlanTable {
    type V = Seq<Seq<Seq<char>>>;

    open spec fn view(&self) -> Seq<Seq<Seq<char>>> {
        self.rows@.map_values(|r: Vec<String>| row_view(r))
    }
}

impl View for PlanBlock {
    type V = BlockView;

    open spec fn view(&self) -> BlockView {
        BlockView {
            source_ref: ov(self.source_ref),
            role: self.role@,
            section_key: ov(self.section_key),
            text: ov(self.text),
            caption: ov(self.caption),
            format: format_view(self.format),
            table: match self.table {
                Some(t) => Some(t@),
                None => None,
            },
            image: match self.image {
                Some(i) => Some(i@),
                None => None,
            },
            equation: match self.equation {
                Some(e) => Some(e@),
                None => None,
            },
        }
    }
}

impl View for FormatPlan {
    type V = PlanView;

    open spec fn view(&self) -> PlanView {
        PlanView {
            doc_type: ov(self.doc_type),
            document: self.document@,
            sections: self.sections@.map_values(|s: PlanSection| s@),
            blocks: self.blocks@.map_values(|b: PlanBlock| b@),
        }
    }
}

pub fn clone_opt(o: &Option<String>) -> (r: Option<String>)
    ensures
        r == *o,
{
    match o {
        Some(s) => Some(s.clone()),
        None => None,
    }
}

pub fn clone_strings(v: &Vec<String>) -> (r: Vec<String>)
    ensures
        r@ == v@,
{
    let mut out: Vec<String> = Vec::new();
    let mut i: usize = 0;
    while i < v.len()
        invariant
            i <= v@.len(),
            out@ == v@.take(i as int),
        decreases v.len() - i,
    {
        out.push(v[i].clone());
        assert(v@.take(i + 1) == v@.take(i as int).push(v@[i as int]));
        i += 1;
    }
    assert(v@.take(v@.len() as int) == v@);
    out
}

impl PlanMargins {
    pub open spec fn spec_empty() -> Self {
        PlanMargins { top: None, bottom: None, left: None, right: None }
    }

    pub fn empty() -> (r: Self)
        ensures
            r == Self::spec_empty(),
    {
        PlanMargins { top: None, bottom: None, left: None, right: None }
    }

    pub fn duplicate(&self) -> (r: Self)
        ensures
            r == *self,
    {
        PlanMargins {
            top: clone_opt(&self.top),
            bottom: clone_opt(&self.bottom),
            left: clone_opt(&self.left),
            right: clone_opt(&self.right),
        }
    }
}

impl PlanHeaderFooter {
    pub open spec fn spec_empty() -> Self {
        PlanHeaderFooter { odd_even: false, first_different: false, page_number: None }
    }

    pub fn empty() -> (r: Self)
        ensures
            r == Self::spec_empty(),
    {
        PlanHeaderFooter { odd_even: false, first_different: false, page_number: None }
    }

    pub fn duplicate(&self) -> (r: Self)
        ensures
            r == *self,
    {
        PlanHeaderFooter {
            odd_even: self.odd_even,
            first_different: self.first_different,
            page_number: clone_opt(&self.page_number),
        }
    }
}

impl PlanFormat {
    pub open spec fn spec_empty() -> Self {
        PlanFormat {
            bold: None,
            italic: None,
            underline: None,
            font_color: None,
            vertical_align: None,
            cn_font: None,
            en_font: None,
            font_half_points: None,
            align: None,
            first_line_indent: None,
            first_line_chars: None,
            hanging_indent: None,
            hanging_chars: None,
            line_spacing: None,
            line_spacing_rule: None,
            before_spacing: None,
            after_spacing: None,
            page_break_before: None,
            style_id: None,
        }
    }

    pub fn empty() -> (r: Self)
        ensures
            r == Self::spec_empty(),
    {
        PlanFormat {
            bold: None,
            italic: None,
            underline: None,
            font_color: None,
            vertical_align: None,
            cn_font: None,
            en_font: None,
            font_half_points: None,
            align: None,
            first_line_indent: None,
            first_line_chars: None,
            hanging_indent: None,
            hanging_chars: None,
            line_spacing: None,
            line_spacing_rule: None,
            before_spacing: None,
            after_spacing: None,
            page_break_before: None,
            style_id: None,
        }
    }

    pub fn duplicate(&self) -> (r: Self)
        ensures
            r == *self,
    {
        PlanFormat {
            bold: self.bold,
            italic: self.italic,
            underline: clone_opt(&self.underline),
            font_color: clone_opt(&self.font_color),
            vertical_align: clone_opt(&self.vertical_align),
            cn_font: clone_opt(&self.cn_font),
            en_font: clone_opt(&self.en_font),
            font_half_points: self.font_half_points,
            align: clone_opt(&self.align),
            first_line_indent: clone_opt(&self.first_line_indent),
            first_line_chars: clone_opt(&self.first_line_chars),
            hanging_indent: clone_opt(&self.hanging_indent),
            hanging_chars: clone_opt(&self.hanging_chars),
            line_spacing: clone_opt(&self.line_spacing),
            line_spacing_rule: clone_opt(&self.line_spacing_rule),
            before_spacing: clone_opt(&self.before_spacing),
            after_spacing: clone_opt(&self.after_spacing),
            page_break_before: self.page_break_before,
            style_id: clone_opt(&self.style_id),
        }
    }
}

pub fn clone_opt_format(o: &Option<PlanFormat>) -> (r: Option<PlanFormat>)
    ensures
        r == *o,
{
    match o {
        Some(f) => Some(f.duplicate()),
        None => None,
    }
}

pub fn clone_opt_margins(o: &Option<PlanMargins>) -> (r: Option<PlanMargins>)
    ensures
        r == *o,
{
    match o {
        Some(m) => Some(m.duplicate()),
        None => None,
    }
}

impl PlanDocument {
    pub fn duplicate(&self) -> (r: Self)
        ensures
            r == *self,
    {
        PlanDocument {
            title: clone_opt(&self.title),
            author: clone_opt(&self.author),
            page_size: clone_opt(&self.page_size),
            orientation: clone_opt(&self.orientation),
            margins: clone_opt_margins(&self.margins),
            cn_font: clone_opt(&self.cn_font),
            en_font: clone_opt(&self.en_font),
            base_font_half_points: self.base_font_half_points,
            line_spacing_twips: self.line_spacing_twips,
            header_footer: match &self.header_footer {
                Some(h) => Some(h.duplicate()),
                None => None,
            },
            preset: clone_opt(&self.preset),
            thesis_university: clone_opt(&self.thesis_university),
            thesis_title: clone_opt(&self.thesis_title),
        }
    }
}

impl PlanSection {
    pub fn duplicate(&self) -> (r: Self)
        ensures
            r == *self,
    {
        PlanSection {
            key: self.key.clone(),
            kind: clone_opt(&self.kind),
            orientation: clone_opt(&self.orientation),
            margins: clone_opt_margins(&self.margins),
            page_start: self.page_start,
            page_num_fmt: clone_opt(&self.page_num_fmt),
            title_page: self.title_page,
        }
    }
}

impl PlanTable {
    pub fn duplicate(&self) -> (r: Self)
        ensures
            r.rows@.len() == self.rows@.len(),
            forall|i: int| 0 <= i < self.rows@.len() ==> #[trigger] r.rows@[i]@ == self.rows@[i]@,
    {
        let mut rows: Vec<Vec<String>> = Vec::new();
        let mut i: usize = 0;
        while i < self.rows.len()
            invariant
                i <= self.rows@.len(),
                rows@.len() == i,
                forall|j: int| 0 <= j < i ==> #[trigger] rows@[j]@ == self.rows@[j]@,
            decreases self.rows.len() - i,
        {
            rows.push(clone_strings(&self.rows[i]));
            i += 1;
        }
        PlanTable { rows }
    }
}

impl PlanImage {
    pub fn duplicate(&self) -> (r: Self)
        ensures
            r@ == self@,
    {
        PlanImage {
            path: clone_opt(&self.path),
            content_type: clone_opt(&self.content_type),
            width_emu: self.width_emu,
            height_emu: self.height_emu,
            alt_text: clone_opt(&self.alt_text),
        }
    }
}

impl PlanEquation {
    pub fn duplicate(&self) -> (r: Self)
        ensures
            r@ == self@,
    {
        PlanEquation {
            text: clone_opt(&self.text),
            xml: clone_opt(&self.xml),
            display_mode: clone_opt(&self.display_mode),
        }
    }
}

impl PlanBlock {
    pub fn duplicate(&self) -> (r: Self)
        ensures
            r@ == self@,
    {
        let table = match &self.table {
            Some(t) => {
                let d = t.duplicate();
                assert(d@ =~= t@);
                Some(d)
            },
            None => None,
        };
        PlanBlock {
            source_ref: clone_opt(&self.source_ref),
            role: self.role.clone(),
            section_key: clone_opt(&self.section_key),
            text: clone_opt(&self.text),
            caption: clone_opt(&self.caption),
            format: clone_opt_format(&self.format),
            table,
            image: match &self.image {
                Some(i) => Some(i.duplicate()),
                None => None,
            },
            equation: match &self.equation {
                Some(e) => Some(e.duplicate()),
                None => None,
            },
        }
    }
}

impl FormatPlan {
    /// A copy of the plan (by view).
    pub fn duplicate(&self) -> (r: Self)
        ensures
            r@ == self@,
            r.blocks@.len() == self.blocks@.len(),
    {
        let mut sections: Vec<PlanSection> = Vec::new();
        let mut i: usize = 0;
        while i < self.sections.len()
            invariant
                i <= self.sections@.len(),
                sections@.len() == i,
                forall|j: int| 0 <= j < i ==> #[trigger] sections@[j]@ == self.sections@[j]@,
            decreases self.sections.len() - i,
        {
            sections.push(self.sections[i].duplicate());
            i += 1;
        }
        let mut blocks: Vec<PlanBlock> = Vec::new();
        let mut k: usize = 0;
        while k < self.blocks.len()
            invariant
                k <= self.blocks@.len(),
                blocks@.len() == k,
                forall|j: int| 0 <= j < k ==> #[trigger] blocks@[j]@ == self.blocks@[j]@,
            decreases self.blocks.len() - k,
        {
            blocks.push(self.blocks[k].duplicate());
            k += 1;
        }
        let r = FormatPlan { doc_type: clone_opt(&self.doc_type), document: self.document.duplicate(), sections, blocks };
        assert(r@.sections =~= self@.sections);
        assert(r@.blocks =~= self@.blocks);
        r
    }
}

} // verus!
