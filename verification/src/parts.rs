//! The package around the document body: OPC relationships and content
//! types, header and footer parts, settings, and styles copied from a
//! template.

use vstd::prelude::*;
use crate::archive::{ZipEntry, EntryView, entries_view, read_zip_entry, zip_entry_text, opt_text};
use crate::docx::{key, W_NS, R_NS, WP_NS, A_NS, XML_DECL};
use crate::plan::{PlanDocument, DocumentView};
use crate::presets::{spec_is_thesis, is_undergraduate_thesis};
use crate::props::{run_props, run_properties, HfKind, HfType};
use crate::cli::text_lt;
use crate::text::{escaped, push_escaped, decimal, push_decimal, trimmed, trim_string, trim_lower, str_eq, digit_char};

verus! {

// ---------------------------------------------------------------------
// Image extensions and their content types.
// ---------------------------------------------------------------------
/// The image extensions, in ascending order.
pub open spec fn ext_name(i: int) -> Seq<char> {
    if i == 0 {
        "bmp"@
    } else if i == 1 {
        "emf"@
    } else if i == 2 {
        "gif"@
    } else if i == 3 {
        "jpeg"@
    } else if i == 4 {
        "png"@
    } else if i == 5 {
        "tiff"@
    } else {
        "wmf"@
    }
}

/// Where an extension stands in that order (`png` for any other).
pub open spec fn ext_slot(e: Seq<char>) -> int {
    if e == "bmp"@ {
        0
    } else if e == "emf"@ {
        1
    } else if e == "gif"@ {
        2
    } else if e == "jpeg"@ {
        3
    } else if e == "tiff"@ {
        5
    } else if e == "wmf"@ {
        6
    } else {
        4
    }
}

pub fn ext_name_at(i: usize) -> (r: &'static str)
    requires
        i < 7,
    ensures
        r@ == ext_name(i as int),
{
    if i == 0 {
        "bmp"
    } else if i == 1 {
        "emf"
    } else if i == 2 {
        "gif"
    } else if i == 3 {
        "jpeg"
    } else if i == 4 {
        "png"
    } else if i == 5 {
        "tiff"
    } else {
        "wmf"
    }
}

pub fn ext_slot_of(e: &str) -> (r: usize)
    ensures
        r as int == ext_slot(e@),
        r < 7,
{
    if str_eq(e, "bmp") {
        0
    } else if str_eq(e, "emf") {
        1
    } else if str_eq(e, "gif") {
        2
    } else if str_eq(e, "jpeg") {
        3
    } else if str_eq(e, "tiff") {
        5
    } else if str_eq(e, "wmf") {
        6
    } else {
        4
    }
}

/// Each extension is found again at its own place.
pub proof fn lemma_ext_slot(i: int)
    requires
        0 <= i < 7,
    ensures
        ext_slot(ext_name(i)) == i,
{
    reveal_strlit("bmp");
    reveal_strlit("emf");
    reveal_strlit("gif");
    reveal_strlit("jpeg");
    reveal_strlit("png");
    reveal_strlit("tiff");
    reveal_strlit("wmf");
    // The names differ in their first letter.
    assert("bmp"@[0] == 'b' && "emf"@[0] == 'e' && "gif"@[0] == 'g' && "jpeg"@[0] == 'j');
    assert("png"@[0] == 'p' && "tiff"@[0] == 't' && "wmf"@[0] == 'w');
}

/// The extensions are listed in strictly ascending order, so the
/// `<Default>` entries come out sorted by extension.
pub proof fn extensions_ascending(i: int, j: int)
    requires
        0 <= i < j < 7,
    ensures
        text_lt(ext_name(i), ext_name(j)),
{
    reveal_strlit("bmp");
    reveal_strlit("emf");
    reveal_strlit("gif");
    reveal_strlit("jpeg");
    reveal_strlit("png");
    reveal_strlit("tiff");
    reveal_strlit("wmf");
    assert(ext_name(i)[0] != ext_name(j)[0]);
}

/// The content type of an image extension (`image/png` for any other).
pub open spec fn content_type_of(ext: Seq<char>) -> Seq<char> {
    if ext == "jpeg"@ {
        "image/jpeg"@
    } else if ext == "gif"@ {
        "image/gif"@
    } else if ext == "bmp"@ {
        "image/bmp"@
    } else if ext == "tiff"@ {
        "image/tiff"@
    } else if ext == "emf"@ {
        "image/x-emf"@
    } else if ext == "wmf"@ {
        "image/x-wmf"@
    } else {
        "image/png"@
    }
}

/// `image_content_type`.
pub fn image_content_type(ext: &str) -> (r: &'static str)
    ensures
        r@ == content_type_of(ext@),
{
    if str_eq(ext, "jpeg") {
        "image/jpeg"
    } else if str_eq(ext, "gif") {
        "image/gif"
    } else if str_eq(ext, "bmp") {
        "image/bmp"
    } else if str_eq(ext, "tiff") {
        "image/tiff"
    } else if str_eq(ext, "emf") {
        "image/x-emf"
    } else if str_eq(ext, "wmf") {
        "image/x-wmf"
    } else {
        "image/png"
    }
}

// ---------------------------------------------------------------------
// The package: relationships, content-type overrides and defaults, parts.
// ---------------------------------------------------------------------
/// OPC relationship and parts accumulator; relationship ids are given out
/// in registration order.
pub struct Package {
    rels: Vec<(String, String, String)>,
    overrides: Vec<(String, String)>,
    defaults: Vec<bool>,
    parts: Vec<ZipEntry>,
    next_rid: u32,
    img_seq: u32,
}

/// What a package holds: relationships (id, type, target relative to
/// `word/`), content-type overrides (part, type), which image extensions
/// have a default content type, the parts in order, and the number of
/// images.
pub struct PackageView {
    pub rels: Seq<(Seq<char>, Seq<char>, Seq<char>)>,
    pub overrides: Seq<(Seq<char>, Seq<char>)>,
    pub defaults: Seq<bool>,
    pub parts: Seq<EntryView>,
    pub img_seq: nat,
}

pub open spec fn rel_view(r: (String, String, String)) -> (Seq<char>, Seq<char>, Seq<char>) {
    (r.0@, r.1@, r.2@)
}

pub open spec fn pair_view(r: (String, String)) -> (Seq<char>, Seq<char>) {
    (r.0@, r.1@)
}

impl View for Package {
    type V = PackageView;

    closed spec fn view(&self) -> PackageView {
        PackageView {
            rels: self.rels@.map_values(|r: (String, String, String)| rel_view(r)),
            overrides: self.overrides@.map_values(|r: (String, String)| pair_view(r)),
            defaults: self.defaults@,
            parts: entries_view(self.parts@),
            img_seq: self.img_seq as nat,
        }
    }
}

/// The n-th relationship id.
pub open spec fn rid_of(n: nat) -> Seq<char> {
    "rId"@ + decimal(n)
}

/// The ids are `rId1`, `rId2`, ... in registration order.
pub open spec fn ids_in_order(p: PackageView) -> bool {
    forall|i: int| 0 <= i < p.rels.len() ==> (#[trigger] p.rels[i]).0 == rid_of((i + 1) as nat)
}

impl PackageView {
    pub open spec fn empty() -> PackageView {
        PackageView {
            rels: Seq::empty(),
            overrides: Seq::empty(),
            defaults: seq![false, false, false, false, false, false, false],
            parts: Seq::empty(),
            img_seq: 0,
        }
    }

    /// The package with one more relationship.
    pub open spec fn with_rel(self, rel_type: Seq<char>, target: Seq<char>) -> PackageView {
        PackageView { rels: self.rels.push((rid_of(self.rels.len() + 1), rel_type, target)), ..self }
    }

    pub open spec fn with_override(self, part: Seq<char>, ct: Seq<char>) -> PackageView {
        PackageView { overrides: self.overrides.push((part, ct)), ..self }
    }

    pub open spec fn with_part(self, e: EntryView) -> PackageView {
        PackageView { parts: self.parts.push(e), ..self }
    }

    pub open spec fn with_default(self, slot: int) -> PackageView {
        PackageView { defaults: self.defaults.update(slot, true), ..self }
    }

    pub open spec fn with_image(self) -> PackageView {
        PackageView { img_seq: self.img_seq + 1, ..self }
    }

    /// The id the next relationship gets.
    pub open spec fn next_rid(self) -> Seq<char> {
        rid_of(self.rels.len() + 1)
    }
}

/// Registering a relationship keeps the ids in order.
pub proof fn rel_ids_stay_in_order(p: PackageView, rel_type: Seq<char>, target: Seq<char>)
    requires
        ids_in_order(p),
    ensures
        ids_in_order(p.with_rel(rel_type, target)),
{
    let q = p.with_rel(rel_type, target);
    assert forall|i: int| 0 <= i < q.rels.len() implies (#[trigger] q.rels[i]).0 == rid_of((i + 1) as nat) by {
        if i < p.rels.len() {
            assert(q.rels[i] == p.rels[i]);
        }
    }
}

impl Package {
    /// The package is consistent: the next id follows the registered ones,
    /// which are in order, and there is one default flag per extension.
    pub closed spec fn wf(&self) -> bool {
        &&& self.next_rid as nat == self.rels@.len() + 1
        &&& self.defaults@.len() == 7
        &&& ids_in_order(self@)
    }

    pub fn new() -> (r: Self)
        ensures
            r.wf(),
            r@ == PackageView::empty(),
    {
        let r = Package {
            rels: Vec::new(),
            overrides: Vec::new(),
            defaults: vec![false, false, false, false, false, false, false],
            parts: Vec::new(),
            next_rid: 1,
            img_seq: 0,
        };
        assert(r@.rels =~= Seq::empty());
        assert(r@.overrides =~= Seq::empty());
        assert(r@.parts =~= Seq::empty());
        r
    }

    /// `add_rel`: registers a relationship and returns its id.
    pub fn add_rel(&mut self, rel_type: &str, target: &str) -> (r: String)
        requires
            old(self).wf(),
            old(self)@.rels.len() + 2 <= u32::MAX,
        ensures
            final(self).wf(),
            final(self)@ == old(self)@.with_rel(rel_type@, target@),
            r@ == old(self)@.next_rid(),
    {
        let ghost before = self@;
        let mut id = String::from_str("rId");
        push_decimal(&mut id, self.next_rid as u64);
        self.next_rid = self.next_rid + 1;
        self.rels.push((id.clone(), String::from_str(rel_type), String::from_str(target)));
        proof {
            rel_ids_stay_in_order(before, rel_type@, target@);
            assert(self@.rels =~= before.with_rel(rel_type@, target@).rels);
        }
        id
    }

    pub fn add_override(&mut self, part: String, ct: &str)
        requires
            old(self).wf(),
        ensures
            final(self).wf(),
            final(self)@ == old(self)@.with_override(part@, ct@),
    {
        let ghost before = self@;
        self.overrides.push((part, String::from_str(ct)));
        assert(self@.overrides =~= before.overrides.push((part@, ct@)));
        assert(self@.rels =~= before.rels);
    }

    pub fn add_part(&mut self, e: ZipEntry)
        requires
            old(self).wf(),
        ensures
            final(self).wf(),
            final(self)@ == old(self)@.with_part(e@),
    {
        let ghost before = self@;
        self.parts.push(e);
        assert(self@.parts =~= before.parts.push(e@));
        assert(self@.rels =~= before.rels);
    }

    /// Records that the extension at `slot` has a default content type.
    pub fn add_default(&mut self, slot: usize)
        requires
            old(self).wf(),
            slot < 7,
        ensures
            final(self).wf(),
            final(self)@ == old(self)@.with_default(slot as int),
    {
        let ghost before = self@;
        self.defaults.set(slot, true);
        assert(self@.rels =~= before.rels);
    }

    /// Counts one more image and returns its number.
    pub fn next_image(&mut self) -> (r: u32)
        requires
            old(self).wf(),
            old(self)@.img_seq < u32::MAX,
        ensures
            final(self).wf(),
            final(self)@ == old(self)@.with_image(),
            r == final(self)@.img_seq,
    {
        let ghost before = self@;
        self.img_seq = self.img_seq + 1;
        assert(self@.rels =~= before.rels);
        self.img_seq
    }

    /// The relationship ids of a package are `rId1`, `rId2`, ... in the
    /// order the relationships were registered.
    pub proof fn ids_are_in_order(&self)
        requires
            self.wf(),
        ensures
            ids_in_order(self@),
    {
    }

    pub fn has_rels(&self) -> (r: bool)
        ensures
            r == (self@.rels.len() > 0),
    {
        self.rels.len() > 0
    }

    /// The parts, in the order they were added.
    pub fn into_parts(self) -> (r: Vec<ZipEntry>)
        ensures
            entries_view(r@) == self@.parts,
    {
        self.parts
    }
}

// ---------------------------------------------------------------------
// [Content_Types].xml and word/_rels/document.xml.rels.
// ---------------------------------------------------------------------
pub const CONTENT_TYPES_HEAD: &'static str = "<?xml version=\"1.0\" encoding=\"UTF-8\" standalone=\"yes\"?>\n<Types xmlns=\"http://schemas.openxmlformats.org/package/2006/content-types\"><Default Extension=\"rels\" ContentType=\"application/vnd.openxmlformats-package.relationships+xml\"/><Default Extension=\"xml\" ContentType=\"application/xml\"/>";

pub const DOCUMENT_OVERRIDE: &'static str = "<Override PartName=\"/word/document.xml\" ContentType=\"application/vnd.openxmlformats-officedocument.wordprocessingml.document.main+xml\"/>";

pub const RELS_HEAD: &'static str = "<?xml version=\"1.0\" encoding=\"UTF-8\" standalone=\"yes\"?>\n<Relationships xmlns=\"http://schemas.openxmlformats.org/package/2006/relationships\">";

/// `_rels/.rels`: the package's one relationship, to the main document.
pub const ROOT_RELS: &'static str = "<?xml version=\"1.0\" encoding=\"UTF-8\" standalone=\"yes\"?>\n<Relationships xmlns=\"http://schemas.openxmlformats.org/package/2006/relationships\"><Relationship Id=\"rId1\" Type=\"http://schemas.openxmlformats.org/officeDocument/2006/relationships/officeDocument\" Target=\"word/document.xml\"/></Relationships>";

pub open spec fn default_xml(ext: Seq<char>) -> Seq<char> {
    "<Default Extension=\""@ + escaped(ext) + "\" ContentType=\""@ + escaped(content_type_of(ext)) + "\"/>"@
}

/// The `<Default>` entries of the first `n` extensions that are present.
pub open spec fn defaults_xml(d: Seq<bool>, n: int) -> Seq<char>
    decreases n,
{
    if n <= 0 {
        Seq::empty()
    } else {
        defaults_xml(d, n - 1) + (if d[n - 1] {
            default_xml(ext_name(n - 1))
        } else {
            Seq::empty()
        })
    }
}

pub open spec fn overrides_xml(v: Seq<(Seq<char>, Seq<char>)>) -> Seq<char>
    decreases v.len(),
{
    if v.len() == 0 {
        Seq::empty()
    } else {
        overrides_xml(v.drop_last()) + "<Override PartName=\""@ + escaped(v.last().0) + "\" ContentType=\""@
            + escaped(v.last().1) + "\"/>"@
    }
}

pub open spec fn content_types_xml(p: PackageView) -> Seq<char> {
    CONTENT_TYPES_HEAD@ + defaults_xml(p.defaults, 7) + DOCUMENT_OVERRIDE@ + overrides_xml(p.overrides) + "</Types>"@
}

pub open spec fn rels_xml(v: Seq<(Seq<char>, Seq<char>, Seq<char>)>) -> Seq<char>
    decreases v.len(),
{
    if v.len() == 0 {
        Seq::empty()
    } else {
        rels_xml(v.drop_last()) + "<Relationship Id=\""@ + escaped(v.last().0) + "\" Type=\""@ + escaped(v.last().1)
            + "\" Target=\""@ + escaped(v.last().2) + "\"/>"@
    }
}

pub open spec fn document_rels_xml(p: PackageView) -> Seq<char> {
    RELS_HEAD@ + rels_xml(p.rels) + "</Relationships>"@
}

/// `content_types`: `[Content_Types].xml` of the package.
pub fn content_types(pkg: &Package) -> (r: String)
    requires
        pkg.wf(),
    ensures
        r@ == content_types_xml(pkg@),
{
    let mut s = String::from_str(CONTENT_TYPES_HEAD);
    let mut i: usize = 0;
    while i < 7
        invariant
            i <= 7,
            pkg.wf(),
            pkg.defaults@ == pkg@.defaults,
            pkg@.defaults.len() == 7,
            s@ == CONTENT_TYPES_HEAD@ + defaults_xml(pkg@.defaults, i as int),
        decreases 7 - i,
    {
        if pkg.defaults[i] {
            let ext = ext_name_at(i);
            s.append("<Default Extension=\"");
            push_escaped(&mut s, ext);
            s.append("\" ContentType=\"");
            push_escaped(&mut s, image_content_type(ext));
            s.append("\"/>");
        }
        i += 1;
    }
    s.append(DOCUMENT_OVERRIDE);
    let ghost head = s@;
    let ghost ov = pkg@.overrides;
    let mut j: usize = 0;
    while j < pkg.overrides.len()
        invariant
            j <= pkg.overrides@.len(),
            ov == pkg.overrides@.map_values(|r: (String, String)| pair_view(r)),
            s@ == head + overrides_xml(ov.take(j as int)),
        decreases pkg.overrides.len() - j,
    {
        s.append("<Override PartName=\"");
        push_escaped(&mut s, pkg.overrides[j].0.as_str());
        s.append("\" ContentType=\"");
        push_escaped(&mut s, pkg.overrides[j].1.as_str());
        s.append("\"/>");
        assert(ov.take(j + 1).drop_last() == ov.take(j as int));
        j += 1;
    }
    assert(ov.take(ov.len() as int) == ov);
    s.append("</Types>");
    s
}

/// `document_rels`: `word/_rels/document.xml.rels` of the package.
pub fn document_rels(pkg: &Package) -> (r: String)
    ensures
        r@ == document_rels_xml(pkg@),
{
    let mut s = String::from_str(RELS_HEAD);
    let ghost rv = pkg@.rels;
    let mut j: usize = 0;
    while j < pkg.rels.len()
        invariant
            j <= pkg.rels@.len(),
            rv == pkg.rels@.map_values(|r: (String, String, String)| rel_view(r)),
            s@ == RELS_HEAD@ + rels_xml(rv.take(j as int)),
        decreases pkg.rels.len() - j,
    {
        s.append("<Relationship Id=\"");
        push_escaped(&mut s, pkg.rels[j].0.as_str());
        s.append("\" Type=\"");
        push_escaped(&mut s, pkg.rels[j].1.as_str());
        s.append("\" Target=\"");
        push_escaped(&mut s, pkg.rels[j].2.as_str());
        s.append("\"/>");
        assert(rv.take(j + 1).drop_last() == rv.take(j as int));
        j += 1;
    }
    assert(rv.take(rv.len() as int) == rv);
    s.append("</Relationships>");
    s
}

// ---------------------------------------------------------------------
// Header, footer and settings parts.
// ---------------------------------------------------------------------
/// The run properties of header and footer text: document defaults only.
pub open spec fn hf_run(doc: DocumentView) -> Seq<char> {
    run_props(None, doc, None, false)
}

/// A centred header holding `text`.
pub open spec fn header_xml(doc: DocumentView, text: Seq<char>) -> Seq<char> {
    XML_DECL@ + "<w:hdr xmlns:w=\""@ + W_NS@ + "\"><w:p><w:pPr><w:jc w:val=\"center\"/></w:pPr><w:r>"@ + hf_run(doc)
        + "<w:t xml:space=\"preserve\">"@ + escaped(text) + "</w:t></w:r></w:p></w:hdr>"@
}

/// A PAGE field run.
pub open spec fn page_field(rp: Seq<char>) -> Seq<char> {
    "<w:fldSimple w:instr=\" PAGE \"><w:r>"@ + rp + "<w:t>1</w:t></w:r></w:fldSimple>"@
}

/// A centred "第 N 页" footer.
pub open spec fn page_footer_xml(doc: DocumentView) -> Seq<char> {
    XML_DECL@ + "<w:ftr xmlns:w=\""@ + W_NS@ + "\"><w:p><w:pPr><w:jc w:val=\"center\"/></w:pPr><w:r>"@ + hf_run(doc)
        + "<w:t xml:space=\"preserve\">第 </w:t></w:r>"@ + page_field(hf_run(doc)) + "<w:r>"@ + hf_run(doc)
        + "<w:t xml:space=\"preserve\"> 页</w:t></w:r></w:p></w:ftr>"@
}

/// `build_header_xml`.
pub fn build_header_xml(doc: &PlanDocument, text: &str) -> (r: String)
    ensures
        r@ == header_xml(doc@, text@),
{
    let rpr = run_properties(None, doc, None, false);
    let mut s = String::from_str(XML_DECL);
    s.append("<w:hdr xmlns:w=\"");
    s.append(W_NS);
    s.append("\"><w:p><w:pPr><w:jc w:val=\"center\"/></w:pPr><w:r>");
    s.append(rpr.as_str());
    s.append("<w:t xml:space=\"preserve\">");
    push_escaped(&mut s, text);
    s.append("</w:t></w:r></w:p></w:hdr>");
    s
}

fn push_page_field(s: &mut String, rpr: &str)
    ensures
        final(s)@ == old(s)@ + page_field(rpr@),
{
    s.append("<w:fldSimple w:instr=\" PAGE \"><w:r>");
    s.append(rpr);
    s.append("<w:t>1</w:t></w:r></w:fldSimple>");
}

/// `build_page_number_footer_xml`.
pub fn build_page_number_footer_xml(doc: &PlanDocument) -> (r: String)
    ensures
        r@ == page_footer_xml(doc@),
{
    let rpr = run_properties(None, doc, None, false);
    let mut s = String::from_str(XML_DECL);
    s.append("<w:ftr xmlns:w=\"");
    s.append(W_NS);
    s.append("\"><w:p><w:pPr><w:jc w:val=\"center\"/></w:pPr><w:r>");
    s.append(rpr.as_str());
    s.append("<w:t xml:space=\"preserve\">第 </w:t></w:r>");
    push_page_field(&mut s, rpr.as_str());
    s.append("<w:r>");
    s.append(rpr.as_str());
    s.append("<w:t xml:space=\"preserve\"> 页</w:t></w:r></w:p></w:ftr>");
    s
}

/// `word/settings.xml`, asking for distinct even and odd headers when
/// `even_odd` holds.
pub open spec fn settings_xml(even_odd: bool) -> Seq<char> {
    XML_DECL@ + "<w:settings xmlns:w=\""@ + W_NS@ + "\">"@ + (if even_odd {
        "<w:evenAndOddHeaders/>"@
    } else {
        Seq::empty()
    }) + "</w:settings>"@
}

/// `build_settings_xml`.
pub fn build_settings_xml(even_odd: bool) -> (r: String)
    ensures
        r@ == settings_xml(even_odd),
{
    let mut s = String::from_str(XML_DECL);
    s.append("<w:settings xmlns:w=\"");
    s.append(W_NS);
    s.append("\">");
    if even_odd {
        s.append("<w:evenAndOddHeaders/>");
    }
    s.append("</w:settings>");
    s
}

// ---------------------------------------------------------------------
// The vertical page-number text box.
// ---------------------------------------------------------------------
/// An EMU length in points with two decimals (12700 EMU per point); the
/// length is a whole number of hundredths of a point.
pub open spec fn points_of(emu: nat) -> Seq<char> {
    let h = emu / 127;
    decimal(h / 100) + "."@ + seq![digit_char((h % 100) / 10), digit_char(h % 10)]
}

fn push_points(s: &mut String, emu: u64)
    requires
        emu % 127 == 0,
    ensures
        final(s)@ == old(s)@ + points_of(emu as nat),
{
    let h = emu / 127;
    push_decimal(s, h / 100);
    s.append(".");
    let ghost mid = s@;
    push_decimal(s, (h % 100) / 10);
    push_decimal(s, h % 10);
    assert(decimal(((h % 100) / 10) as nat) == seq![digit_char(((h % 100) / 10) as nat)]);
    assert(decimal((h % 10) as nat) == seq![digit_char((h % 10) as nat)]);
    assert(s@ == mid + seq![digit_char(((h % 100) / 10) as nat), digit_char((h % 10) as nat)]);
}

/// The text box's fixed geometry, in EMU.
pub const BOX_X: u64 = 457200;

pub const BOX_Y: u64 = 1828800;

pub const BOX_WIDTH: u64 = 457200;

pub const BOX_HEIGHT: u64 = 7772400;

/// The `mc:AlternateContent` pair (a DrawingML text box and its VML
/// fallback) holding `inner`, a paragraph, vertically (`vert270`) at the
/// binding edge of the page.
pub open spec fn textbox_xml(inner: Seq<char>) -> Seq<char> {
    "<mc:AlternateContent xmlns:mc=\"http://schemas.openxmlformats.org/markup-compatibility/2006\""@
        + " xmlns:w=\""@ + W_NS@ + "\" xmlns:r=\""@ + R_NS@ + "\" xmlns:wp=\""@ + WP_NS@ + "\" xmlns:a=\""@ + A_NS@
        + "\""@
        + " xmlns:wps=\"http://schemas.microsoft.com/office/word/2010/wordprocessingShape\">"@
        + "<mc:Choice Requires=\"wps\"><w:drawing>"@
        + "<wp:anchor distT=\"0\" distB=\"0\" distL=\"114300\" distR=\"114300\" simplePos=\"0\""@
        + " relativeHeight=\"251659264\" behindDoc=\"0\" locked=\"0\" layoutInCell=\"1\" allowOverlap=\"1\">"@
        + "<wp:simplePos x=\"0\" y=\"0\"/>"@
        + "<wp:positionH relativeFrom=\"page\"><wp:posOffset>"@ + decimal(BOX_X as nat)
        + "</wp:posOffset></wp:positionH>"@
        + "<wp:positionV relativeFrom=\"page\"><wp:posOffset>"@ + decimal(BOX_Y as nat)
        + "</wp:posOffset></wp:positionV>"@
        + "<wp:extent cx=\""@ + decimal(BOX_WIDTH as nat) + "\" cy=\""@ + decimal(BOX_HEIGHT as nat) + "\"/>"@
        + "<wp:effectExtent l=\"0\" t=\"0\" r=\"0\" b=\"0\"/><wp:wrapNone/>"@
        + "<wp:docPr id=\"1\" name=\"VerticalTextBox\"/><wp:cNvGraphicFramePr/><a:graphic>"@
        + "<a:graphicData uri=\"http://schemas.microsoft.com/office/word/2010/wordprocessingShape\">"@
        + "<wps:wsp><wps:cNvSpPr txBox=\"1\"/><wps:spPr>"@
        + "<a:xfrm><a:off x=\"0\" y=\"0\"/><a:ext cx=\""@ + decimal(BOX_WIDTH as nat) + "\" cy=\""@ + decimal(
        BOX_HEIGHT as nat,
    ) + "\"/></a:xfrm>"@
        + "<a:prstGeom prst=\"rect\"><a:avLst/></a:prstGeom><a:noFill/><a:ln><a:noFill/></a:ln></wps:spPr>"@
        + "<wps:txbx><w:txbxContent>"@ + inner + "</w:txbxContent></wps:txbx>"@
        + "<wps:bodyPr rot=\"0\" spcFirstLastPara=\"0\" vertOverflow=\"visible\" horzOverflow=\"visible\""@
        + " vert=\"vert270\" wrap=\"square\" lIns=\"91440\" tIns=\"45720\" rIns=\"91440\" bIns=\"45720\""@
        + " numCol=\"1\" spcCol=\"0\" rtlCol=\"0\" fromWordArt=\"0\" anchor=\"ctr\" anchorCtr=\"0\""@
        + " forceAA=\"0\" compatLnSpc=\"1\"/>"@
        + "</wps:wsp></a:graphicData></a:graphic></wp:anchor></w:drawing></mc:Choice><mc:Fallback>"@
        + "<w:pict xmlns:v=\"urn:schemas-microsoft-com:vml\" xmlns:w10=\"urn:schemas-microsoft-com:office:word\">"@
        + "<v:rect id=\"_x0000_s1026\" style=\"position:absolute;margin-left:"@ + points_of(BOX_X as nat)
        + "pt;margin-top:"@ + points_of(BOX_Y as nat) + "pt;width:"@ + points_of(BOX_WIDTH as nat)
        + "pt;height:"@ + points_of(BOX_HEIGHT as nat)
        + "pt;z-index:251659264;mso-position-horizontal-relative:page;mso-position-vertical-relative:page\" stroked=\"f\" filled=\"f\">"@
        + "<v:textbox style=\"layout-flow:vertical;mso-layout-flow-alt:bottom-to-top\" inset=\"7.2pt,3.6pt,7.2pt,3.6pt\">"@
        + "<w:txbxContent>"@ + inner + "</w:txbxContent>"@
        + "</v:textbox></v:rect></w:pict></mc:Fallback></mc:AlternateContent>"@
}

/// `build_vertical_pagenum_textbox`.
pub fn build_vertical_pagenum_textbox(inner_paragraph_xml: &str) -> (r: String)
    ensures
        r@ == textbox_xml(inner_paragraph_xml@),
{
    let mut s = String::from_str(
        "<mc:AlternateContent xmlns:mc=\"http://schemas.openxmlformats.org/markup-compatibility/2006\"",
    );
    s.append(" xmlns:w=\"");
    s.append(W_NS);
    s.append("\" xmlns:r=\"");
    s.append(R_NS);
    s.append("\" xmlns:wp=\"");
    s.append(WP_NS);
    s.append("\" xmlns:a=\"");
    s.append(A_NS);
    s.append("\"");
    s.append(" xmlns:wps=\"http://schemas.microsoft.com/office/word/2010/wordprocessingShape\">");
    s.append("<mc:Choice Requires=\"wps\"><w:drawing>");
    s.append("<wp:anchor distT=\"0\" distB=\"0\" distL=\"114300\" distR=\"114300\" simplePos=\"0\"");
    s.append(" relativeHeight=\"251659264\" behindDoc=\"0\" locked=\"0\" layoutInCell=\"1\" allowOverlap=\"1\">");
    s.append("<wp:simplePos x=\"0\" y=\"0\"/>");
    s.append("<wp:positionH relativeFrom=\"page\"><wp:posOffset>");
    push_decimal(&mut s, BOX_X);
    s.append("</wp:posOffset></wp:positionH>");
    s.append("<wp:positionV relativeFrom=\"page\"><wp:posOffset>");
    push_decimal(&mut s, BOX_Y);
    s.append("</wp:posOffset></wp:positionV>");
    s.append("<wp:extent cx=\"");
    push_decimal(&mut s, BOX_WIDTH);
    s.append("\" cy=\"");
    push_decimal(&mut s, BOX_HEIGHT);
    s.append("\"/>");
    s.append("<wp:effectExtent l=\"0\" t=\"0\" r=\"0\" b=\"0\"/><wp:wrapNone/>");
    s.append("<wp:docPr id=\"1\" name=\"VerticalTextBox\"/><wp:cNvGraphicFramePr/><a:graphic>");
    s.append("<a:graphicData uri=\"http://schemas.microsoft.com/office/word/2010/wordprocessingShape\">");
    s.append("<wps:wsp><wps:cNvSpPr txBox=\"1\"/><wps:spPr>");
    s.append("<a:xfrm><a:off x=\"0\" y=\"0\"/><a:ext cx=\"");
    push_decimal(&mut s, BOX_WIDTH);
    s.append("\" cy=\"");
    push_decimal(&mut s, BOX_HEIGHT);
    s.append("\"/></a:xfrm>");
    s.append("<a:prstGeom prst=\"rect\"><a:avLst/></a:prstGeom><a:noFill/><a:ln><a:noFill/></a:ln></wps:spPr>");
    s.append("<wps:txbx><w:txbxContent>");
    s.append(inner_paragraph_xml);
    s.append("</w:txbxContent></wps:txbx>");
    s.append("<wps:bodyPr rot=\"0\" spcFirstLastPara=\"0\" vertOverflow=\"visible\" horzOverflow=\"visible\"");
    s.append(" vert=\"vert270\" wrap=\"square\" lIns=\"91440\" tIns=\"45720\" rIns=\"91440\" bIns=\"45720\"");
    s.append(" numCol=\"1\" spcCol=\"0\" rtlCol=\"0\" fromWordArt=\"0\" anchor=\"ctr\" anchorCtr=\"0\"");
    s.append(" forceAA=\"0\" compatLnSpc=\"1\"/>");
    s.append("</wps:wsp></a:graphicData></a:graphic></wp:anchor></w:drawing></mc:Choice><mc:Fallback>");
    s.append("<w:pict xmlns:v=\"urn:schemas-microsoft-com:vml\" xmlns:w10=\"urn:schemas-microsoft-com:office:word\">");
    s.append("<v:rect id=\"_x0000_s1026\" style=\"position:absolute;margin-left:");
    push_points(&mut s, BOX_X);
    s.append("pt;margin-top:");
    push_points(&mut s, BOX_Y);
    s.append("pt;width:");
    push_points(&mut s, BOX_WIDTH);
    s.append("pt;height:");
    push_points(&mut s, BOX_HEIGHT);
    s.append(
        "pt;z-index:251659264;mso-position-horizontal-relative:page;mso-position-vertical-relative:page\" stroked=\"f\" filled=\"f\">",
    );
    s.append(
        "<v:textbox style=\"layout-flow:vertical;mso-layout-flow-alt:bottom-to-top\" inset=\"7.2pt,3.6pt,7.2pt,3.6pt\">",
    );
    s.append("<w:txbxContent>");
    s.append(inner_paragraph_xml);
    s.append("</w:txbxContent>");
    s.append("</v:textbox></v:rect></w:pict></mc:Fallback></mc:AlternateContent>");
    s
}

/// The footer's page-number setting, trimmed and lower-cased.
pub open spec fn page_number_key(doc: DocumentView) -> Option<Seq<char>> {
    match doc.header_footer {
        Some(h) => match h.page_number {
            Some(p) => Some(key(p)),
            None => None,
        },
        None => None,
    }
}

/// The footer part a plan asks for: a centred PAGE field for
/// `continuous` or `center-page-number`, a vertical text box at the
/// binding edge for `left-vertical`, else none.
pub open spec fn footer_part_of(doc: DocumentView) -> Option<Seq<char>> {
    let v = page_number_key(doc);
    if v == Some("continuous"@) || v == Some("center-page-number"@) {
        Some(
            XML_DECL@ + "<w:ftr xmlns:w=\""@ + W_NS@ + "\"><w:p><w:pPr><w:jc w:val=\"center\"/></w:pPr>"@ + page_field(
                hf_run(doc),
            ) + "</w:p></w:ftr>"@,
        )
    } else if v == Some("left-vertical"@) {
        let inner = "<w:p xmlns:w=\""@ + W_NS@ + "\"><w:pPr><w:jc w:val=\"center\"/></w:pPr>"@ + page_field(
            hf_run(doc),
        ) + "</w:p>"@;
        Some(
            XML_DECL@ + "<w:ftr xmlns:w=\""@ + W_NS@
                + "\"><w:p><w:pPr><w:spacing w:before=\"0\" w:after=\"0\" w:line=\"240\" w:lineRule=\"auto\"/></w:pPr><w:r>"@
                + textbox_xml(inner) + "</w:r></w:p></w:ftr>"@,
        )
    } else {
        None
    }
}

/// `footer_part`.
pub fn footer_part(doc: &PlanDocument) -> (r: Option<String>)
    ensures
        opt_text(r) == footer_part_of(doc@),
{
    let v = match &doc.header_footer {
        Some(h) => match &h.page_number {
            Some(p) => Some(trim_lower(p.as_str())),
            None => None,
        },
        None => None,
    };
    assert(opt_text(v) == page_number_key(doc@));
    let rpr = run_properties(None, doc, None, false);
    match v {
        Some(k) => {
            let k = k.as_str();
            if str_eq(k, "continuous") || str_eq(k, "center-page-number") {
                let mut s = String::from_str(XML_DECL);
                s.append("<w:ftr xmlns:w=\"");
                s.append(W_NS);
                s.append("\"><w:p><w:pPr><w:jc w:val=\"center\"/></w:pPr>");
                push_page_field(&mut s, rpr.as_str());
                s.append("</w:p></w:ftr>");
                Some(s)
            } else if str_eq(k, "left-vertical") {
                let mut inner = String::from_str("<w:p xmlns:w=\"");
                inner.append(W_NS);
                inner.append("\"><w:pPr><w:jc w:val=\"center\"/></w:pPr>");
                push_page_field(&mut inner, rpr.as_str());
                inner.append("</w:p>");
                let textbox = build_vertical_pagenum_textbox(inner.as_str());
                let mut s = String::from_str(XML_DECL);
                s.append("<w:ftr xmlns:w=\"");
                s.append(W_NS);
                s.append(
                    "\"><w:p><w:pPr><w:spacing w:before=\"0\" w:after=\"0\" w:line=\"240\" w:lineRule=\"auto\"/></w:pPr><w:r>",
                );
                s.append(textbox.as_str());
                s.append("</w:r></w:p></w:ftr>");
                Some(s)
            } else {
                None
            }
        },
        None => None,
    }
}

// ---------------------------------------------------------------------
// The header and footer parts of a plan.
// ---------------------------------------------------------------------
/// One header or footer part required by the plan.
pub struct HfPart {
    pub kind: HfKind,
    pub slot: HfType,
    pub xml: String,
}

pub struct HfPartView {
    pub kind: HfKind,
    pub slot: HfType,
    pub xml: Seq<char>,
}

impl View for HfPart {
    type V = HfPartView;

    open spec fn view(&self) -> HfPartView {
        HfPartView { kind: self.kind, slot: self.slot, xml: self.xml@ }
    }
}

pub open spec fn hf_parts_view(v: Seq<HfPart>) -> Seq<HfPartView> {
    v.map_values(|p: HfPart| p@)
}

/// A thesis setting that is present and not blank, else the default.
pub open spec fn thesis_text(o: Option<Seq<char>>, def: Seq<char>) -> Seq<char> {
    match o {
        Some(t) => if trimmed(t).len() > 0 {
            t
        } else {
            def
        },
        None => def,
    }
}

/// The thesis preset's parts: the university on odd pages and the title
/// on even pages, a page-number footer on both.
pub open spec fn thesis_parts_of(doc: DocumentView) -> Seq<HfPartView> {
    let uni = thesis_text(doc.thesis_university, "XXX大学"@);
    let title = thesis_text(doc.thesis_title, "论文标题"@);
    seq![
        HfPartView { kind: HfKind::Header, slot: HfType::Default, xml: header_xml(doc, uni + "毕业论文"@) },
        HfPartView { kind: HfKind::Header, slot: HfType::Even, xml: header_xml(doc, title) },
        HfPartView { kind: HfKind::Footer, slot: HfType::Default, xml: page_footer_xml(doc) },
        HfPartView { kind: HfKind::Footer, slot: HfType::Even, xml: page_footer_xml(doc) },
    ]
}

/// Whether the document asks for distinct odd and even pages
/// (`headerFooter.oddEven`).
pub open spec fn odd_even(doc: DocumentView) -> bool {
    doc.header_footer matches Some(h) && h.odd_even
}

/// The parts of a plan: the thesis preset's, else the footer when one is
/// asked for (for odd pages and, under `oddEven`, the same for even
/// pages), else none.
pub open spec fn hf_parts_of(doc: DocumentView) -> Seq<HfPartView> {
    if spec_is_thesis(doc) {
        thesis_parts_of(doc)
    } else {
        match footer_part_of(doc) {
            Some(x) => if odd_even(doc) {
                seq![
                    HfPartView { kind: HfKind::Footer, slot: HfType::Default, xml: x },
                    HfPartView { kind: HfKind::Footer, slot: HfType::Even, xml: x },
                ]
            } else {
                seq![HfPartView { kind: HfKind::Footer, slot: HfType::Default, xml: x }]
            },
            None => Seq::empty(),
        }
    }
}

fn thesis_setting<'a>(o: &'a Option<String>, def: &'a str) -> (r: &'a str)
    ensures
        r@ == thesis_text(crate::plan::ov(*o), def@),
{
    match o {
        Some(t) => {
            let trimmed_text = trim_string(t.as_str());
            if trimmed_text.as_str().is_empty() {
                def
            } else {
                t.as_str()
            }
        },
        None => def,
    }
}

/// `thesis_hf_parts`.
pub fn thesis_hf_parts(doc: &PlanDocument) -> (r: Vec<HfPart>)
    ensures
        hf_parts_view(r@) == thesis_parts_of(doc@),
{
    let uni = thesis_setting(&doc.thesis_university, "XXX大学");
    let title = thesis_setting(&doc.thesis_title, "论文标题");
    let mut heading = String::from_str(uni);
    heading.append("毕业论文");
    let mut v: Vec<HfPart> = Vec::new();
    v.push(HfPart { kind: HfKind::Header, slot: HfType::Default, xml: build_header_xml(doc, heading.as_str()) });
    v.push(HfPart { kind: HfKind::Header, slot: HfType::Even, xml: build_header_xml(doc, title) });
    v.push(HfPart { kind: HfKind::Footer, slot: HfType::Default, xml: build_page_number_footer_xml(doc) });
    v.push(HfPart { kind: HfKind::Footer, slot: HfType::Even, xml: build_page_number_footer_xml(doc) });
    assert(hf_parts_view(v@) =~= thesis_parts_of(doc@));
    v
}

/// `collect_hf_parts`.
pub fn collect_hf_parts(doc: &PlanDocument) -> (r: Vec<HfPart>)
    ensures
        hf_parts_view(r@) == hf_parts_of(doc@),
{
    if is_undergraduate_thesis(doc) {
        return thesis_hf_parts(doc);
    }
    match footer_part(doc) {
        Some(xml) => {
            let both = match &doc.header_footer {
                Some(h) => h.odd_even,
                None => false,
            };
            let mut v: Vec<HfPart> = Vec::new();
            if both {
                let even = xml.clone();
                v.push(HfPart { kind: HfKind::Footer, slot: HfType::Default, xml });
                v.push(HfPart { kind: HfKind::Footer, slot: HfType::Even, xml: even });
            } else {
                v.push(HfPart { kind: HfKind::Footer, slot: HfType::Default, xml });
            }
            assert(hf_parts_view(v@) =~= hf_parts_of(doc@));
            v
        },
        None => {
            let v: Vec<HfPart> = Vec::new();
            assert(hf_parts_view(v@) =~= hf_parts_of(doc@));
            v
        },
    }
}

/// `read_template_styles`: `word/styles.xml` of a template archive, if
/// it can be read.
pub fn read_template_styles(archive: &[u8]) -> (r: Option<String>)
    ensures
        opt_text(r) == zip_entry_text(archive@, "word/styles.xml"@),
{
    read_zip_entry(archive, "word/styles.xml")
}

} // verus!
