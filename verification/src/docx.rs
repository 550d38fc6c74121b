//! The OOXML writer: paragraph, run and section properties, headers and
//! footers, tables, images, equations, reference normalization, and the
//! package parts of a .docx.

use vstd::prelude::*;
use crate::plan::{
    FormatPlan, DocumentView,
    };
use crate::text::{lower_seq, trimmed, trim_lower, str_eq, decimal, push_decimal};
use crate::plan::PlanView;
use crate::archive::{ZipEntry, EntryView, Compression, zip_archive, zip_error_message, entries_view, zip_entry_text, contents, reads_back};
use crate::analyze::{SourceBlock, SourceBlockView};
use crate::body::{render_document, document_spec, ImageFile, ImageFileView, images_view, source_opt};
use crate::parts::{
    Package, PackageView, HfPartView, hf_parts_of, hf_parts_view, collect_hf_parts, settings_xml, build_settings_xml,
    read_template_styles, content_types, content_types_xml, document_rels, document_rels_xml, ROOT_RELS,
};
use crate::presets::{spec_is_thesis, is_undergraduate_thesis, apply_undergraduate_thesis, plan_with_preset};
use crate::props::{HfKind, HfType, HfRefs, HfSlots};
use crate::refs::{RefNormalize, collected, FIRST_BOOKMARK_ID};

verus! {

pub const W_NS: &'static str = "http://schemas.openxmlformats.org/wordprocessingml/2006/main";

pub const R_NS: &'static str = "http://schemas.openxmlformats.org/officeDocument/2006/relationships";

pub const WP_NS: &'static str = "http://schemas.openxmlformats.org/drawingml/2006/wordprocessingDrawing";

pub const A_NS: &'static str = "http://schemas.openxmlformats.org/drawingml/2006/main";

pub const PIC_NS: &'static str = "http://schemas.openxmlformats.org/drawingml/2006/picture";

pub const M_NS: &'static str = "http://schemas.openxmlformats.org/officeDocument/2006/math";

pub const XML_DECL: &'static str = "<?xml version=\"1.0\" encoding=\"UTF-8\" standalone=\"yes\"?>\n";

pub open spec fn osv(o: Option<&str>) -> Option<Seq<char>> {
    match o {
        Some(s) => Some(s@),
        None => None,
    }
}

/// The key a mapping table is looked up by: trimmed, ASCII lower case.
pub open spec fn key(v: Seq<char>) -> Seq<char> {
    lower_seq(trimmed(v))
}

// ---------------------------------------------------------------------
// Value mappings.
// ---------------------------------------------------------------------
pub open spec fn align_of(v: Seq<char>) -> Option<Seq<char>> {
    let k = key(v);
    if k == "center"@ {
        Some("center"@)
    } else if k == "right"@ {
        Some("right"@)
    } else if k == "both"@ || k == "justify"@ {
        Some("both"@)
    } else if k == "distribute"@ {
        Some("distribute"@)
    } else if k == "left"@ {
        Some("left"@)
    } else {
        None
    }
}

/// `map_align`: paragraph alignment (`w:jc`).
pub fn map_align(v: &str) -> (r: Option<&'static str>)
    ensures
        osv(r) == align_of(v@),
{
    let k = trim_lower(v);
    let k = k.as_str();
    if str_eq(k, "center") {
        Some("center")
    } else if str_eq(k, "right") {
        Some("right")
    } else if str_eq(k, "both") || str_eq(k, "justify") {
        Some("both")
    } else if str_eq(k, "distribute") {
        Some("distribute")
    } else if str_eq(k, "left") {
        Some("left")
    } else {
        None
    }
}

pub open spec fn underline_of(v: Seq<char>) -> Option<Seq<char>> {
    let k = key(v);
    if k == "single"@ {
        Some("single"@)
    } else if k == "double"@ {
        Some("double"@)
    } else if k == "none"@ {
        Some("none"@)
    } else {
        None
    }
}

/// `map_underline`.
pub fn map_underline(v: &str) -> (r: Option<&'static str>)
    ensures
        osv(r) == underline_of(v@),
{
    let k = trim_lower(v);
    let k = k.as_str();
    if str_eq(k, "single") {
        Some("single")
    } else if str_eq(k, "double") {
        Some("double")
    } else if str_eq(k, "none") {
        Some("none")
    } else {
        None
    }
}

pub open spec fn vertical_align_of(v: Seq<char>) -> Option<Seq<char>> {
    let k = key(v);
    if k == "superscript"@ || k == "super"@ || k == "上标"@ {
        Some("superscript"@)
    } else if k == "subscript"@ || k == "sub"@ || k == "下标"@ {
        Some("subscript"@)
    } else if k == "baseline"@ || k == "normal"@ || k == "基线"@ {
        Some("baseline"@)
    } else {
        None
    }
}

/// `map_vertical_align`.
pub fn map_vertical_align(v: &str) -> (r: Option<&'static str>)
    ensures
        osv(r) == vertical_align_of(v@),
{
    let k = trim_lower(v);
    let k = k.as_str();
    if str_eq(k, "superscript") || str_eq(k, "super") || str_eq(k, "上标") {
        Some("superscript")
    } else if str_eq(k, "subscript") || str_eq(k, "sub") || str_eq(k, "下标") {
        Some("subscript")
    } else if str_eq(k, "baseline") || str_eq(k, "normal") || str_eq(k, "基线") {
        Some("baseline")
    } else {
        None
    }
}

pub open spec fn section_type_of(v: Seq<char>) -> Option<Seq<char>> {
    let k = key(v);
    if k == "continuous"@ {
        Some("continuous"@)
    } else if k == "evenpage"@ {
        Some("evenPage"@)
    } else if k == "oddpage"@ {
        Some("oddPage"@)
    } else if k == "nextcolumn"@ {
        Some("nextColumn"@)
    } else if k == "nextpage"@ {
        Some("nextPage"@)
    } else {
        None
    }
}

/// `map_section_type`.
pub fn map_section_type(v: &str) -> (r: Option<&'static str>)
    ensures
        osv(r) == section_type_of(v@),
{
    let k = trim_lower(v);
    let k = k.as_str();
    if str_eq(k, "continuous") {
        Some("continuous")
    } else if str_eq(k, "evenpage") {
        Some("evenPage")
    } else if str_eq(k, "oddpage") {
        Some("oddPage")
    } else if str_eq(k, "nextcolumn") {
        Some("nextColumn")
    } else if str_eq(k, "nextpage") {
        Some("nextPage")
    } else {
        None
    }
}

pub open spec fn line_rule_of(v: Seq<char>) -> Option<Seq<char>> {
    let k = key(v);
    if k == "auto"@ {
        Some("auto"@)
    } else if k == "exact"@ {
        Some("exact"@)
    } else if k == "atleast"@ || k == "at-least"@ {
        Some("atLeast"@)
    } else {
        None
    }
}

/// `map_line_rule`.
pub fn map_line_rule(v: &str) -> (r: Option<&'static str>)
    ensures
        osv(r) == line_rule_of(v@),
{
    let k = trim_lower(v);
    let k = k.as_str();
    if str_eq(k, "auto") {
        Some("auto")
    } else if str_eq(k, "exact") {
        Some("exact")
    } else if str_eq(k, "atleast") || str_eq(k, "at-least") {
        Some("atLeast")
    } else {
        None
    }
}

pub open spec fn page_num_fmt_of(v: Seq<char>) -> Option<Seq<char>> {
    let k = key(v);
    if k == "decimal"@ {
        Some("decimal"@)
    } else if k == "upperroman"@ {
        Some("upperRoman"@)
    } else if k == "lowerroman"@ {
        Some("lowerRoman"@)
    } else {
        None
    }
}

/// `map_page_num_fmt`.
pub fn map_page_num_fmt(v: &str) -> (r: Option<&'static str>)
    ensures
        osv(r) == page_num_fmt_of(v@),
{
    let k = trim_lower(v);
    let k = k.as_str();
    if str_eq(k, "decimal") {
        Some("decimal")
    } else if str_eq(k, "upperroman") {
        Some("upperRoman")
    } else if str_eq(k, "lowerroman") {
        Some("lowerRoman")
    } else {
        None
    }
}

/// Page width and height in twips by paper name (A4 otherwise).
pub open spec fn page_size_of(size: Option<Seq<char>>) -> (Seq<char>, Seq<char>) {
    let k = match size {
        Some(s) => Some(key(s)),
        None => None,
    };
    if k == Some("letter"@) {
        ("12240"@, "15840"@)
    } else if k == Some("legal"@) {
        ("12240"@, "20160"@)
    } else if k == Some("a5"@) {
        ("8391"@, "11906"@)
    } else {
        ("11906"@, "16838"@)
    }
}

/// `page_size_twips`.
pub fn page_size_twips(size: Option<&str>) -> (r: (&'static str, &'static str))
    ensures
        (r.0@, r.1@) == page_size_of(osv(size)),
{
    match size {
        Some(s) => {
            let k = trim_lower(s);
            let k = k.as_str();
            if str_eq(k, "letter") {
                ("12240", "15840")
            } else if str_eq(k, "legal") {
                ("12240", "20160")
            } else if str_eq(k, "a5") {
                ("8391", "11906")
            } else {
                ("11906", "16838")
            }
        },
        None => ("11906", "16838"),
    }
}

/// Default run size (half-points) by heading level.
pub open spec fn fallback_size_of(level: Option<u8>) -> Seq<char> {
    if level == Some(1u8) {
        "36"@
    } else if level == Some(2u8) {
        "32"@
    } else if level == Some(3u8) {
        "28"@
    } else {
        "24"@
    }
}

/// `fallback_heading_size`.
pub fn fallback_heading_size(level: Option<u8>) -> (r: String)
    ensures
        r@ == fallback_size_of(level),
{
    match level {
        Some(1) => String::from_str("36"),
        Some(2) => String::from_str("32"),
        Some(3) => String::from_str("28"),
        _ => String::from_str("24"),
    }
}

// ---------------------------------------------------------------------
// Building a .docx.
// ---------------------------------------------------------------------
pub const HEADER_CONTENT_TYPE: &'static str = "application/vnd.openxmlformats-officedocument.wordprocessingml.header+xml";

pub const FOOTER_CONTENT_TYPE: &'static str = "application/vnd.openxmlformats-officedocument.wordprocessingml.footer+xml";

pub const SETTINGS_CONTENT_TYPE: &'static str = "application/vnd.openxmlformats-officedocument.wordprocessingml.settings+xml";

pub const STYLES_CONTENT_TYPE: &'static str = "application/vnd.openxmlformats-officedocument.wordprocessingml.styles+xml";

/// The UTF-8 bytes of a text.
pub open spec fn utf8(s: Seq<char>) -> Seq<u8> {
    vstd::utf8::encode_utf8(s)
}

fn bytes_of(s: &str) -> (r: Vec<u8>)
    ensures
        r@ == utf8(s@),
{
    s.as_bytes_vec()
}

/// The plan as written: with the thesis preset's defaults filled in when
/// it asks for that preset.
pub open spec fn prepared(plan: PlanView) -> PlanView {
    if spec_is_thesis(plan.document) {
        plan_with_preset(plan)
    } else {
        plan
    }
}

/// Whether references are normalized: as asked, else (when nothing is
/// asked) with the thesis preset.
pub open spec fn normalizing(plan: PlanView, normalize_refs: Option<bool>) -> bool {
    match normalize_refs {
        Some(on) => on,
        None => spec_is_thesis(plan.document),
    }
}

/// The bookmark ids in use: when references are normalized and some block
/// has a reference number.
pub open spec fn refs_in_use(
    plan: PlanView,
    source: Option<Seq<SourceBlockView>>,
    normalize_refs: Option<bool>,
) -> Option<Map<u32, u32>> {
    if normalizing(plan, normalize_refs) {
        let m = collected(prepared(plan).blocks, source).0;
        if m.is_empty() {
            None
        } else {
            Some(m)
        }
    } else {
        None
    }
}

pub open spec fn hf_content_type(k: HfKind) -> Seq<char> {
    match k {
        HfKind::Header => HEADER_CONTENT_TYPE@,
        HfKind::Footer => FOOTER_CONTENT_TYPE@,
    }
}

/// `header<n>.xml` / `footer<n>.xml`.
pub open spec fn hf_file_name(k: HfKind, n: nat) -> Seq<char> {
    k.spec_name() + decimal(n) + ".xml"@
}

/// The package after registering the header and footer parts in order
/// (each kind numbered from 1), the references for the section
/// properties, and how many headers and footers there are.
pub open spec fn hf_fold(parts: Seq<HfPartView>) -> (PackageView, HfSlots, nat, nat)
    decreases parts.len(),
{
    if parts.len() == 0 {
        (PackageView::empty(), HfSlots::empty(), 0, 0)
    } else {
        let (p, h, hs, fs) = hf_fold(parts.drop_last());
        let part = parts.last();
        let is_header = part.kind == HfKind::Header;
        let n = if is_header {
            hs + 1
        } else {
            fs + 1
        };
        let name = hf_file_name(part.kind, n);
        let rid = p.next_rid();
        let p2 = p.with_rel(R_NS@ + "/"@ + part.kind.spec_name(), name).with_override(
            "/word/"@ + name,
            hf_content_type(part.kind),
        ).with_part(EntryView { path: "word/"@ + name, bytes: utf8(part.xml), stored: false });
        (
            p2,
            h.set(part.kind, part.slot, rid),
            if is_header {
                hs + 1
            } else {
                hs
            },
            if is_header {
                fs
            } else {
                fs + 1
            },
        )
    }
}

/// Whether some part is for even or first pages.
pub open spec fn needs_even_odd(parts: Seq<HfPartView>) -> bool
    decreases parts.len(),
{
    if parts.len() == 0 {
        false
    } else {
        needs_even_odd(parts.drop_last()) || parts.last().slot != HfType::Default
    }
}

/// With even or first-page parts, `settings.xml` turning on distinct
/// even and odd headers.
pub open spec fn with_settings(p: PackageView, needs: bool) -> PackageView {
    if needs {
        p.with_rel(R_NS@ + "/settings"@, "settings.xml"@).with_override(
            "/word/settings.xml"@,
            SETTINGS_CONTENT_TYPE@,
        ).with_part(EntryView { path: "word/settings.xml"@, bytes: utf8(settings_xml(true)), stored: false })
    } else {
        p
    }
}

/// With a template whose `word/styles.xml` can be read, that part.
pub open spec fn with_styles(p: PackageView, template: Option<Seq<u8>>) -> PackageView {
    match template {
        Some(a) => match zip_entry_text(a, "word/styles.xml"@) {
            Some(x) => p.with_rel(R_NS@ + "/styles"@, "styles.xml"@).with_override(
                "/word/styles.xml"@,
                STYLES_CONTENT_TYPE@,
            ).with_part(EntryView { path: "word/styles.xml"@, bytes: utf8(x), stored: false }),
            None => p,
        },
        None => p,
    }
}

/// The archive entries of the .docx for a plan, in order: content types
/// and package relationships (stored), the main document (deflated), the
/// document's relationships when there are any (stored), then the other
/// parts as they were registered.
pub open spec fn package_spec(
    plan: PlanView,
    source: Option<Seq<SourceBlockView>>,
    normalize_refs: Option<bool>,
    template: Option<Seq<u8>>,
    images: Seq<ImageFileView>,
) -> Seq<EntryView> {
    let plan2 = prepared(plan);
    let (p3, hf) = base_spec(plan2.document, template);
    let (doc, p4) = document_spec(plan2, p3, hf, source, refs_in_use(plan, source, normalize_refs), images);
    seq![
        EntryView { path: "[Content_Types].xml"@, bytes: utf8(content_types_xml(p4)), stored: true },
        EntryView { path: "_rels/.rels"@, bytes: utf8(ROOT_RELS@), stored: true },
        EntryView { path: "word/document.xml"@, bytes: utf8(doc), stored: false },
    ] + (if p4.rels.len() > 0 {
        seq![EntryView { path: "word/_rels/document.xml.rels"@, bytes: utf8(document_rels_xml(p4)), stored: true }]
    } else {
        Seq::empty()
    }) + p4.parts
}

fn register_hf_parts(parts: &Vec<crate::parts::HfPart>) -> (r: (Package, HfRefs, bool))
    requires
        parts@.len() <= 4,
    ensures
        r.0.wf(),
        (r.0@, r.1@) == ((hf_fold(hf_parts_view(parts@)).0, hf_fold(hf_parts_view(parts@)).1)),
        r.2 == needs_even_odd(hf_parts_view(parts@)),
        r.0@.rels.len() <= 4,
        r.0@.img_seq == 0,
{
    let ghost pv = hf_parts_view(parts@);
    let mut pkg = Package::new();
    let mut hf_refs = HfRefs::new();
    let mut header_seq: u32 = 0;
    let mut footer_seq: u32 = 0;
    let mut needs = false;
    let mut k: usize = 0;
    assert(pv.take(0) =~= Seq::<HfPartView>::empty());
    while k < parts.len()
        invariant
            k <= parts@.len() <= 4,
            pv == hf_parts_view(parts@),
            pkg.wf(),
            (pkg@, hf_refs@, header_seq as nat, footer_seq as nat) == hf_fold(pv.take(k as int)),
            needs == needs_even_odd(pv.take(k as int)),
            pkg@.rels.len() == k,
            header_seq <= k,
            footer_seq <= k,
            pkg@.img_seq == 0,
        decreases parts.len() - k,
    {
        let ghost before = pv.take(k as int);
        assert(pv.take(k + 1).drop_last() =~= before);
        assert(pv.take(k + 1).last() == parts@[k as int]@);
        let hf = &parts[k];
        let mut filename = String::from_str(hf.kind.name());
        let content_type = match hf.kind {
            HfKind::Header => {
                header_seq = header_seq + 1;
                push_decimal(&mut filename, header_seq as u64);
                HEADER_CONTENT_TYPE
            },
            HfKind::Footer => {
                footer_seq = footer_seq + 1;
                push_decimal(&mut filename, footer_seq as u64);
                FOOTER_CONTENT_TYPE
            },
        };
        filename.append(".xml");
        let mut rel_type = String::from_str(R_NS);
        rel_type.append("/");
        rel_type.append(hf.kind.name());
        let rid = pkg.add_rel(rel_type.as_str(), filename.as_str());
        let mut part_name = String::from_str("/word/");
        part_name.append(filename.as_str());
        pkg.add_override(part_name, content_type);
        let mut path = String::from_str("word/");
        path.append(filename.as_str());
        pkg.add_part(ZipEntry { path, bytes: bytes_of(hf.xml.as_str()), compression: Compression::Deflated });
        hf_refs.insert(hf.kind, hf.slot, rid);
        match hf.slot {
            HfType::Default => {},
            _ => {
                needs = true;
            },
        }
        k += 1;
    }
    assert(pv.take(parts@.len() as int) =~= pv);
    (pkg, hf_refs, needs)
}

/// The package before the body is rendered: header and footer parts,
/// settings, template styles.
pub open spec fn base_spec(doc: DocumentView, template: Option<Seq<u8>>) -> (PackageView, HfSlots) {
    let parts = hf_parts_of(doc);
    let (p1, hf, _hs, _fs) = hf_fold(parts);
    (with_styles(with_settings(p1, needs_even_odd(parts)), template), hf)
}

fn base_package(plan: &FormatPlan, template: Option<&[u8]>) -> (r: (Package, HfRefs))
    ensures
        r.0.wf(),
        (r.0@, r.1@) == base_spec(
            plan@.document,
            match template {
                Some(t) => Some(t@),
                None => None,
            },
        ),
        r.0@.rels.len() <= 6,
        r.0@.img_seq == 0,
{
    let hf_parts = collect_hf_parts(&plan.document);
    assert(hf_parts_view(hf_parts@).len() <= 4);
    let (mut pkg, hf_refs, needs) = register_hf_parts(&hf_parts);
    if needs {
        let mut rel_type = String::from_str(R_NS);
        rel_type.append("/settings");
        let _ = pkg.add_rel(rel_type.as_str(), "settings.xml");
        pkg.add_override(String::from_str("/word/settings.xml"), SETTINGS_CONTENT_TYPE);
        let settings = build_settings_xml(needs);
        pkg.add_part(
            ZipEntry {
                path: String::from_str("word/settings.xml"),
                bytes: bytes_of(settings.as_str()),
                compression: Compression::Deflated,
            },
        );
    }
    match template {
        Some(tpl) => match read_template_styles(tpl) {
            Some(styles_xml) => {
                let mut rel_type = String::from_str(R_NS);
                rel_type.append("/styles");
                let _ = pkg.add_rel(rel_type.as_str(), "styles.xml");
                pkg.add_override(String::from_str("/word/styles.xml"), STYLES_CONTENT_TYPE);
                pkg.add_part(
                    ZipEntry {
                        path: String::from_str("word/styles.xml"),
                        bytes: bytes_of(styles_xml.as_str()),
                        compression: Compression::Deflated,
                    },
                );
            },
            None => {},
        },
        None => {},
    }
    (pkg, hf_refs)
}

/// `build`, up to the archive: the entries of the .docx for `plan`.
/// `source` holds the blocks of a source document that plan blocks may
/// refer to; `normalize_refs` is `Some` when normalization was asked for
/// or refused, `None` to leave it to the thesis preset; `template` holds
/// the bytes of a template .docx (its styles are copied); `images` the
/// image files the plan names.
pub fn package_entries(
    plan: &FormatPlan,
    source: Option<&Vec<SourceBlock>>,
    normalize_refs: Option<bool>,
    template: Option<&[u8]>,
    images: &Vec<ImageFile>,
) -> (r: Vec<ZipEntry>)
    requires
        plan.blocks@.len() + FIRST_BOOKMARK_ID <= u32::MAX,
    ensures
        entries_view(r@) == package_spec(
            plan@,
            source_opt(source),
            normalize_refs,
            match template {
                Some(t) => Some(t@),
                None => None,
            },
            images_view(images@),
        ),
{
    let mut plan = plan.duplicate();
    let ghost given = plan@;
    let preset_enabled = is_undergraduate_thesis(&plan.document);
    if preset_enabled {
        apply_undergraduate_thesis(&mut plan);
    }
    assert(plan@ == prepared(given));
    let normalize = match normalize_refs {
        Some(on) => on,
        None => preset_enabled,
    };
    proof {
        crate::refs::lemma_collected_count(plan@.blocks, source_opt(source));
    }
    let rn_owned: Option<RefNormalize> = if normalize {
        let r = RefNormalize::collect(&plan, source);
        if r.is_active() {
            Some(r)
        } else {
            None
        }
    } else {
        None
    };
    let rn: Option<&RefNormalize> = match &rn_owned {
        Some(r) => Some(r),
        None => None,
    };
    let (mut pkg, hf_refs) = base_package(&plan, template);
    let document_xml = render_document(&plan, &mut pkg, &hf_refs, source, rn, images);
    let mut entries: Vec<ZipEntry> = Vec::new();
    let ct = content_types(&pkg);
    entries.push(
        ZipEntry { path: String::from_str("[Content_Types].xml"), bytes: bytes_of(ct.as_str()), compression: Compression::Stored },
    );
    entries.push(
        ZipEntry { path: String::from_str("_rels/.rels"), bytes: bytes_of(ROOT_RELS), compression: Compression::Stored },
    );
    entries.push(
        ZipEntry {
            path: String::from_str("word/document.xml"),
            bytes: bytes_of(document_xml.as_str()),
            compression: Compression::Deflated,
        },
    );
    if pkg.has_rels() {
        let rels = document_rels(&pkg);
        entries.push(
            ZipEntry {
                path: String::from_str("word/_rels/document.xml.rels"),
                bytes: bytes_of(rels.as_str()),
                compression: Compression::Stored,
            },
        );
    }
    let ghost head = entries@;
    let mut parts = pkg.into_parts();
    let ghost tail = parts@;
    entries.append(&mut parts);
    assert(entries_view(entries@) =~= entries_view(head) + entries_view(tail));
    entries
}

/// Why a .docx could not be built.
pub enum BuildError {
    /// Writing the ZIP archive failed; the `zip` crate's message.
    Archive(String),
}

impl BuildError {
    pub fn message(&self) -> (r: String)
        ensures
            r@ == match self {
                BuildError::Archive(m) => m@,
            },
    {
        match self {
            BuildError::Archive(m) => m.clone(),
        }
    }
}

/// `build`: the bytes of the .docx for `plan`, written as a ZIP archive
/// that reads back as the entries of `package_entries`. The bytes
/// themselves depend on the time of writing (entry timestamps), and the
/// `zip` crate may fail for reasons of its own, with its message.
pub fn build(
    plan: &FormatPlan,
    source: Option<&Vec<SourceBlock>>,
    normalize_refs: Option<bool>,
    template: Option<&[u8]>,
    images: &Vec<ImageFile>,
) -> (r: Result<Vec<u8>, BuildError>)
    requires
        plan.blocks@.len() + FIRST_BOOKMARK_ID <= u32::MAX,
    ensures
        match r {
            Ok(b) => reads_back(
                b@,
                contents(
                    package_spec(
                        plan@,
                        source_opt(source),
                        normalize_refs,
                        match template {
                            Some(t) => Some(t@),
                            None => None,
                        },
                        images_view(images@),
                    ),
                ),
            ),
            Err(_) => true,
        },
{
    let entries = package_entries(plan, source, normalize_refs, template, images);
    match zip_archive(&entries) {
        Ok(bytes) => Ok(bytes),
        Err(e) => Err(BuildError::Archive(zip_error_message(&e))),
    }
}

} // verus!
