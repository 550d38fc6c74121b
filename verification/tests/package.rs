use docx_engine::analyze::{analyze, source_blocks, SourceBlock, SourceRun};
use docx_engine::archive::{zip_archive, Compression, ZipEntry};
use docx_engine::body::ImageFile;
use docx_engine::docx::{build, package_entries};
use docx_engine::parts::read_template_styles;
use docx_engine::plan::{FormatPlan, PlanBlock, PlanDocument, PlanImage, PlanSection, PlanTable};

const DECL: &str = "<?xml version=\"1.0\" encoding=\"UTF-8\" standalone=\"yes\"?>\n";
const FONTS: &str =
    "<w:rFonts w:ascii=\"Times New Roman\" w:hAnsi=\"Times New Roman\" w:eastAsia=\"宋体\" w:cs=\"宋体\"/>";

fn doc() -> PlanDocument {
    PlanDocument {
        title: None,
        author: None,
        page_size: None,
        orientation: None,
        margins: None,
        cn_font: None,
        en_font: None,
        base_font_half_points: None,
        line_spacing_twips: None,
        header_footer: None,
        preset: None,
        thesis_university: None,
        thesis_title: None,
    }
}

fn block(role: &str, text: &str) -> PlanBlock {
    PlanBlock {
        source_ref: None,
        role: role.to_string(),
        section_key: None,
        text: Some(text.to_string()),
        caption: None,
        format: None,
        table: None,
        image: None,
        equation: None,
    }
}

fn plan(blocks: Vec<PlanBlock>) -> FormatPlan {
    FormatPlan { doc_type: None, document: doc(), sections: Vec::new(), blocks }
}

fn text_of(e: &ZipEntry) -> String {
    String::from_utf8(e.bytes.clone()).unwrap()
}

fn entry<'a>(entries: &'a [ZipEntry], path: &str) -> &'a ZipEntry {
    entries.iter().find(|e| e.path == path).unwrap()
}

fn paths(entries: &[ZipEntry]) -> Vec<String> {
    entries.iter().map(|e| e.path.clone()).collect()
}

const SECT: &str = "<w:sectPr><w:pgSz w:w=\"11906\" w:h=\"16838\"/><w:pgMar w:top=\"1440\" w:bottom=\"1440\" w:left=\"1800\" w:right=\"1800\" w:header=\"720\" w:footer=\"720\" w:gutter=\"0\"/></w:sectPr>";

#[test]
fn plain_plan_gives_three_entries() {
    let p = plan(vec![block("", "Hello")]);
    let entries = package_entries(&p, None, None, None, &Vec::new());
    assert_eq!(paths(&entries), vec!["[Content_Types].xml", "_rels/.rels", "word/document.xml"]);
    assert!(matches!(entries[0].compression, Compression::Stored));
    assert!(matches!(entries[2].compression, Compression::Deflated));
    let expected = format!(
        "{DECL}<w:document xmlns:w=\"http://schemas.openxmlformats.org/wordprocessingml/2006/main\" xmlns:r=\"http://schemas.openxmlformats.org/officeDocument/2006/relationships\" xmlns:wp=\"http://schemas.openxmlformats.org/drawingml/2006/wordprocessingDrawing\" xmlns:a=\"http://schemas.openxmlformats.org/drawingml/2006/main\" xmlns:pic=\"http://schemas.openxmlformats.org/drawingml/2006/picture\" xmlns:m=\"http://schemas.openxmlformats.org/officeDocument/2006/math\"><w:body><w:p><w:r><w:rPr>{FONTS}<w:sz w:val=\"24\"/><w:szCs w:val=\"24\"/></w:rPr><w:t xml:space=\"preserve\">Hello</w:t></w:r></w:p>{SECT}</w:body></w:document>"
    );
    assert_eq!(text_of(&entries[2]), expected);
    assert!(text_of(&entries[1]).contains("Target=\"word/document.xml\""));
}

#[test]
fn empty_plan_has_one_empty_section() {
    let entries = package_entries(&plan(Vec::new()), None, None, None, &Vec::new());
    assert!(text_of(&entries[2]).ends_with(&format!("<w:body>{SECT}</w:body></w:document>")));
}

#[test]
fn thesis_preset_adds_headers_footers_settings_and_references() {
    let mut p = plan(vec![block("reference", "[1] Smith"), block("", "见^{[1]}")]);
    p.document.preset = Some(" Undergraduate-Thesis".to_string());
    p.document.thesis_university = Some("清华大学".to_string());
    let entries = package_entries(&p, None, None, None, &Vec::new());
    assert_eq!(
        paths(&entries),
        vec![
            "[Content_Types].xml",
            "_rels/.rels",
            "word/document.xml",
            "word/_rels/document.xml.rels",
            "word/header1.xml",
            "word/header2.xml",
            "word/footer1.xml",
            "word/footer2.xml",
            "word/settings.xml",
        ]
    );
    let rels = text_of(&entries[3]);
    assert!(rels.contains("<Relationship Id=\"rId1\" Type=\"http://schemas.openxmlformats.org/officeDocument/2006/relationships/header\" Target=\"header1.xml\"/>"));
    assert!(rels.contains("<Relationship Id=\"rId4\" Type=\"http://schemas.openxmlformats.org/officeDocument/2006/relationships/footer\" Target=\"footer2.xml\"/>"));
    assert!(rels.contains("<Relationship Id=\"rId5\" Type=\"http://schemas.openxmlformats.org/officeDocument/2006/relationships/settings\" Target=\"settings.xml\"/>"));
    assert!(text_of(&entries[4]).contains(">清华大学毕业论文</w:t>"));
    assert!(text_of(&entries[5]).contains(">论文标题</w:t>"));
    assert!(text_of(&entries[6]).contains("<w:t xml:space=\"preserve\">第 </w:t>"));
    assert!(text_of(&entries[8]).contains("<w:evenAndOddHeaders/>"));
    let ct = text_of(&entries[0]);
    assert!(ct.contains("<Override PartName=\"/word/header2.xml\" ContentType=\"application/vnd.openxmlformats-officedocument.wordprocessingml.header+xml\"/>"));
    let d = text_of(&entries[2]);
    assert!(d.contains("<w:headerReference w:type=\"default\" r:id=\"rId1\"/><w:headerReference w:type=\"even\" r:id=\"rId2\"/><w:footerReference w:type=\"default\" r:id=\"rId3\"/><w:footerReference w:type=\"even\" r:id=\"rId4\"/>"));
    assert!(d.contains("<w:bookmarkStart w:id=\"1000\" w:name=\"_Ref_ref_1\"/>"));
    assert!(d.contains(" REF _Ref_ref_1 \\h "));
}

#[test]
fn normalization_is_off_unless_asked_for() {
    let p = plan(vec![block("reference", "[1] Smith"), block("", "见^{[1]}")]);
    let off = package_entries(&p, None, None, None, &Vec::new());
    assert!(!text_of(&off[2]).contains("bookmarkStart"));
    let on = package_entries(&p, None, Some(true), None, &Vec::new());
    assert!(text_of(&on[2]).contains("bookmarkStart"));
    let refused = package_entries(&p, None, Some(false), None, &Vec::new());
    assert!(!text_of(&refused[2]).contains("bookmarkStart"));
}

#[test]
fn thesis_preset_normalizes_unless_refused() {
    let mut p = plan(vec![block("reference", "[1] Smith")]);
    p.document.preset = Some("undergraduate-thesis".to_string());
    assert!(text_of(&package_entries(&p, None, None, None, &Vec::new())[2]).contains("bookmarkStart"));
    assert!(!text_of(&package_entries(&p, None, Some(false), None, &Vec::new())[2]).contains("bookmarkStart"));
}

#[test]
fn figure_registers_media_part_relationship_and_default() {
    let mut b = block("figure", "");
    b.text = None;
    b.caption = Some("图1 示意".to_string());
    b.image = Some(PlanImage {
        path: Some("img/a.jpg".to_string()),
        content_type: None,
        width_emu: Some(100),
        height_emu: None,
        alt_text: None,
    });
    let p = plan(vec![b]);
    let images = vec![ImageFile::open("img/a.jpg".to_string(), Some(vec![9, 8, 7]))];
    let entries = package_entries(&p, None, None, None, &images);
    assert_eq!(
        paths(&entries),
        vec!["[Content_Types].xml", "_rels/.rels", "word/document.xml", "word/_rels/document.xml.rels", "word/media/image1.jpeg"]
    );
    let media = entry(&entries, "word/media/image1.jpeg");
    assert_eq!(media.bytes, vec![9, 8, 7]);
    assert!(matches!(media.compression, Compression::Stored));
    assert!(text_of(&entries[0]).contains("<Default Extension=\"jpeg\" ContentType=\"image/jpeg\"/><Override PartName=\"/word/document.xml\""));
    assert!(text_of(&entries[3]).contains("<Relationship Id=\"rId1\" Type=\"http://schemas.openxmlformats.org/officeDocument/2006/relationships/image\" Target=\"media/image1.jpeg\"/>"));
    let d = text_of(&entries[2]);
    assert!(d.contains("<wp:extent cx=\"100\" cy=\"3000000\"/>"));
    assert!(d.contains("<wp:docPr id=\"1\" name=\"a.jpg\" descr=\"a.jpg\"/>"));
    assert!(d.contains("<a:blip r:embed=\"rId1\"/>"));
    let pic = d.find("<w:drawing>").unwrap();
    let cap = d.find(">图1 示意</w:t>").unwrap();
    assert!(pic < cap);
}

#[test]
fn unreadable_image_keeps_only_the_caption() {
    let mut b = block("figure", "");
    b.caption = Some("图2".to_string());
    b.image = Some(PlanImage { path: Some("gone.png".to_string()), content_type: None, width_emu: None, height_emu: None, alt_text: None });
    let images = vec![ImageFile::open("gone.png".to_string(), None)];
    let entries = package_entries(&plan(vec![b]), None, None, None, &images);
    assert_eq!(entries.len(), 3);
    let d = text_of(&entries[2]);
    assert!(!d.contains("<w:drawing>"));
    assert!(d.contains(">图2</w:t>"));
}

#[test]
fn table_caption_goes_above_the_table() {
    let mut b = block("table", "");
    b.caption = Some("表1".to_string());
    b.table = Some(PlanTable { rows: vec![vec!["h".to_string()], vec!["v".to_string()]] });
    let d = text_of(&package_entries(&plan(vec![b]), None, None, None, &Vec::new())[2]);
    assert!(d.find(">表1</w:t>").unwrap() < d.find("<w:tbl>").unwrap());
}

#[test]
fn section_break_after_a_table_gets_a_host_paragraph() {
    let mut x = block("", "x");
    x.section_key = Some("A".to_string());
    let mut t = block("table", "");
    t.section_key = Some("A".to_string());
    t.table = Some(PlanTable { rows: vec![vec!["c".to_string()]] });
    let mut y = block("", "y");
    y.section_key = Some("B".to_string());
    let mut p = plan(vec![x, t, y]);
    p.sections = vec![
        PlanSection { key: "A".to_string(), kind: Some("nextPage".to_string()), orientation: None, margins: None, page_start: None, page_num_fmt: None, title_page: false },
        PlanSection { key: "B".to_string(), kind: Some("continuous".to_string()), orientation: Some("landscape".to_string()), margins: None, page_start: Some(1), page_num_fmt: None, title_page: false },
    ];
    let d = text_of(&package_entries(&p, None, None, None, &Vec::new())[2]);
    assert!(d.contains("</w:tbl><w:p><w:pPr><w:sectPr><w:type w:val=\"nextPage\"/><w:pgSz w:w=\"11906\" w:h=\"16838\"/>"));
    assert!(d.contains("</w:sectPr></w:pPr><w:r/></w:p><w:p>"));
    assert!(d.ends_with("<w:sectPr><w:pgSz w:w=\"16838\" w:h=\"11906\" w:orient=\"landscape\"/><w:pgMar w:top=\"1440\" w:bottom=\"1440\" w:left=\"1800\" w:right=\"1800\" w:header=\"720\" w:footer=\"720\" w:gutter=\"0\"/><w:pgNumType w:start=\"1\"/></w:sectPr></w:body></w:document>"));
    assert_eq!(d.matches("<w:sectPr>").count(), 2);
}

#[test]
fn template_styles_are_copied() {
    let template = zip_archive(&vec![ZipEntry {
        path: "word/styles.xml".to_string(),
        bytes: b"<w:styles/>".to_vec(),
        compression: Compression::Deflated,
    }])
    .unwrap();
    assert_eq!(read_template_styles(&template), Some("<w:styles/>".to_string()));
    let entries = package_entries(&plan(vec![block("", "x")]), None, None, Some(&template), &Vec::new());
    assert_eq!(text_of(entry(&entries, "word/styles.xml")), "<w:styles/>");
    assert!(text_of(entry(&entries, "word/_rels/document.xml.rels")).contains("Target=\"styles.xml\""));
    let no_styles = zip_archive(&vec![ZipEntry { path: "a.txt".to_string(), bytes: b"a".to_vec(), compression: Compression::Stored }]).unwrap();
    assert_eq!(read_template_styles(&no_styles), None);
    assert_eq!(read_template_styles(b"not a zip"), None);
}

#[test]
fn built_document_reads_back() {
    let mut h = block("heading1", "Intro");
    h.text = Some("Intro".to_string());
    let bytes = build(&plan(vec![h, block("", "Hello & bye")]), None, None, None, &Vec::new()).ok().unwrap();
    let blocks = source_blocks(Some(&bytes)).ok().unwrap();
    assert_eq!(blocks.len(), 2);
    assert_eq!(blocks[0].path, "/body/paragraph[1]");
    assert_eq!(blocks[0].text, "Intro");
    assert_eq!(blocks[1].path, "/body/paragraph[2]");
    // Text is read back decoded.
    assert_eq!(blocks[1].text, "Hello & bye");
    let json = analyze(Some(&bytes)).ok().unwrap();
    assert!(json.starts_with("{\n  \"body\": [\n    {\"path\": \"/body/paragraph[1]\", \"text\": \"Intro\""));
    assert!(json.contains("\"text\": \"Hello & bye\""));
    assert!(analyze(None).is_err());
    assert!(analyze(Some(b"not a zip")).is_err());
}

#[test]
fn overlay_reuses_source_text_heading_and_runs() {
    let source = vec![SourceBlock {
        path: "/body/paragraph[1]".to_string(),
        text: "Bold\tx".to_string(),
        heading_level: Some(1),
        runs: vec![
            SourceRun { text: "Bold".to_string(), bold: true, italic: false, vertical_align: None, kind: None },
            SourceRun { text: String::new(), bold: false, italic: false, vertical_align: None, kind: Some("tab".to_string()) },
            SourceRun { text: "x".to_string(), bold: false, italic: true, vertical_align: Some("subscript".to_string()), kind: None },
        ],
    }];
    let mut b = block("", "ignored");
    b.source_ref = Some("/body/paragraph[1]".to_string());
    let d = text_of(&package_entries(&plan(vec![b]), Some(&source), None, None, &Vec::new())[2]);
    let heading = format!("<w:rPr>{FONTS}<w:b/><w:sz w:val=\"36\"/><w:szCs w:val=\"36\"/></w:rPr>");
    let italic_sub = format!("<w:rPr>{FONTS}<w:b/><w:i/><w:vertAlign w:val=\"subscript\"/><w:sz w:val=\"36\"/><w:szCs w:val=\"36\"/></w:rPr>");
    assert!(d.contains(&format!(
        "<w:p><w:pPr><w:outlineLvl w:val=\"0\"/></w:pPr><w:r>{heading}<w:t xml:space=\"preserve\">Bold</w:t></w:r><w:r>{heading}<w:tab/></w:r><w:r>{italic_sub}<w:t xml:space=\"preserve\">x</w:t></w:r></w:p>"
    )));
    assert!(!d.contains("ignored"));
}

#[test]
fn image_defaults_are_listed_in_extension_order() {
    let mut a = block("figure", "");
    a.image = Some(PlanImage { path: Some("a.png".to_string()), content_type: None, width_emu: None, height_emu: None, alt_text: None });
    let mut b = block("figure", "");
    b.image = Some(PlanImage { path: Some("b.BMP".to_string()), content_type: None, width_emu: None, height_emu: None, alt_text: Some("B".to_string()) });
    let mut c = block("figure", "");
    c.image = Some(PlanImage { path: Some("a.png".to_string()), content_type: None, width_emu: None, height_emu: None, alt_text: None });
    let images = vec![
        ImageFile::open("a.png".to_string(), Some(vec![1])),
        ImageFile::open("b.BMP".to_string(), Some(vec![2])),
    ];
    let entries = package_entries(&plan(vec![a, b, c]), None, None, None, &images);
    assert_eq!(
        paths(&entries)[4..].to_vec(),
        vec!["word/media/image1.png", "word/media/image2.bmp", "word/media/image3.png"]
    );
    let ct = text_of(&entries[0]);
    assert!(ct.contains("<Default Extension=\"bmp\" ContentType=\"image/bmp\"/><Default Extension=\"png\" ContentType=\"image/png\"/><Override"));
    assert_eq!(ct.matches("Extension=\"png\"").count(), 1);
    let rels = text_of(&entries[3]);
    assert!(rels.contains("<Relationship Id=\"rId3\" Type=\"http://schemas.openxmlformats.org/officeDocument/2006/relationships/image\" Target=\"media/image3.png\"/>"));
    assert!(text_of(&entries[2]).contains("name=\"b.BMP\" descr=\"B\""));
}

#[test]
fn thesis_preset_applied_twice_is_the_same() {
    let mut p = plan(vec![block("heading1", "第一章"), block("reference", "[1] A")]);
    p.document.preset = Some("undergraduate-thesis".to_string());
    let once = package_entries(&p, None, None, None, &Vec::new());
    docx_engine::presets::apply_undergraduate_thesis(&mut p);
    let twice = package_entries(&p, None, None, None, &Vec::new());
    assert_eq!(paths(&once), paths(&twice));
    for (x, y) in once.iter().zip(twice.iter()) {
        assert_eq!(x.bytes, y.bytes);
    }
}

#[test]
fn archive_refuses_a_repeated_path_and_reads_back_the_last_of_several() {
    let twice = zip_archive(&vec![
        ZipEntry { path: "word/styles.xml".to_string(), bytes: b"<a/>".to_vec(), compression: Compression::Stored },
        ZipEntry { path: "word/styles.xml".to_string(), bytes: b"<b/>".to_vec(), compression: Compression::Stored },
    ]);
    assert!(twice.is_err());
    let several = zip_archive(&vec![
        ZipEntry { path: "a.txt".to_string(), bytes: b"a".to_vec(), compression: Compression::Stored },
        ZipEntry { path: "word/styles.xml".to_string(), bytes: "<w:styles>é</w:styles>".as_bytes().to_vec(), compression: Compression::Deflated },
    ])
    .unwrap();
    assert_eq!(read_template_styles(&several), Some("<w:styles>é</w:styles>".to_string()));
}
