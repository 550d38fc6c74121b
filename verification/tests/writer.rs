use docx_engine::body::{
    build_table, equation_para, image_ext, render_block, render_text_segments, BodyElem, ImageFile, Para,
};
use docx_engine::docx::{fallback_heading_size, map_align, map_vertical_align, page_size_twips};
use docx_engine::parts::{
    build_vertical_pagenum_textbox, content_types, document_rels, footer_part, Package, CONTENT_TYPES_HEAD,
    DOCUMENT_OVERRIDE,
};
use docx_engine::plan::{
    PlanBlock, PlanDocument, PlanEquation, PlanFormat, PlanHeaderFooter, PlanMargins, PlanSection,
};
use docx_engine::props::{
    order_for, paragraph_properties_inner, run_properties, section_inner, HfKind, HfRefs, HfType,
};
use docx_engine::refs::RefNormalize;
use std::collections::HashMap;

const FONTS: &str =
    "<w:rFonts w:ascii=\"Times New Roman\" w:hAnsi=\"Times New Roman\" w:eastAsia=\"宋体\" w:cs=\"宋体\"/>";

fn doc() -> PlanDocument {
    PlanDocument {
        title: None,
        author: None,
        page_size: None,
        orientation: None,
        margins: None,
        cn_font: None,
        en_font: None,
        base_font_half_points: None,
        line_spacing_twips: None,
        header_footer: None,
        preset: None,
        thesis_university: None,
        thesis_title: None,
    }
}

fn block(role: &str, text: &str) -> PlanBlock {
    PlanBlock {
        source_ref: None,
        role: role.to_string(),
        section_key: None,
        text: Some(text.to_string()),
        caption: None,
        format: None,
        table: None,
        image: None,
        equation: None,
    }
}

fn rpr(extra: &str, size: &str) -> String {
    format!("<w:rPr>{FONTS}{extra}<w:sz w:val=\"{size}\"/><w:szCs w:val=\"{size}\"/></w:rPr>")
}

#[test]
fn default_run_properties_use_document_fallbacks() {
    assert_eq!(run_properties(None, &doc(), None, false), rpr("", "24"));
}

#[test]
fn heading_runs_are_bold_and_sized_by_level() {
    assert_eq!(run_properties(None, &doc(), Some(1), false), rpr("<w:b/>", "36"));
    assert_eq!(run_properties(None, &doc(), Some(3), false), rpr("<w:b/>", "28"));
    assert_eq!(run_properties(None, &doc(), None, true), rpr("<w:b/>", "24"));
    assert_eq!(fallback_heading_size(Some(2)), "32");
}

#[test]
fn document_fonts_and_size_apply_without_a_style() {
    let mut d = doc();
    d.en_font = Some("Arial".to_string());
    d.cn_font = Some("黑体".to_string());
    d.base_font_half_points = Some(21);
    assert_eq!(
        run_properties(None, &d, None, false),
        "<w:rPr><w:rFonts w:ascii=\"Arial\" w:hAnsi=\"Arial\" w:eastAsia=\"黑体\" w:cs=\"黑体\"/><w:sz w:val=\"21\"/><w:szCs w:val=\"21\"/></w:rPr>"
    );
}

#[test]
fn styled_runs_carry_only_explicit_formatting() {
    let mut f = PlanFormat::empty();
    f.style_id = Some("Heading1".to_string());
    assert_eq!(run_properties(Some(&f), &doc(), Some(1), false), "");
    f.italic = Some(true);
    let mut d = doc();
    d.base_font_half_points = Some(30);
    assert_eq!(run_properties(Some(&f), &d, Some(1), false), "<w:rPr><w:i/></w:rPr>");
}

#[test]
fn run_properties_map_values() {
    let mut f = PlanFormat::empty();
    f.font_half_points = Some(28);
    f.font_color = Some("FF0000".to_string());
    f.underline = Some(" Single ".to_string());
    f.vertical_align = Some("上标".to_string());
    f.bold = Some(true);
    assert_eq!(
        run_properties(Some(&f), &doc(), None, false),
        format!(
            "<w:rPr>{FONTS}<w:b/><w:u w:val=\"single\"/><w:color w:val=\"FF0000\"/><w:vertAlign w:val=\"superscript\"/><w:sz w:val=\"28\"/><w:szCs w:val=\"28\"/></w:rPr>"
        )
    );
    assert_eq!(map_vertical_align("bogus"), None);
    assert_eq!(map_align(" Justify "), Some("both"));
}

#[test]
fn paragraph_properties_in_schema_order() {
    let mut f = PlanFormat::empty();
    f.style_id = Some("Body".to_string());
    f.align = Some("Justify".to_string());
    f.first_line_indent = Some("420".to_string());
    f.before_spacing = Some("0".to_string());
    f.after_spacing = Some("120".to_string());
    f.line_spacing_rule = Some("exact".to_string());
    f.page_break_before = Some(true);
    let mut d = doc();
    d.line_spacing_twips = Some(360);
    assert_eq!(
        paragraph_properties_inner(Some(&f), &d, Some(2)),
        "<w:pStyle w:val=\"Body\"/><w:jc w:val=\"both\"/><w:ind w:firstLine=\"420\"/><w:spacing w:before=\"0\" w:after=\"120\" w:line=\"360\" w:lineRule=\"exact\"/><w:pageBreakBefore/><w:outlineLvl w:val=\"1\"/>"
    );
    assert_eq!(paragraph_properties_inner(None, &doc(), None), "");
}

fn section() -> PlanSection {
    PlanSection {
        key: "s1".to_string(),
        kind: Some("nextPage".to_string()),
        orientation: Some("landscape".to_string()),
        margins: Some(PlanMargins { top: Some("720".to_string()), bottom: None, left: None, right: None }),
        page_start: Some(5),
        page_num_fmt: Some("upperRoman".to_string()),
        title_page: true,
    }
}

#[test]
fn section_properties_of_a_breaking_section() {
    let mut d = doc();
    d.page_size = Some(" Letter ".to_string());
    d.margins = Some(PlanMargins { top: None, bottom: Some("1000".to_string()), left: None, right: None });
    let s = section();
    assert_eq!(
        section_inner(Some(&s), &d, true, &HfRefs::new()),
        "<w:type w:val=\"nextPage\"/><w:pgSz w:w=\"15840\" w:h=\"12240\" w:orient=\"landscape\"/><w:pgMar w:top=\"720\" w:bottom=\"1000\" w:left=\"1800\" w:right=\"1800\" w:header=\"720\" w:footer=\"720\" w:gutter=\"0\"/><w:pgNumType w:fmt=\"upperRoman\" w:start=\"5\"/><w:titlePg/>"
    );
    assert_eq!(
        section_inner(None, &doc(), false, &HfRefs::new()),
        "<w:pgSz w:w=\"11906\" w:h=\"16838\"/><w:pgMar w:top=\"1440\" w:bottom=\"1440\" w:left=\"1800\" w:right=\"1800\" w:header=\"720\" w:footer=\"720\" w:gutter=\"0\"/>"
    );
    assert_eq!(page_size_twips(Some("A5")), ("8391", "11906"));
}

#[test]
fn header_references_come_first_in_type_order() {
    let mut refs = HfRefs::new();
    refs.insert(HfKind::Header, HfType::Even, "rId2".to_string());
    refs.insert(HfKind::Footer, HfType::Default, "rId3".to_string());
    refs.insert(HfKind::Header, HfType::Default, "rId1".to_string());
    let h = refs.headers();
    assert_eq!(h.len(), 2);
    assert!(matches!(h[0].0, HfType::Default) && h[0].1 == "rId1");
    assert!(matches!(h[1].0, HfType::Even) && h[1].1 == "rId2");
    let s = section_inner(None, &doc(), false, &refs);
    assert!(s.starts_with(
        "<w:headerReference w:type=\"default\" r:id=\"rId1\"/><w:headerReference w:type=\"even\" r:id=\"rId2\"/><w:footerReference w:type=\"default\" r:id=\"rId3\"/><w:pgSz"
    ));
    assert_eq!(order_for("default"), 0);
    assert_eq!(order_for("first"), 2);
    assert_eq!(order_for("odd"), 99);
}

#[test]
fn relationship_ids_follow_registration_order() {
    let mut pkg = Package::new();
    assert_eq!(content_types(&pkg), format!("{CONTENT_TYPES_HEAD}{DOCUMENT_OVERRIDE}</Types>"));
    assert_eq!(pkg.add_rel("t/a", "a.xml"), "rId1");
    assert_eq!(pkg.add_rel("t/b", "b&c.xml"), "rId2");
    assert!(document_rels(&pkg).ends_with(
        "<Relationship Id=\"rId1\" Type=\"t/a\" Target=\"a.xml\"/><Relationship Id=\"rId2\" Type=\"t/b\" Target=\"b&amp;c.xml\"/></Relationships>"
    ));
}

#[test]
fn centred_page_number_footer() {
    let mut d = doc();
    d.header_footer = Some(PlanHeaderFooter {
        odd_even: false,
        first_different: false,
        page_number: Some(" Continuous ".to_string()),
    });
    let expected = format!(
        "<?xml version=\"1.0\" encoding=\"UTF-8\" standalone=\"yes\"?>\n<w:ftr xmlns:w=\"http://schemas.openxmlformats.org/wordprocessingml/2006/main\"><w:p><w:pPr><w:jc w:val=\"center\"/></w:pPr><w:fldSimple w:instr=\" PAGE \"><w:r>{}<w:t>1</w:t></w:r></w:fldSimple></w:p></w:ftr>",
        rpr("", "24")
    );
    assert_eq!(footer_part(&d), Some(expected));
    d.header_footer = Some(PlanHeaderFooter { odd_even: false, first_different: false, page_number: Some("none".to_string()) });
    assert_eq!(footer_part(&d), None);
}

#[test]
fn vertical_page_number_text_box() {
    let mut d = doc();
    d.header_footer = Some(PlanHeaderFooter {
        odd_even: false,
        first_different: false,
        page_number: Some("left-vertical".to_string()),
    });
    let f = footer_part(&d).unwrap();
    assert!(f.contains("<w:spacing w:before=\"0\" w:after=\"0\" w:line=\"240\" w:lineRule=\"auto\"/>"));
    assert!(f.contains("margin-left:36.00pt;margin-top:144.00pt;width:36.00pt;height:612.00pt;"));
    let b = build_vertical_pagenum_textbox("<w:p/>");
    assert!(b.starts_with("<mc:AlternateContent xmlns:mc=\"http://schemas.openxmlformats.org/markup-compatibility/2006\" xmlns:w="));
    assert!(b.contains("<wp:positionH relativeFrom=\"page\"><wp:posOffset>457200</wp:posOffset></wp:positionH>"));
    assert!(b.contains("<wp:extent cx=\"457200\" cy=\"7772400\"/>"));
    assert_eq!(b.matches("<w:txbxContent><w:p/></w:txbxContent>").count(), 2);
    assert!(b.ends_with("</v:textbox></v:rect></w:pict></mc:Fallback></mc:AlternateContent>"));
}

#[test]
fn paragraph_serialization() {
    let p = Para { ppr_inner: String::new(), run: "<w:r/>".to_string() };
    assert_eq!(p.serialize(""), "<w:p><w:r/></w:p>");
    assert_eq!(p.serialize("<w:sectPr/>"), "<w:p><w:pPr><w:sectPr/></w:pPr><w:r/></w:p>");
}

#[test]
fn three_line_table_with_bold_header_row() {
    let rows = vec![vec!["a".to_string(), "b".to_string()], vec!["c".to_string(), "d".to_string()]];
    let t = build_table(&doc(), &rows);
    assert!(t.starts_with("<w:tbl><w:tblPr><w:tblW w:w=\"5000\" w:type=\"pct\"/>"));
    let header_cell = format!(
        "<w:tc><w:tcPr><w:tcW w:type=\"auto\"/><w:tcBorders><w:bottom w:val=\"single\" w:sz=\"6\"/></w:tcBorders></w:tcPr><w:p><w:r>{}<w:t xml:space=\"preserve\">a</w:t></w:r></w:p></w:tc>",
        rpr("<w:b/>", "24")
    );
    assert!(t.contains(&header_cell));
    let body_cell = format!(
        "<w:tc><w:tcPr><w:tcW w:type=\"auto\"/></w:tcPr><w:p><w:r>{}<w:t xml:space=\"preserve\">d</w:t></w:r></w:p></w:tc>",
        rpr("", "24")
    );
    assert!(t.ends_with(&format!("{body_cell}</w:tr></w:tbl>")));
    let single = build_table(&doc(), &vec![vec!["x".to_string()]]);
    assert!(!single.contains("<w:tcBorders>"));
    let empty = build_table(&doc(), &Vec::new());
    assert!(empty.ends_with(
        "</w:tblPr><w:tr><w:tc><w:tcPr><w:tcW w:type=\"auto\"/></w:tcPr><w:p><w:r><w:t></w:t></w:r></w:p></w:tc></w:tr></w:tbl>"
    ));
}

#[test]
fn display_equation_embeds_omml_without_line_spacing() {
    let mut b = block("equation", "");
    b.text = None;
    b.equation = Some(PlanEquation {
        text: None,
        xml: Some("<m:oMathPara/>".to_string()),
        display_mode: Some("DISPLAY".to_string()),
    });
    let mut d = doc();
    d.line_spacing_twips = Some(360);
    let p = equation_para(&d, &b);
    assert_eq!(p.ppr_inner, "<w:jc w:val=\"center\"/>");
    assert_eq!(p.run, "<m:oMathPara/>");
    b.equation = Some(PlanEquation { text: Some("x^2".to_string()), xml: Some("  ".to_string()), display_mode: None });
    let q = equation_para(&d, &b);
    assert_eq!(q.ppr_inner, "<w:spacing w:line=\"360\" w:lineRule=\"auto\"/>");
    assert!(q.run.contains("<w:vertAlign w:val=\"superscript\"/>"));
    b.equation = Some(PlanEquation { text: None, xml: None, display_mode: None });
    assert_eq!(equation_para(&doc(), &b).run, format!("<w:r>{}</w:r>", rpr("", "24")));
}

fn normalizer(ns: &[u32]) -> RefNormalize {
    let mut refs = HashMap::new();
    for (i, n) in ns.iter().enumerate() {
        refs.insert(*n, 1000 + i as u32);
    }
    RefNormalize { refs }
}

#[test]
fn superscript_citation_becomes_ref_field() {
    let rn = normalizer(&[1]);
    let out = render_text_segments("见^{[1]}", None, &doc(), None, false, Some(&rn));
    let sup = rpr("<w:vertAlign w:val=\"superscript\"/>", "24");
    let expected = format!(
        "<w:r>{plain}<w:t xml:space=\"preserve\">见</w:t></w:r><w:r>{sup}<w:t xml:space=\"preserve\">[</w:t></w:r><w:r>{sup}<w:fldChar w:fldCharType=\"begin\"/></w:r><w:r>{sup}<w:instrText xml:space=\"preserve\"> REF _Ref_ref_1 \\h </w:instrText></w:r><w:r>{sup}<w:fldChar w:fldCharType=\"separate\"/></w:r><w:r>{sup}<w:t>1</w:t></w:r><w:r>{sup}<w:fldChar w:fldCharType=\"end\"/></w:r><w:r>{sup}<w:t xml:space=\"preserve\">]</w:t></w:r>",
        plain = rpr("", "24")
    );
    assert_eq!(out, expected);
    let plain_cite = render_text_segments("见[1]", None, &doc(), None, false, Some(&rn));
    assert!(!plain_cite.contains("REF"));
}

#[test]
fn reference_entry_gets_bookmark_tab_and_hanging_indent() {
    let rn = normalizer(&[1]);
    let mut pkg = Package::new();
    let elems = render_block(&doc(), &block("reference", "[1]   Smith J. <Method>"), &mut pkg, None, Some(&rn), &Vec::new());
    assert_eq!(elems.len(), 1);
    match &elems[0] {
        BodyElem::Para(p) => {
            assert_eq!(
                p.ppr_inner,
                "<w:ind w:hangingChars=\"200\"/><w:tabs><w:tab w:val=\"left\" w:pos=\"480\"/></w:tabs>"
            );
            let r = rpr("", "24");
            assert_eq!(
                p.run,
                format!(
                    "<w:r>{r}<w:t>[</w:t></w:r><w:bookmarkStart w:id=\"1000\" w:name=\"_Ref_ref_1\"/><w:r>{r}<w:t>1</w:t></w:r><w:bookmarkEnd w:id=\"1000\"/><w:r>{r}<w:t>]</w:t></w:r><w:r>{r}<w:tab/></w:r><w:r>{r}<w:t xml:space=\"preserve\">Smith J. &lt;Method&gt;</w:t></w:r>"
                )
            );
        },
        BodyElem::Raw(_) => panic!("expected a paragraph"),
    }
}

#[test]
fn reference_entry_keeps_a_given_indent() {
    let rn = normalizer(&[2]);
    let mut b = block("", "[2] Zhao");
    let mut f = PlanFormat::empty();
    f.hanging_indent = Some("360".to_string());
    b.format = Some(f);
    let mut pkg = Package::new();
    let elems = render_block(&doc(), &b, &mut pkg, None, Some(&rn), &Vec::new());
    match &elems[0] {
        BodyElem::Para(p) => assert_eq!(
            p.ppr_inner,
            "<w:ind w:hanging=\"360\"/><w:tabs><w:tab w:val=\"left\" w:pos=\"480\"/></w:tabs>"
        ),
        BodyElem::Raw(_) => panic!("expected a paragraph"),
    }
}

#[test]
fn image_extension_by_content_type_then_file_extension() {
    assert_eq!(image_ext(Some("PNG"), None), "png");
    assert_eq!(image_ext(Some("jpg"), Some("image/GIF")), "gif");
    assert_eq!(image_ext(Some("tif"), Some("text/plain")), "tiff");
    assert_eq!(image_ext(Some("JPG"), None), "jpeg");
    assert_eq!(image_ext(None, None), "png");
    assert_eq!(image_ext(Some("svg"), None), "png");
}

#[test]
fn image_file_takes_name_and_extension_from_the_path() {
    let f = ImageFile::open("pics/fig.1.PNG".to_string(), Some(vec![1, 2, 3]));
    assert_eq!(f.file_name.as_deref(), Some("fig.1.PNG"));
    assert_eq!(f.extension.as_deref(), Some("PNG"));
    assert_eq!(f.bytes, Some(vec![1, 2, 3]));
    let g = ImageFile::open("noext".to_string(), None);
    assert_eq!(g.extension, None);
}

#[test]
fn unknown_superscript_citation_stays_text() {
    let rn = normalizer(&[1]);
    let out = render_text_segments("见^{[7]}", None, &doc(), None, false, Some(&rn));
    let sup = rpr("<w:vertAlign w:val=\"superscript\"/>", "24");
    assert!(out.ends_with(&format!("<w:r>{sup}<w:t xml:space=\"preserve\">[7]</w:t></w:r>")));
    assert!(!out.contains("REF"));
}
