use docx_engine::analyze::{analyze, source_blocks, SourceBlock, SourceRun};
use docx_engine::archive::{zip_archive, Compression, ZipEntry};
use docx_engine::body::{equation_para, render_text_segments};
use docx_engine::docx::package_entries;
use docx_engine::plan::{FormatPlan, PlanBlock, PlanDocument, PlanEquation, PlanFormat, PlanHeaderFooter};
use docx_engine::presets::apply_undergraduate_thesis;
use docx_engine::props::{paragraph_properties_inner, section_inner, HfRefs};
use docx_engine::refs::{split_leading_ref, split_super_for_citations, RefNormalize};
use docx_engine::text::trim_string;
use std::collections::HashMap;

fn doc() -> PlanDocument {
    PlanDocument {
        title: None,
        author: None,
        page_size: None,
        orientation: None,
        margins: None,
        cn_font: None,
        en_font: None,
        base_font_half_points: None,
        line_spacing_twips: None,
        header_footer: None,
        preset: None,
        thesis_university: None,
        thesis_title: None,
    }
}

fn block(role: &str, text: Option<&str>) -> PlanBlock {
    PlanBlock {
        source_ref: None,
        role: role.to_string(),
        section_key: None,
        text: text.map(|t| t.to_string()),
        caption: None,
        format: None,
        table: None,
        image: None,
        equation: None,
    }
}

fn docx_with(document_xml: &str) -> Vec<u8> {
    zip_archive(&vec![ZipEntry {
        path: "word/document.xml".to_string(),
        bytes: document_xml.as_bytes().to_vec(),
        compression: Compression::Deflated,
    }])
    .unwrap()
}

fn part_text(entries: &[ZipEntry], path: &str) -> Option<String> {
    entries.iter().find(|e| e.path == path).map(|e| String::from_utf8(e.bytes.clone()).unwrap())
}

fn run(text: &str, bold: bool, kind: Option<&str>) -> SourceRun {
    SourceRun {
        text: text.to_string(),
        bold,
        italic: false,
        vertical_align: None,
        kind: kind.map(|k| k.to_string()),
    }
}

fn same_runs(a: &[SourceRun], b: &[SourceRun]) -> bool {
    a.len() == b.len()
        && a.iter().zip(b.iter()).all(|(x, y)| {
            x.text == y.text
                && x.bold == y.bold
                && x.italic == y.italic
                && x.vertical_align == y.vertical_align
                && x.kind == y.kind
        })
}

#[test]
fn display_equation_is_wrapped_in_a_centred_math_paragraph() {
    let mut b = block("equation", None);
    b.equation = Some(PlanEquation {
        text: None,
        xml: Some("<m:oMath>X</m:oMath>".to_string()),
        display_mode: Some("display".to_string()),
    });
    let p = equation_para(&doc(), &b);
    assert_eq!(p.ppr_inner, "<w:jc w:val=\"center\"/>");
    assert_eq!(
        p.run,
        "<m:oMathPara><m:oMathParaPr><m:jc m:val=\"centerGroup\"/></m:oMathParaPr><m:oMath>X</m:oMath></m:oMathPara>"
    );
    b.equation = Some(PlanEquation {
        text: None,
        xml: Some("<m:oMathPara><m:oMath>X</m:oMath></m:oMathPara>".to_string()),
        display_mode: Some("display".to_string()),
    });
    assert_eq!(equation_para(&doc(), &b).run, "<m:oMathPara><m:oMath>X</m:oMath></m:oMathPara>");
    b.equation = Some(PlanEquation {
        text: None,
        xml: Some("<m:oMath>X</m:oMath>".to_string()),
        display_mode: Some("inline".to_string()),
    });
    assert_eq!(equation_para(&doc(), &b).run, "<m:oMath>X</m:oMath>");
}

#[test]
fn all_whitespace_after_the_reference_number_is_dropped() {
    assert_eq!(split_leading_ref("[1]\u{3000}张三. 论文."), Some((1, "张三. 论文.".to_string())));
    assert_eq!(split_leading_ref("\u{3000}[2] \t x"), Some((2, "x".to_string())));
    assert_eq!(trim_string("\u{3000} x \n"), "x");
}

#[test]
fn text_after_a_tab_keeps_its_run_formatting() {
    let bytes = docx_with(
        "<w:document><w:body><w:p><w:r><w:rPr><w:b/></w:rPr><w:t>A</w:t><w:tab/><w:t>B</w:t></w:r></w:p></w:body></w:document>",
    );
    let blocks = source_blocks(Some(&bytes)).ok().unwrap();
    assert_eq!(blocks[0].text, "AB");
    assert!(same_runs(&blocks[0].runs, &[run("A", true, None), run("", false, Some("tab")), run("B", true, None)]));
}

#[test]
fn a_run_ending_in_a_tab_adds_no_empty_run() {
    let bytes = docx_with(
        "<w:document><w:body><w:p><w:r><w:rPr><w:b/></w:rPr><w:t>A</w:t><w:tab/></w:r></w:p></w:body></w:document>",
    );
    let blocks = source_blocks(Some(&bytes)).ok().unwrap();
    assert!(same_runs(&blocks[0].runs, &[run("A", true, None), run("", false, Some("tab"))]));
}

#[test]
fn a_run_starting_with_a_tab_keeps_its_empty_formatted_run_first() {
    let bytes = docx_with(
        "<w:document><w:body><w:p><w:r><w:rPr><w:b/></w:rPr><w:tab/><w:t>B</w:t></w:r></w:p></w:body></w:document>",
    );
    let blocks = source_blocks(Some(&bytes)).ok().unwrap();
    assert!(same_runs(&blocks[0].runs, &[run("", true, None), run("", false, Some("tab")), run("B", true, None)]));
}

#[test]
fn an_empty_paragraph_tag_is_counted() {
    let bytes = docx_with("<w:document><w:body><w:p/><w:p><w:r><w:t>x</w:t></w:r></w:p></w:body></w:document>");
    let blocks = source_blocks(Some(&bytes)).ok().unwrap();
    assert_eq!(blocks.len(), 2);
    assert_eq!(blocks[0].path, "/body/paragraph[1]");
    assert_eq!(blocks[0].text, "");
    assert_eq!(blocks[1].path, "/body/paragraph[2]");
    assert_eq!(blocks[1].text, "x");
}

#[test]
fn analysis_lists_the_runs_of_each_paragraph() {
    let bytes = docx_with(
        "<w:document><w:body><w:p><w:r><w:rPr><w:b/></w:rPr><w:t>x</w:t></w:r></w:p></w:body></w:document>",
    );
    let json = analyze(Some(&bytes)).ok().unwrap();
    assert!(json.contains("\"path\": \"/body/paragraph[1]\", \"text\": \"x\""));
    assert!(json.contains(
        "\"runs\": [{\"text\": \"x\", \"bold\": true, \"italic\": false, \"verticalAlign\": null, \"kind\": null}]}"
    ));
}

#[test]
fn odd_and_even_footers_turn_on_distinct_even_pages() {
    let mut p = FormatPlan { doc_type: None, document: doc(), sections: Vec::new(), blocks: vec![block("", Some("x"))] };
    p.document.header_footer = Some(PlanHeaderFooter {
        odd_even: true,
        first_different: false,
        page_number: Some("center-page-number".to_string()),
    });
    let entries = package_entries(&p, None, None, None, &Vec::new());
    assert!(part_text(&entries, "word/settings.xml").unwrap().contains("<w:evenAndOddHeaders/>"));
    assert!(part_text(&entries, "word/footer1.xml").is_some());
    assert!(part_text(&entries, "word/footer2.xml").is_some());
    let d = part_text(&entries, "word/document.xml").unwrap();
    assert!(d.contains("<w:footerReference w:type=\"default\""));
    assert!(d.contains("<w:footerReference w:type=\"even\""));
}

#[test]
fn reformatted_reference_entries_are_normalized() {
    let mut b = block("reference", None);
    b.source_ref = Some("/body/paragraph[1]".to_string());
    let p = FormatPlan { doc_type: None, document: doc(), sections: Vec::new(), blocks: vec![b] };
    let source = vec![SourceBlock {
        path: "/body/paragraph[1]".to_string(),
        text: "[1] Smith J.".to_string(),
        heading_level: None,
        runs: vec![run("[1] Smith J.", false, None)],
    }];
    let rn = RefNormalize::collect(&p, Some(&source));
    assert_eq!(rn.refs.get(&1), Some(&1000));
    let entries = package_entries(&p, Some(&source), Some(true), None, &Vec::new());
    let d = part_text(&entries, "word/document.xml").unwrap();
    assert!(d.contains("<w:bookmarkStart w:id=\"1000\" w:name=\"_Ref_ref_1\"/>"));
}

#[test]
fn first_different_turns_on_a_title_page() {
    let mut d = doc();
    d.header_footer = Some(PlanHeaderFooter { odd_even: false, first_different: true, page_number: None });
    assert!(section_inner(None, &d, false, &HfRefs::new()).contains("<w:titlePg/>"));
    assert!(!section_inner(None, &doc(), false, &HfRefs::new()).contains("<w:titlePg/>"));
}

#[test]
fn indents_in_characters_are_written() {
    let mut f = PlanFormat::empty();
    f.first_line_chars = Some("200".to_string());
    f.first_line_indent = Some("480".to_string());
    let ppr = paragraph_properties_inner(Some(&f), &doc(), None);
    assert!(ppr.contains("<w:ind w:firstLine=\"480\" w:firstLineChars=\"200\"/>"));
    let mut h = PlanFormat::empty();
    h.hanging_chars = Some("200".to_string());
    assert!(paragraph_properties_inner(Some(&h), &doc(), None).contains("<w:ind w:hangingChars=\"200\"/>"));
}

#[test]
fn thesis_body_indent_is_two_characters() {
    let mut d = doc();
    d.preset = Some("undergraduate-thesis".to_string());
    let mut p = FormatPlan { doc_type: None, document: d, sections: Vec::new(), blocks: vec![block("Body", Some("x"))] };
    apply_undergraduate_thesis(&mut p);
    let f = p.blocks[0].format.as_ref().unwrap();
    assert_eq!(f.first_line_chars.as_deref(), Some("200"));
    assert_eq!(f.first_line_indent, None);
    assert_eq!(f.font_half_points, Some(24));
    assert_eq!(f.align.as_deref(), Some("both"));
    assert_eq!(f.line_spacing.as_deref(), Some("400"));
    assert_eq!(f.line_spacing_rule.as_deref(), Some("exact"));
}

#[test]
fn citations_made_superscript_by_the_format_become_ref_fields() {
    let mut f = PlanFormat::empty();
    f.vertical_align = Some("superscript".to_string());
    let mut refs = HashMap::new();
    refs.insert(1u32, 1000u32);
    let rn = RefNormalize { refs };
    let out = render_text_segments("[1]", Some(&f), &doc(), None, false, Some(&rn));
    assert!(out.contains("REF _Ref_ref_1"));
}

#[test]
fn a_citation_number_too_large_names_no_reference() {
    let mut refs = HashMap::new();
    refs.insert(0u32, 1000u32);
    assert!(split_super_for_citations("[99999999999]", &refs).is_none());
}

#[test]
fn reformatted_superscript_citations_become_ref_fields() {
    let mut body = block("body", None);
    body.source_ref = Some("/body/paragraph[1]".to_string());
    let p = FormatPlan {
        doc_type: None,
        document: doc(),
        sections: Vec::new(),
        blocks: vec![body, block("reference", Some("[1] Smith J."))],
    };
    let mut sup = run("[1]", false, None);
    sup.vertical_align = Some("superscript".to_string());
    let source = vec![SourceBlock {
        path: "/body/paragraph[1]".to_string(),
        text: "See[1]".to_string(),
        heading_level: None,
        runs: vec![run("See", false, None), sup],
    }];
    let entries = package_entries(&p, Some(&source), Some(true), None, &Vec::new());
    let d = part_text(&entries, "word/document.xml").unwrap();
    assert!(d.contains("REF _Ref_ref_1"));
    let plain = package_entries(&p, Some(&source), Some(false), None, &Vec::new());
    assert!(!part_text(&plain, "word/document.xml").unwrap().contains("REF _Ref_ref_1"));
}
