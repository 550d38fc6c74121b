use docx_engine::autoformat::{split, Segment};
use docx_engine::refs::{split_leading_ref, split_super_for_citations, CitPiece};
use docx_engine::text::{int_string, trim_string, xml_escape};
use std::collections::HashMap;
use docx_engine::analyze::Props;
use docx_engine::plan::{FormatPlan, PlanBlock, PlanDocument};
use docx_engine::refs::RefNormalize;

fn seg(s: &Segment) -> (String, Option<String>) {
    (s.text.clone(), s.vertical_align.clone())
}

fn piece(p: &CitPiece) -> String {
    match p {
        CitPiece::Text(s) => format!("T:{s}"),
        CitPiece::Ref(n) => format!("R:{n}"),
    }
}

#[test]
fn escapes_the_five_markup_characters() {
    assert_eq!(xml_escape("a<b&\"c'>"), "a&lt;b&amp;&quot;c&apos;&gt;");
    assert_eq!(xml_escape("纯文本"), "纯文本");
}

#[test]
fn trims_unicode_white_space() {
    assert_eq!(trim_string("\u{3000} x y \t"), "x y");
    assert_eq!(int_string(-42), "-42");
}

#[test]
fn splits_chemical_formula_into_subscripts() {
    let segs: Vec<_> = split("H2O").iter().map(seg).collect();
    assert_eq!(
        segs,
        vec![
            ("H".to_string(), None),
            ("2".to_string(), Some("subscript".to_string())),
            ("O".to_string(), None),
        ]
    );
}

#[test]
fn splits_ion_charge_into_superscript() {
    let segs: Vec<_> = split("Fe3+").iter().map(seg).collect();
    assert_eq!(
        segs,
        vec![("Fe".to_string(), None), ("3+".to_string(), Some("superscript".to_string()))]
    );
    let segs: Vec<_> = split("SO4").iter().map(seg).collect();
    assert_eq!(
        segs,
        vec![("SO".to_string(), None), ("4".to_string(), Some("subscript".to_string()))]
    );
}

#[test]
fn splits_unit_exponent() {
    let segs: Vec<_> = split("5 m2").iter().map(seg).collect();
    assert_eq!(
        segs,
        vec![
            ("5 ".to_string(), None),
            ("m".to_string(), None),
            ("2".to_string(), Some("superscript".to_string())),
        ]
    );
}

#[test]
fn splits_script_markers() {
    let segs: Vec<_> = split("x^2 y_{ij}").iter().map(seg).collect();
    assert_eq!(
        segs,
        vec![
            ("x".to_string(), None),
            ("2".to_string(), Some("superscript".to_string())),
            (" y".to_string(), None),
            ("ij".to_string(), Some("subscript".to_string())),
        ]
    );
}

#[test]
fn english_words_are_not_chemistry() {
    let segs: Vec<_> = split("Heading1").iter().map(seg).collect();
    assert_eq!(segs, vec![("Heading1".to_string(), None)]);
}

#[test]
fn empty_text_is_one_empty_segment() {
    let segs: Vec<_> = split("").iter().map(seg).collect();
    assert_eq!(segs, vec![(String::new(), None)]);
}

#[test]
fn leading_reference_number_is_split_off() {
    assert_eq!(split_leading_ref("[12]  Smith J."), Some((12, "Smith J.".to_string())));
    assert_eq!(split_leading_ref(" \t[3]\tA"), Some((3, "A".to_string())));
    assert_eq!(split_leading_ref("[x] no"), None);
    assert_eq!(split_leading_ref("[99999999999] too big"), None);
}

fn refs(ns: &[u32]) -> HashMap<u32, u32> {
    let mut m = HashMap::new();
    for (i, n) in ns.iter().enumerate() {
        m.insert(*n, 1000 + i as u32);
    }
    m
}

#[test]
fn range_citation_keeps_the_dash_and_cites_both_ends() {
    let p = split_super_for_citations("[1-3]", &refs(&[1, 2, 3])).unwrap();
    let v: Vec<String> = p.iter().map(piece).collect();
    assert_eq!(v, vec!["T:[", "R:1", "T:-", "R:3", "T:]"]);
}

#[test]
fn multiple_citation_cites_each_number() {
    let p = split_super_for_citations("[1,3, 5]", &refs(&[1, 3, 5])).unwrap();
    let v: Vec<String> = p.iter().map(piece).collect();
    assert_eq!(v, vec!["T:[", "R:1", "T:,", "R:3", "T:, ", "R:5", "T:]"]);
}

#[test]
fn unknown_citation_target_stays_text() {
    assert!(split_super_for_citations("[7]", &refs(&[1, 2, 3])).is_none());
    let p = split_super_for_citations("a[2,7]b", &refs(&[2])).unwrap();
    let v: Vec<String> = p.iter().map(piece).collect();
    assert_eq!(v, vec!["T:a", "T:[", "R:2", "T:,", "T:7", "T:]", "T:b"]);
}


fn text_block(text: &str) -> PlanBlock {
    PlanBlock {
        source_ref: None,
        role: String::new(),
        section_key: None,
        text: Some(text.to_string()),
        caption: None,
        format: None,
        table: None,
        image: None,
        equation: None,
    }
}

fn empty_doc() -> PlanDocument {
    PlanDocument {
        title: None,
        author: None,
        page_size: None,
        orientation: None,
        margins: None,
        cn_font: None,
        en_font: None,
        base_font_half_points: None,
        line_spacing_twips: None,
        header_footer: None,
        preset: None,
        thesis_university: None,
        thesis_title: None,
    }
}

#[test]
fn bookmark_ids_count_up_in_order_of_first_appearance() {
    let plan = FormatPlan {
        doc_type: None,
        document: empty_doc(),
        sections: Vec::new(),
        blocks: vec![text_block("[3] a"), text_block("[1] b"), text_block("x [2]"), text_block("[3] c")],
    };
    let rn = RefNormalize::collect(&plan, None);
    assert!(rn.is_active());
    let mut expected = HashMap::new();
    expected.insert(3u32, 1000u32);
    expected.insert(1u32, 1001u32);
    assert_eq!(rn.refs, expected);
    let none = FormatPlan { doc_type: None, document: empty_doc(), sections: Vec::new(), blocks: vec![text_block("x")] };
    assert!(!RefNormalize::collect(&none, None).is_active());
}

fn props(sz: Option<&str>, bold: Option<bool>) -> Props {
    let mut p = Props::new();
    p.sz = sz.map(|s| s.to_string());
    p.bold = bold;
    p
}

#[test]
fn overlay_keeps_what_the_upper_layer_leaves_unset() {
    let mut base = props(Some("24"), Some(false));
    base.overlay(&props(None, Some(true)));
    assert_eq!(base.sz.as_deref(), Some("24"));
    assert_eq!(base.bold, Some(true));
    let mut same = props(Some("28"), None);
    same.overlay(&Props::new());
    assert_eq!(same.sz.as_deref(), Some("28"));
    assert_eq!(same.bold, None);
}
