use docx_engine::cli::{dangling_style_warning, normalize_references_flag, parse_options, text_less, unique_sorted};
use docx_engine::plan::{FormatPlan, PlanBlock, PlanDocument, PlanFormat};
use docx_engine::presets::apply_undergraduate_thesis;

fn args(v: &[&str]) -> Vec<String> {
    v.iter().map(|s| s.to_string()).collect()
}

fn doc() -> PlanDocument {
    PlanDocument {
        title: None,
        author: None,
        page_size: None,
        orientation: None,
        margins: None,
        cn_font: None,
        en_font: None,
        base_font_half_points: None,
        line_spacing_twips: None,
        header_footer: None,
        preset: None,
        thesis_university: None,
        thesis_title: None,
    }
}

fn styled_block(style: Option<&str>) -> PlanBlock {
    let format = style.map(|s| {
        let mut f = PlanFormat::empty();
        f.style_id = Some(s.to_string());
        f
    });
    PlanBlock {
        source_ref: None,
        role: String::new(),
        section_key: None,
        text: Some("t".to_string()),
        caption: None,
        format,
        table: None,
        image: None,
        equation: None,
    }
}

#[test]
fn options_take_values_and_flags() {
    let o = parse_options(&args(&[
        "--plan",
        "a.json",
        "--normalize-references",
        "--output",
        "o.docx",
        "stray",
    ]));
    assert_eq!(o.get("plan"), Some("a.json"));
    assert_eq!(o.get("normalize-references"), Some(""));
    assert_eq!(o.get("output"), Some("o.docx"));
    assert_eq!(o.get("stray"), None);
    assert_eq!(o.get("missing"), None);
}

#[test]
fn later_value_wins_and_flag_keeps_earlier_value() {
    let o = parse_options(&args(&["--x", "1", "--x", "2", "--y", "3", "--y"]));
    assert_eq!(o.get("x"), Some("2"));
    assert_eq!(o.get("y"), Some("3"));
}

#[test]
fn normalization_switch_values() {
    assert_eq!(normalize_references_flag(None), None);
    assert_eq!(normalize_references_flag(Some("")), Some(true));
    assert_eq!(normalize_references_flag(Some("true")), Some(true));
    assert_eq!(normalize_references_flag(Some(" OFF ")), Some(false));
    assert_eq!(normalize_references_flag(Some("False")), Some(false));
    assert_eq!(normalize_references_flag(Some("0")), Some(false));
}

#[test]
fn texts_sort_by_character() {
    assert!(text_less("A", "B"));
    assert!(text_less("Head", "Heading"));
    assert!(!text_less("b", "a"));
    assert!(!text_less("x", "x"));
    let v = unique_sorted(&args(&["b", "a", "b", "", "标题", "Z"]));
    assert_eq!(v, args(&["", "Z", "a", "b", "标题"]));
}

#[test]
fn dangling_style_references_are_reported() {
    let plan = FormatPlan {
        doc_type: None,
        document: doc(),
        sections: Vec::new(),
        blocks: vec![styled_block(Some("B")), styled_block(None), styled_block(Some("A")), styled_block(Some("B")), styled_block(Some(""))],
    };
    let w = dangling_style_warning(&plan, false).unwrap();
    assert!(w.starts_with("警告: plan 里有 3 处 format.styleId 引用 (A, B)，但未提供 --template <docx>。\n"));
    assert!(w.ends_with("请补上 \n--template <docx>，例如 --template samples\\template.docx。"));
    assert_eq!(dangling_style_warning(&plan, true), None);
    let none = FormatPlan { doc_type: None, document: doc(), sections: Vec::new(), blocks: vec![styled_block(None)] };
    assert_eq!(dangling_style_warning(&none, false), None);
}

#[test]
fn thesis_preset_fills_document_defaults() {
    let mut d = doc();
    d.preset = Some("undergraduate-thesis".to_string());
    d.page_size = Some("letter".to_string());
    let mut plan = FormatPlan { doc_type: None, document: d, sections: Vec::new(), blocks: vec![styled_block(None)] };
    apply_undergraduate_thesis(&mut plan);
    assert_eq!(plan.document.page_size.as_deref(), Some("letter"));
    assert_eq!(plan.document.orientation.as_deref(), Some("portrait"));
    assert_eq!(plan.document.cn_font.as_deref(), Some("宋体"));
    assert_eq!(plan.document.en_font.as_deref(), Some("Times New Roman"));
}
