use core1_etb::ui_formula_probe::{
    collect_all_t_text, escape_xml_attr, extract_cell_xml, extract_relationship_target,
    extract_sheet_rid, extract_tag_text, parse_shared_strings, probe_cell, probe_column,
    resolve_cell_value, sheet_part_path, unescape_xml_text,
};

const SHEET: &str = "<sheetData><row r=\"1\"><c r=\"M1\" t=\"s\" s=\"3\"><v>1</v></c><c r=\"M2\" t=\"inlineStr\"><is><t>a&amp;b</t></is></c><c r=\"M3\"><f>SUM(A1:A2)</f><v>7</v></c></row></sheetData>";

#[test]
fn sheet_rid_and_target_are_read() {
    let wb = "<sheet name=\"A&amp;B\" sheetId=\"1\" r:id=\"rId3\"/>";
    assert_eq!(extract_sheet_rid(wb, "A&B"), Some("rId3".to_string()));
    assert_eq!(extract_sheet_rid(wb, "C"), None);
    let rels = "<Relationship Id=\"rId3\" Type=\"x\" Target=\"worksheets/sheet3.xml\"/>";
    assert_eq!(extract_relationship_target(rels, "rId3"), Some("worksheets/sheet3.xml".to_string()));
    assert_eq!(sheet_part_path("worksheets/sheet3.xml"), "xl/worksheets/sheet3.xml");
    assert_eq!(sheet_part_path("xl/worksheets/sheet3.xml"), "xl/worksheets/sheet3.xml");
}

#[test]
fn escaping_and_unescaping() {
    assert_eq!(escape_xml_attr("a&\"<>"), "a&amp;&quot;&lt;&gt;");
    assert_eq!(unescape_xml_text("&lt;&amp;lt;&gt;&quot;&apos;"), "<&lt;>\"'");
}

#[test]
fn cells_and_tags_are_extracted() {
    assert_eq!(
        extract_cell_xml(SHEET, "M3"),
        Some("<c r=\"M3\"><f>SUM(A1:A2)</f><v>7</v></c>".to_string())
    );
    assert_eq!(extract_cell_xml(SHEET, "M9"), None);
    assert_eq!(extract_tag_text("<c><f>A1&lt;2</f></c>", "f"), Some("A1<2".to_string()));
    assert_eq!(extract_tag_text("<c><v>1</v></c>", "f"), None);
}

#[test]
fn shared_strings_join_their_runs() {
    assert_eq!(collect_all_t_text("<r><t>ab</t></r><r><t xml:space=\"preserve\"> c&amp;</t></r>"), "ab c&");
    let xml = "<sst><si><t>zero</t></si><si><r><t>o</t></r><r><t>ne</t></r></si></sst>";
    assert_eq!(parse_shared_strings(xml), Ok(vec!["zero".to_string(), "one".to_string()]));
    assert!(parse_shared_strings("<sst><si><t>x</t>").is_err());
}

#[test]
fn shown_values_follow_the_cell_type() {
    let shared = vec!["zero".to_string(), "one".to_string()];
    assert_eq!(resolve_cell_value("s", "1", "", &shared), "one");
    assert_eq!(resolve_cell_value("s", "7", "", &shared), "");
    assert_eq!(resolve_cell_value("s", "x", "", &shared), "");
    assert_eq!(resolve_cell_value("inlineStr", "1", "in", &shared), "in");
    assert_eq!(resolve_cell_value("", "3.5", "in", &shared), "3.5");
}

#[test]
fn a_column_is_probed_row_by_row() {
    let shared = vec!["zero".to_string(), "one".to_string()];
    let m1 = probe_cell(SHEET, "M1", &shared).expect("M1");
    assert_eq!(m1.t_attr, "s");
    assert_eq!(m1.s_attr, "3");
    assert_eq!(m1.resolved, "one");
    let cells = probe_column(SHEET, "M", 5, &shared);
    let refs: Vec<&str> = cells.iter().map(|c| c.cell_ref.as_str()).collect();
    assert_eq!(refs, vec!["M1", "M2", "M3"]);
    assert_eq!(cells[1].resolved, "a&b");
    assert_eq!(cells[2].f_text, "SUM(A1:A2)");
    assert_eq!(cells[2].resolved, "7");
}
