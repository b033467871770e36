use core1_etb::core2::apply_workbook_writer::col_index_to_letters;
use core1_etb::core2::shared_formula_apply_patch::{
    extract_shared_formula_master_cells, extract_shared_formula_template_for_master,
    patch_sheet_xml_shared_groups, resolve_sheet_infos, sheet_path_for, SharedFormulaTemplateWithBody,
};
use core1_etb::core2::shared_formula_reader::{parse_formula_cells, resolve_shared_formula_follower};
use core1_etb::core2::source_workbook_reader::{col_to_letters, parse_cell_ref};

const SHEET: &str = "<sheetData><row r=\"1\"><c r=\"A1\"><f t=\"shared\" ref=\"A1:A2\" si=\"0\">B1*2</f><v>2</v></c><c r=\"B1\" s=\"1\"/></row><row r=\"2\"><c r=\"A2\"><f t=\"shared\" si=\"0\"/><v>4</v></c></row></sheetData>";

#[test]
fn follower_formula_is_shifted_by_the_anchor_offset() {
    assert_eq!(resolve_shared_formula_follower("=A1+B$2", "A1", "B3"), Ok("=B3+C$2".to_string()));
    assert_eq!(resolve_shared_formula_follower("$A$1*2", "C5", "D9"), Ok("=$A$1*2".to_string()));
    assert_eq!(resolve_shared_formula_follower("\"A1\"&A1", "A1", "A2"), Ok("=\"A1\"&A2".to_string()));
}

#[test]
fn follower_resolution_reports_a_bad_anchor() {
    assert!(resolve_shared_formula_follower("=A1", "1A", "B2").is_err());
}

#[test]
fn column_letters_and_numbers_round_trip() {
    for n in [1u32, 2, 26, 27, 52, 53, 702, 703, 16384] {
        let letters = col_to_letters(n);
        assert_eq!(col_index_to_letters(n), letters);
        let (row, col) = parse_cell_ref(&format!("{letters}7")).expect("a cell ref");
        assert_eq!(col, n as usize);
        assert_eq!(row, 7);
    }
    assert_eq!(col_to_letters(28), "AB");
    assert_eq!(col_to_letters(0), "");
}

#[test]
fn formula_cells_mark_masters_and_resolve_followers() {
    let cells = parse_formula_cells(SHEET);
    let a1 = &cells.iter().find(|(k, _)| k == "A1").expect("A1").1;
    assert!(a1.is_shared_parent);
    assert_eq!(a1.formula_text, "B1*2");
    let a2 = &cells.iter().find(|(k, _)| k == "A2").expect("A2").1;
    assert!(a2.is_shared_follower);
    assert_eq!(a2.shared_index.as_deref(), Some("0"));
    assert_eq!(a2.resolved_formula_text.as_deref(), Some("=B2*2"));
    assert!(cells.iter().all(|(k, _)| k != "B1"));
}

#[test]
fn masters_and_templates_are_found() {
    assert_eq!(extract_shared_formula_master_cells(SHEET), Ok(vec!["A1".to_string()]));
    let t = extract_shared_formula_template_for_master(SHEET, "A1").expect("no error").expect("a template");
    assert_eq!(t.ref_range, "A1:A2");
    assert_eq!(t.si, "0");
    assert!(extract_shared_formula_template_for_master(SHEET, "A2").expect("no error").is_none());
}

#[test]
fn a_group_is_rewritten_master_and_followers() {
    let patch = SharedFormulaTemplateWithBody {
        master_cell: "A1".to_string(),
        ref_range: "A1:A2".to_string(),
        si: "0".to_string(),
        formula_body: "B1<3".to_string(),
    };
    let out = patch_sheet_xml_shared_groups(SHEET, &[patch]).expect("patched");
    assert_eq!(
        out,
        "<sheetData><row r=\"1\"><c r=\"A1\"><f t=\"shared\" ref=\"A1:A2\" si=\"0\">B1&lt;3</f><v>2</v></c><c r=\"B1\" s=\"1\"/></row><row r=\"2\"><c r=\"A2\"><f t=\"shared\" si=\"0\"></f><v>4</v></c></row></sheetData>"
    );
}

#[test]
fn no_group_leaves_the_sheet_as_it_was() {
    assert_eq!(patch_sheet_xml_shared_groups(SHEET, &[]), Ok(SHEET.to_string()));
}

#[test]
fn a_bad_range_is_an_error() {
    let patch = SharedFormulaTemplateWithBody {
        master_cell: "A1".to_string(),
        ref_range: "A1".to_string(),
        si: "0".to_string(),
        formula_body: "1".to_string(),
    };
    assert!(patch_sheet_xml_shared_groups(SHEET, &[patch]).is_err());
}

#[test]
fn sheets_are_resolved_through_the_relationships() {
    let wb = "<sheets><sheet name=\"Main\" sheetId=\"1\" r:id=\"rId1\"/><sheet name=\"Sub\" sheetId=\"2\" r:id=\"rId2\"/></sheets>";
    let rels = "<Relationship Id=\"rId1\" Target=\"worksheets/sheet1.xml\"/><Relationship Id=\"rId2\" Target=\"/xl/worksheets/sheet2.xml\"/>";
    let infos = resolve_sheet_infos(wb, rels).expect("infos");
    assert_eq!(infos.len(), 2);
    assert_eq!(infos[0].name, "Main");
    assert_eq!(infos[0].path, "xl/worksheets/sheet1.xml");
    assert_eq!(infos[1].path, "xl/worksheets/sheet2.xml");
    assert_eq!(sheet_path_for(&infos, "Sub"), Ok("xl/worksheets/sheet2.xml".to_string()));
    assert!(sheet_path_for(&infos, "None").is_err());
}

#[test]
fn a_rewritten_formula_reads_back_as_written() {
    let body = "IF(A1<B1,\"x&y\",\"&lt;\")>0";
    let patch = SharedFormulaTemplateWithBody {
        master_cell: "A1".to_string(),
        ref_range: "A1:A2".to_string(),
        si: "0".to_string(),
        formula_body: body.to_string(),
    };
    let out = patch_sheet_xml_shared_groups(SHEET, &[patch]).expect("patched");
    let cells = parse_formula_cells(&out);
    let a1 = &cells.iter().find(|(k, _)| k == "A1").expect("A1").1;
    assert_eq!(a1.formula_text, body);
    assert!(a1.is_shared_parent);
}
