use core1_etb::core2::formula_text::{
    contains_japanese_like, extract_quoted_literals, is_formula_text, reassemble_formula,
    split_preserving_structure,
};

#[test]
fn split_keeps_text_and_alternates() {
    let segs = split_preserving_structure("ABC東京、DEF。");
    let texts: Vec<(String, bool)> = segs.iter().map(|s| (s.text.clone(), s.target)).collect();
    assert_eq!(
        texts,
        vec![
            ("ABC".to_string(), false),
            ("東京、".to_string(), true),
            ("DEF。".to_string(), false),
        ]
    );
    assert!(split_preserving_structure("").is_empty());
}

#[test]
fn extract_and_reassemble_round_trip() {
    let (template, lits) = extract_quoted_literals("=IF(A1>0,\"東京\",\"say \"\"hi\"\"\")");
    assert_eq!(lits, vec!["東京".to_string(), "say \"hi\"".to_string()]);
    assert_eq!(template, "=IF(A1>0,\u{E020}0\u{E021},\u{E020}1\u{E021})");
    let back = reassemble_formula(&template, &lits);
    assert_eq!(back, "=IF(A1>0,\"東京\",\"say \"\"hi\"\"\")");
    let translated = vec!["东京".to_string(), "x".to_string()];
    assert_eq!(reassemble_formula(&template, &translated), "=IF(A1>0,\"东京\",\"x\")");
}

#[test]
fn unclosed_literal_is_closed_on_reassembly() {
    let (template, lits) = extract_quoted_literals("=\"abc");
    assert_eq!(lits, vec!["abc".to_string()]);
    assert_eq!(reassemble_formula(&template, &lits), "=\"abc\"");
}

#[test]
fn missing_literal_index_gives_empty_quotes() {
    assert_eq!(reassemble_formula("=\u{E020}7\u{E021}", &[]), "=\"\"");
    assert_eq!(reassemble_formula("=\u{E020}+0\u{E021}", &["a".to_string()]), "=\"a\"");
}

#[test]
fn formula_and_japanese_detection() {
    assert!(is_formula_text("  =SUM(A1)"));
    assert!(!is_formula_text("SUM(A1)"));
    assert!(contains_japanese_like("abcカ"));
    assert!(!contains_japanese_like("abc"));
}
