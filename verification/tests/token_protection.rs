use core1_etb::core1::tokens::{
    detect_token_leak, protect_with, restore_with, select_token_table, strip_residual_token_brackets,
};

fn chars(s: &str) -> Vec<char> {
    s.chars().collect()
}

fn text(v: &[char]) -> String {
    v.iter().collect()
}

#[test]
fn protect_then_restore_gives_the_text_back() {
    let src = chars("行1\n行2\u{3000}end\n");
    let idx = select_token_table(&src).expect("a free table");
    assert_eq!(idx, 0);
    let sent = protect_with(&src, idx);
    assert_eq!(text(&sent), "行1\u{27E6}NL\u{27E7}行2 end\u{27E6}NL\u{27E7}");
    let back = restore_with(&sent, idx);
    assert_eq!(text(&back), "行1\n行2 end\n");
}

#[test]
fn a_text_holding_the_first_token_uses_the_second_table() {
    let src = chars("a\u{27E6}NL\u{27E7}b\nc");
    assert_eq!(select_token_table(&src), Some(1));
    let sent = protect_with(&src, 1);
    assert_eq!(text(&sent), "a\u{27E6}NL\u{27E7}b\u{2983}NL\u{2984}c");
    assert_eq!(text(&restore_with(&sent, 1)), "a\u{27E6}NL\u{27E7}b\nc");
}

#[test]
fn no_table_is_free_when_all_tokens_occur() {
    let src = chars("\u{27E6}NL\u{27E7}\u{2983}NL\u{2984}\u{301A}NL\u{301B}");
    assert_eq!(select_token_table(&src), None);
}

#[test]
fn a_lost_line_break_is_reported() {
    let msg = detect_token_leak(&chars("a\nb\nc"), &chars("a\nb c")).expect("a leak");
    assert!(msg.contains("1/2"));
    assert_eq!(detect_token_leak(&chars("a\nb"), &chars("a\nb")), None);
}

#[test]
fn residual_brackets_are_stripped() {
    let out = strip_residual_token_brackets(&chars("x\u{27E6}y\u{301B}z"));
    assert_eq!(text(&out), "xyz");
}

#[test]
fn an_unchanged_answer_is_no_leak() {
    let src = chars("a\nb\u{3000}\nc");
    let idx = select_token_table(&src).expect("a free table");
    let back = restore_with(&protect_with(&src, idx), idx);
    assert_eq!(detect_token_leak(&src, &back), None);
}
