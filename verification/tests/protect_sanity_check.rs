use core1_etb::protect_sanity_check::{locked_gray, protection_password, style_for_row, unlocked_orange};

#[test]
fn styles_of_the_check_sheet() {
    let g = locked_gray();
    assert!(g.locked);
    assert_eq!(g.fill_argb, "FFE7E6E6");
    let o = unlocked_orange();
    assert!(!o.locked);
    assert_eq!(o.fill_argb, "FFFFF2CC");
    for row in 1..=5u32 {
        assert_eq!(style_for_row(row).locked, !(row == 3 || row == 4));
    }
}

#[test]
fn password_falls_back_in_order() {
    assert_eq!(protection_password(Some("pw".to_string()), Some("x".to_string())), "pw");
    assert_eq!(protection_password(Some("  ".to_string()), Some("x".to_string())), "x");
    assert_eq!(protection_password(None, Some(" ".to_string())), "ETB_PROTECT");
    assert_eq!(protection_password(None, None), "ETB_PROTECT");
}
