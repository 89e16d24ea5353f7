use mosaic::compose::{compose_codepoints, check_explicit_coverage, derived_coverage, CoverageMode, Placement, RenderError};

#[test]
fn explicit_coverage_is_required_and_sized() {
    assert_eq!(check_explicit_coverage(None, 3, 1), Err(RenderError::MissingExplicitCoverage));
    assert_eq!(
        check_explicit_coverage(Some(2), 3, 1),
        Err(RenderError::CoverageSizeMismatch { expected: 3, got: 2 })
    );
    assert_eq!(check_explicit_coverage(Some(3), 3, 1), Ok(()));
    assert_eq!(
        RenderError::CoverageSizeMismatch { expected: 3, got: 2 }.to_display_string(),
        "explicit coverage has 2 cells, expected 3"
    );
}

#[test]
fn derived_coverage_keys_on_a_token() {
    let tokens = vec![66, 32, 66];
    assert_eq!(derived_coverage(CoverageMode::Opaque, 3, 1, &tokens), Some(vec![true; 3]));
    assert_eq!(
        derived_coverage(CoverageMode::KeyedOn { token: 32 }, 3, 1, &tokens),
        Some(vec![true, false, true])
    );
    assert_eq!(derived_coverage(CoverageMode::Explicit, 3, 1, &tokens), None);
    assert_eq!(CoverageMode::default(), CoverageMode::Opaque);
    let p = Placement::default();
    assert_eq!((p.row, p.col), (0, 0));
}

#[test]
fn composed_grid_is_row_major_with_breaks_between_rows() {
    let tokens: Vec<u32> = "ABCDEF".chars().map(|c| c as u32).collect();
    assert_eq!(compose_codepoints(3, 2, &tokens), "ABC\nDEF");
    assert_eq!(compose_codepoints(0, 0, &vec![]), "");
    assert_eq!(compose_codepoints(2, 1, &vec![0xE9, 0x2588]), "é█");
}

#[test]
fn untrusted_tokens_are_masked() {
    let tokens = vec![0x07, 0x202E, 0xD800, 0x11_0000, 0x7F, 0x9F, 0x41, 0x2066];
    assert_eq!(
        compose_codepoints(8, 1, &tokens),
        "\u{FFFD}\u{FFFD}\u{FFFD}\u{FFFD}\u{FFFD}\u{FFFD}A\u{FFFD}"
    );
}
