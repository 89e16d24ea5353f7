use mosaic::atlas::{atlas, glyph_ink};

#[test]
fn every_codepoint_is_a_valid_char() {
    for g in atlas() {
        assert!(char::from_u32(g.codepoint).is_some(), "bad codepoint {:#x}", g.codepoint);
    }
}

#[test]
fn atlas_anchors_density_extremes() {
    let a = atlas();
    assert_eq!(a.len(), 16);
    assert_eq!(a[0].codepoint, 0x20);
    assert_eq!(a[a.len() - 1].codepoint, 0x2588);
    // The vertical bar has ink in its middle columns only.
    let bar = a.iter().find(|g| g.codepoint == 0x7C).unwrap();
    assert!(glyph_ink(bar, 0, 3) && glyph_ink(bar, 0, 4));
    assert!(!glyph_ink(bar, 0, 0) && !glyph_ink(bar, 7, 7));
}
