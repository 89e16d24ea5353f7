use mosaic::feature::{FeatureField, FeatureSchema, FeatureType, Gather};

#[test]
fn feature_buffer_stride_sums_field_slots() {
    let schema = FeatureSchema {
        fields: vec![
            FeatureField { key: "luminance".into(), ty: FeatureType::Scalar, gather: Gather::SelfOnly },
            FeatureField {
                key: "gradient".into(),
                ty: FeatureType::Vector { len: 2 },
                gather: Gather::Neighborhood { radius: 1 },
            },
            FeatureField {
                key: "patch".into(),
                ty: FeatureType::Patch { rows: 4, cols: 4 },
                gather: Gather::SelfOnly,
            },
        ],
    };
    assert_eq!(schema.total_slots(), 1 + 2 + 16);
    assert_eq!(schema.max_radius(), 1);
}

#[test]
fn schema_invariants_hold_over_random_fields() {
    let mut state: u64 = 0xDEAD_BEEF_CAFE_F00D;
    let mut next = || {
        state ^= state << 13;
        state ^= state >> 7;
        state ^= state << 17;
        (state >> 40) as u16
    };
    for _ in 0..500 {
        let n = (next() % 8) as usize;
        let mut fields = Vec::new();
        let mut expect_slots = 0u32;
        let mut expect_radius = 0u16;
        for i in 0..n {
            let ty = match next() % 3 {
                0 => FeatureType::Scalar,
                1 => FeatureType::Vector { len: 1 + next() % 8 },
                _ => FeatureType::Patch { rows: 1 + next() % 8, cols: 1 + next() % 8 },
            };
            let radius = next() % 4;
            let gather = if radius == 0 { Gather::SelfOnly } else { Gather::Neighborhood { radius } };
            expect_slots += ty.slots();
            expect_radius = expect_radius.max(radius);
            fields.push(FeatureField { key: format!("f{i}"), ty, gather });
        }
        let schema = FeatureSchema { fields };
        assert_eq!(schema.total_slots(), expect_slots);
        assert_eq!(schema.max_radius(), expect_radius);
    }
}

#[test]
fn slots_and_radius_of_each_shape() {
    assert_eq!(FeatureType::Scalar.slots(), 1);
    assert_eq!(FeatureType::Vector { len: 3 }.slots(), 3);
    assert_eq!(FeatureType::Patch { rows: 65535, cols: 65535 }.slots(), 65535 * 65535);
    assert_eq!(Gather::SelfOnly.radius(), 0);
    assert_eq!(Gather::Neighborhood { radius: 7 }.radius(), 7);
    let empty = FeatureSchema { fields: vec![] };
    assert_eq!(empty.total_slots(), 0);
    assert_eq!(empty.max_radius(), 0);
}
