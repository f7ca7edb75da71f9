use maxhell::{
    AtomOperation, AtomPrimitiveType, AtomicCasPrimitiveType, AtomsCasOperation, AtomsOperation,
    AtomsPrimitiveType, AttributeLoadMode, ControlCode,
};

#[test]
fn control_code_round_trips_every_valid_value() {
    for v in 0u8..=31 {
        let c = ControlCode::from_raw(v).unwrap();
        assert!(c.is_valid());
        assert_eq!(c.raw(), v);
    }
    assert_eq!(ControlCode::from_raw(15), Some(ControlCode::TRUE));
    assert_eq!(ControlCode::from_raw(0), Some(ControlCode::FALSE));
    assert_eq!(ControlCode::from_raw(32), None);
    assert_eq!(ControlCode::from_raw(255), None);
}

#[test]
fn unexplained_control_codes_stay_raw() {
    let c = ControlCode::from_raw(16).unwrap();
    assert_eq!(c, ControlCode::Raw(16));
    assert_ne!(c, ControlCode::TRUE);
    assert_ne!(c, ControlCode::FALSE);
    assert!(ControlCode::Raw(16).is_valid());
    assert!(ControlCode::Raw(31).is_valid());
    assert!(!ControlCode::Raw(15).is_valid());
    assert!(!ControlCode::Raw(32).is_valid());
}

#[test]
fn attribute_modes_round_trip() {
    for m in [AttributeLoadMode::M32, AttributeLoadMode::M64, AttributeLoadMode::M96, AttributeLoadMode::M128] {
        assert_eq!(AttributeLoadMode::from_raw(m.raw()), Some(m));
    }
    assert_eq!(AttributeLoadMode::M128.raw(), 3);
    assert_eq!(AttributeLoadMode::from_raw(4), None);
}

#[test]
fn atomic_domains_round_trip() {
    for v in 0u8..=255 {
        if let Some(x) = AtomsOperation::from_raw(v) {
            assert_eq!(x.raw(), v);
        }
        if let Some(x) = AtomOperation::from_raw(v) {
            assert_eq!(x.raw(), v);
        }
        if let Some(x) = AtomsPrimitiveType::from_raw(v) {
            assert_eq!(x.raw(), v);
        }
        if let Some(x) = AtomPrimitiveType::from_raw(v) {
            assert_eq!(x.raw(), v);
        }
        if let Some(x) = AtomicCasPrimitiveType::from_raw(v) {
            assert_eq!(x.raw(), v);
        }
        if let Some(x) = AtomsCasOperation::from_raw(v) {
            assert_eq!(x.raw(), v);
        }
    }
    assert_eq!(AtomOperation::SAFE_ADD.raw(), 10);
    assert_eq!(AtomOperation::from_raw(9), None);
    assert_eq!(AtomsOperation::from_raw(10), None);
    assert_eq!(AtomsOperation::EXCH.raw(), 8);
    assert_eq!(AtomsCasOperation::from_raw(3), None);
    assert_eq!(AtomicCasPrimitiveType::from_raw(2), None);
}
