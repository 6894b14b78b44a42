use quant_planet::matter::{base_matter, base_matter_at, random_base_matter, QuantType, QUANT_TYPE_COUNT};

#[test]
fn quant_type_ids() {
    assert_eq!(QuantType::Stone.id(), 0);
    assert_eq!(QuantType::Water.id(), 1);
    assert_eq!(QUANT_TYPE_COUNT, 2);
}

#[test]
fn quant_type_from_known_ids() {
    assert_eq!(QuantType::from_id(0), Some(QuantType::Stone));
    assert_eq!(QuantType::from_id(1), Some(QuantType::Water));
}

#[test]
fn quant_type_from_unknown_ids() {
    assert_eq!(QuantType::from_id(2), None);
    assert_eq!(QuantType::from_id(7), None);
    assert_eq!(QuantType::from_id(u32::MAX), None);
}

#[test]
fn quant_type_round_trip() {
    for t in [QuantType::Stone, QuantType::Water] {
        assert_eq!(QuantType::from_id(t.id()), Some(t));
    }
}

#[test]
fn base_matter_order() {
    assert_eq!(base_matter(), vec![0, 1]);
}

#[test]
fn random_base_matter_is_known() {
    let mut seen = [false; 2];
    for _ in 0..1000 {
        let id = random_base_matter();
        assert!(id < 2);
        assert!(QuantType::from_id(id).is_some());
        seen[id as usize] = true;
    }
    // both kinds come up over many draws
    assert!(seen[0] && seen[1]);
}

#[test]
fn base_matter_at_each_place() {
    assert_eq!(base_matter_at(0), QuantType::Stone.id());
    assert_eq!(base_matter_at(1), QuantType::Water.id());
}
