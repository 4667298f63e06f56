use hexboard::axial::Axial;
use hexboard::edge::PathCoords;

#[test]
fn test_path_coords_equality() {
    let coords1 = PathCoords::new(Axial::new(1, 2), Axial::new(3, 4));
    let coords2 = PathCoords::new(Axial::new(3, 4), Axial::new(1, 2));
    assert_eq!(coords1, coords2);
}

#[test]
fn test_path_coords_hash_equality() {
    let coords1 = PathCoords::new(Axial::new(1, 2), Axial::new(3, 4));
    let coords2 = PathCoords::new(Axial::new(3, 4), Axial::new(1, 2));

    let mut map = std::collections::HashMap::new();
    map.insert(coords1.clone(), "Hello");

    assert_eq!(map.get(&coords2), Some(&"Hello"));
}

#[test]
fn path_coords_store_smaller_end_first() {
    let coords = PathCoords::new(Axial::new(3, 4), Axial::new(1, 2));
    assert_eq!(coords.a, Axial::new(1, 2));
    assert_eq!(coords.b, Axial::new(3, 4));
    assert!(coords.contains(Axial::new(3, 4)));
    assert!(!coords.contains(Axial::new(3, 3)));
}
