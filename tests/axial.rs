use hexboard::axial::{are_adjacent, neighbors, offset, Axial};

#[test]
fn neighbors_are_six_distinct_and_symmetric() {
    let a = Axial::new(2, -3);
    let ns = neighbors(a);
    for i in 0..6 {
        for j in 0..6 {
            if i != j {
                assert_ne!(ns[i], ns[j]);
            }
        }
        assert!(neighbors(ns[i]).contains(&a));
        assert!(are_adjacent(a, ns[i]));
    }
    assert_eq!(ns[0], Axial::new(3, -3));
    assert!(!are_adjacent(a, a));
    assert!(!are_adjacent(a, Axial::new(3, -2)));
}

#[test]
fn add_and_order() {
    assert_eq!(Axial::new(1, 2).add(offset(2)), Axial::new(0, 3));
    assert!(Axial::new(0, 5).less_than(&Axial::new(1, -5)));
    assert!(Axial::new(1, 2).less_than(&Axial::new(1, 3)));
    assert!(!Axial::new(1, 3).less_than(&Axial::new(1, 3)));
}
