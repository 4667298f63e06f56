use hexboard::resource::{Resource, ResourceGroup};
use hexboard::vertex::BuildType;

#[test]
fn test_add_resource_single() {
    let mut resource_group = ResourceGroup::empty();
    resource_group.add_resource(Resource::Wood, 3);

    assert_eq!(resource_group.get(Resource::Wood), 3);
}

#[test]
fn test_add_assign() {
    let mut resource_group1 = ResourceGroup::empty();
    let mut resource_group2 = ResourceGroup::empty();

    resource_group1.add_resource(Resource::Wood, 3);
    resource_group1.add_resource(Resource::Ore, 1);

    resource_group2.add_resource(Resource::Wood, 2);
    resource_group2.add_resource(Resource::Ore, 2);

    resource_group1 += resource_group2;

    assert_eq!(resource_group1.get(Resource::Wood), 5);
    assert_eq!(resource_group1.get(Resource::Ore), 3);
}

#[test]
fn adding_to_nothing_creates_no_entry() {
    let mut g = ResourceGroup::empty();
    g.add_resource(Resource::Nothing, 5);
    assert_eq!(g, ResourceGroup::empty());
    assert_eq!(g.get(Resource::Nothing), 0);
}

#[test]
fn ledger_addition_commutes_and_associates() {
    let a = ResourceGroup::new(1, 2, 3, 4, 5);
    let b = ResourceGroup::new(-1, 0, 7, 2, 9);
    let c = ResourceGroup::new(4, 4, -2, 0, 1);
    let mut ab = a;
    ab.add_assign(b);
    let mut ba = b;
    ba.add_assign(a);
    assert_eq!(ab, ba);
    let mut ab_c = ab;
    ab_c.add_assign(c);
    let mut bc = b;
    bc.add_assign(c);
    let mut a_bc = a;
    a_bc.add_assign(bc);
    assert_eq!(ab_c, a_bc);
    assert_eq!(ab_c, ResourceGroup::new(4, 6, 8, 6, 15));
}

#[test]
fn overflowing_sum_is_refused() {
    let mut a = ResourceGroup::new(i32::MAX, 0, 0, 0, 0);
    let b = ResourceGroup::new(1, 1, 1, 1, 1);
    assert!(!a.can_absorb(&b));
    a += b;
    assert_eq!(a, ResourceGroup::new(i32::MAX, 0, 0, 0, 0));
}

#[test]
fn building_costs() {
    assert_eq!(BuildType::Settlement.cost(), ResourceGroup::new(0, 1, 1, 1, 1));
    assert_eq!(BuildType::City.cost(), ResourceGroup::new(3, 2, 0, 0, 0));
    assert_eq!(BuildType::Empty.cost(), ResourceGroup::empty());
    assert_eq!(BuildType::City.multiplier(), 2);
    assert_eq!(BuildType::Settlement.multiplier(), 1);
}
