//! Resource kinds and the counted bag of them that players and the bank hold.
use vstd::prelude::*;

verus! {

/// A hex's product. `Nothing` is the product of the desert and is never counted.
#[derive(Clone, Copy, Debug, Hash, PartialEq, Eq, Structural)]
pub enum Resource {
    Nothing,
    Ore,
    Wheat,
    Sheep,
    Brick,
    Wood,
}

/// The five kinds that a ledger counts.
pub open spec fn tradeable(k: Resource) -> bool {
    k != Resource::Nothing
}

/// A ledger: one signed count for each of the five tradeable kinds, always all present.
#[derive(Clone, Copy, Debug, PartialEq, Eq, Structural)]
pub struct ResourceGroup {
    pub ore: i32,
    pub wheat: i32,
    pub sheep: i32,
    pub brick: i32,
    pub wood: i32,
}

/// The count that `g` holds of `k` (zero for `Nothing`, which it does not hold).
pub open spec fn count_of(g: ResourceGroup, k: Resource) -> int {
    match k {
        Resource::Ore => g.ore as int,
        Resource::Wheat => g.wheat as int,
        Resource::Sheep => g.sheep as int,
        Resource::Brick => g.brick as int,
        Resource::Wood => g.wood as int,
        Resource::Nothing => 0,
    }
}

/// Entrywise sum of two ledgers' views.
pub open spec fn merged(x: Map<Resource, int>, y: Map<Resource, int>) -> Map<Resource, int> {
    Map::new(|k: Resource| tradeable(k), |k: Resource| x[k] + y[k])
}

/// A ledger view with `amount` added to the entry of `k`, if `k` has one.
pub open spec fn credited(x: Map<Resource, int>, k: Resource, amount: int) -> Map<Resource, int> {
    if x.dom().contains(k) {
        x.insert(k, x[k] + amount)
    } else {
        x
    }
}

impl View for ResourceGroup {
    type V = Map<Resource, int>;

    open spec fn view(&self) -> Map<Resource, int> {
        Map::new(|k: Resource| tradeable(k), |k: Resource| count_of(*self, k))
    }
}

/// Whether adding `amount` to every entry of `g` that `k` selects stays within `i32`.
pub open spec fn fits(g: ResourceGroup, k: Resource, amount: int) -> bool {
    i32::MIN <= count_of(g, k) + amount <= i32::MAX
}

impl ResourceGroup {
    /// A ledger with a zero entry for every kind.
    pub fn empty() -> (res: Self)
        ensures
            res@.dom() == Set::new(|k: Resource| tradeable(k)),
            forall|k: Resource| tradeable(k) ==> res@[k] == 0,
            res == Self::new_spec(0, 0, 0, 0, 0),
    {
        ResourceGroup::new(0, 0, 0, 0, 0)
    }

    /// The ledger that holds exactly the given counts.
    pub open spec fn new_spec(ore: i32, wheat: i32, sheep: i32, brick: i32, wood: i32) -> Self {
        ResourceGroup { ore, wheat, sheep, brick, wood }
    }

    /// A ledger with the given counts.
    pub fn new(ore: i32, wheat: i32, sheep: i32, brick: i32, wood: i32) -> (res: Self)
        ensures
            res == Self::new_spec(ore, wheat, sheep, brick, wood),
    {
        ResourceGroup { ore, wheat, sheep, brick, wood }
    }

    /// The count held of `kind`; zero for `Resource::Nothing`.
    pub fn get(&self, kind: Resource) -> (res: i32)
        ensures
            res == count_of(*self, kind),
    {
        match kind {
            Resource::Ore => self.ore,
            Resource::Wheat => self.wheat,
            Resource::Sheep => self.sheep,
            Resource::Brick => self.brick,
            Resource::Wood => self.wood,
            Resource::Nothing => 0,
        }
    }

    /// Adds `amount` to the existing entry of `resource_type`; never creates an entry.
    pub fn add_resource(&mut self, resource_type: Resource, amount: i32)
        requires
            fits(*old(self), resource_type, amount as int),
        ensures
            final(self)@ == credited(old(self)@, resource_type, amount as int),
            final(self)@.dom() == old(self)@.dom(),
            forall|k: Resource| #[trigger] count_of(*final(self), k) == count_of(*old(self), k) + if k
                == resource_type && tradeable(k) { amount as int } else { 0 },
    {
        match resource_type {
            Resource::Ore => self.ore = self.ore + amount,
            Resource::Wheat => self.wheat = self.wheat + amount,
            Resource::Sheep => self.sheep = self.sheep + amount,
            Resource::Brick => self.brick = self.brick + amount,
            Resource::Wood => self.wood = self.wood + amount,
            Resource::Nothing => {},
        }
        assert(final(self)@ =~= credited(old(self)@, resource_type, amount as int));
    }

    /// The number of cards held: the sum of the five counts.
    pub open spec fn hand_size(&self) -> int {
        self.ore + self.wheat + self.sheep + self.brick + self.wood
    }

    /// The number of cards held.
    pub fn total(&self) -> (res: i64)
        ensures
            res == self.hand_size(),
    {
        self.ore as i64 + self.wheat as i64 + self.sheep as i64 + self.brick as i64 + self.wood as i64
    }

    /// Whether every entry of `self` plus the same entry of `rhs` stays within `i32`.
    pub fn can_absorb(&self, rhs: &ResourceGroup) -> (res: bool)
        ensures
            res == forall|k: Resource| fits(*self, k, count_of(*rhs, k)),
    {
        let lo = i32::MIN as i64;
        let hi = i32::MAX as i64;
        let o = self.ore as i64 + rhs.ore as i64;
        let w = self.wheat as i64 + rhs.wheat as i64;
        let s = self.sheep as i64 + rhs.sheep as i64;
        let b = self.brick as i64 + rhs.brick as i64;
        let d = self.wood as i64 + rhs.wood as i64;
        let res = lo <= o && o <= hi && lo <= w && w <= hi && lo <= s && s <= hi && lo <= b && b
            <= hi && lo <= d && d <= hi;
        proof {
            if !res {
                if !(lo <= o && o <= hi) {
                    assert(!fits(*self, Resource::Ore, count_of(*rhs, Resource::Ore)));
                } else if !(lo <= w && w <= hi) {
                    assert(!fits(*self, Resource::Wheat, count_of(*rhs, Resource::Wheat)));
                } else if !(lo <= s && s <= hi) {
                    assert(!fits(*self, Resource::Sheep, count_of(*rhs, Resource::Sheep)));
                } else if !(lo <= b && b <= hi) {
                    assert(!fits(*self, Resource::Brick, count_of(*rhs, Resource::Brick)));
                } else {
                    assert(!fits(*self, Resource::Wood, count_of(*rhs, Resource::Wood)));
                }
            }
        }
        res
    }

    /// Entrywise sum of `rhs` into `self`.
    pub fn add_assign(&mut self, rhs: ResourceGroup)
        requires
            forall|k: Resource| fits(*old(self), k, count_of(rhs, k)),
        ensures
            final(self)@ == merged(old(self)@, rhs@),
            forall|k: Resource| #[trigger] count_of(*final(self), k) == count_of(*old(self), k) + count_of(rhs, k),
    {
        proof {
            assert(fits(*old(self), Resource::Ore, count_of(rhs, Resource::Ore)));
            assert(fits(*old(self), Resource::Wheat, count_of(rhs, Resource::Wheat)));
            assert(fits(*old(self), Resource::Sheep, count_of(rhs, Resource::Sheep)));
            assert(fits(*old(self), Resource::Brick, count_of(rhs, Resource::Brick)));
            assert(fits(*old(self), Resource::Wood, count_of(rhs, Resource::Wood)));
        }
        self.ore = self.ore + rhs.ore;
        self.wheat = self.wheat + rhs.wheat;
        self.sheep = self.sheep + rhs.sheep;
        self.brick = self.brick + rhs.brick;
        self.wood = self.wood + rhs.wood;
        assert(final(self)@ =~= merged(old(self)@, rhs@));
    }
}

impl std::ops::AddAssign<ResourceGroup> for ResourceGroup {
    /// Entrywise sum. A sum that would leave `i32` is refused as a whole and leaves
    /// `self` as it is; callers that must know test `can_absorb` first.
    fn add_assign(&mut self, rhs: ResourceGroup)
        ensures
            (forall|k: Resource| fits(*old(self), k, count_of(rhs, k))) ==> final(self)@ == merged(
                old(self)@,
                rhs@,
            ),
            (forall|k: Resource| fits(*old(self), k, count_of(rhs, k))) ==> forall|k: Resource|
                #[trigger] count_of(*final(self), k) == count_of(*old(self), k) + count_of(rhs, k),
            !(forall|k: Resource| fits(*old(self), k, count_of(rhs, k))) ==> *final(self) == *old(self),
    {
        if self.can_absorb(&rhs) {
            ResourceGroup::add_assign(self, rhs);
        }
    }
}

/// Adding ledgers is commutative and associative, and keeps the five-entry key set.
pub proof fn lemma_merge_commutative_associative(a: ResourceGroup, b: ResourceGroup, c: ResourceGroup)
    ensures
        merged(a@, b@) == merged(b@, a@),
        merged(merged(a@, b@), c@) == merged(a@, merged(b@, c@)),
        merged(a@, b@).dom() == a@.dom(),
{
    assert(merged(a@, b@) =~= merged(b@, a@));
    assert(merged(merged(a@, b@), c@) =~= merged(a@, merged(b@, c@)));
    assert(merged(a@, b@).dom() =~= a@.dom());
}

/// Adding to a kind that a ledger has no entry for leaves it as it is: the key set
/// never grows.
pub proof fn lemma_credit_keeps_keys(g: ResourceGroup, k: Resource, amount: int)
    ensures
        credited(g@, k, amount).dom() == g@.dom(),
        !tradeable(k) ==> credited(g@, k, amount) == g@,
{
}

} // verus!
