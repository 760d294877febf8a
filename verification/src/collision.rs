use vstd::prelude::*;

verus! {

/// The kinds of things that something collides with, one bit per kind.
#[derive(Debug, Clone, Copy, PartialEq, Eq, Structural)]
pub struct CollisionFlags {
    bits: u32,
}

impl CollisionFlags {
    /// The bit pattern of the set.
    pub closed spec fn view(&self) -> u32 {
        self.bits
    }

    /// The level's geometry and the things that stand for it.
    pub fn environment() -> (result: CollisionFlags)
        ensures
            result@ == 1,
    {
        CollisionFlags { bits: 0b00000001 }
    }

    /// Only the player.
    pub fn player_only() -> (result: CollisionFlags)
        ensures
            result@ == 2,
    {
        CollisionFlags { bits: 0b00000010 }
    }

    /// The set with no kind in it.
    pub fn empty() -> (result: CollisionFlags)
        ensures
            result@ == 0,
    {
        CollisionFlags { bits: 0 }
    }

    /// The kinds that are in either set.
    pub fn union(self, other: CollisionFlags) -> (result: CollisionFlags)
        ensures
            result@ == self@ | other@,
    {
        CollisionFlags { bits: self.bits | other.bits }
    }

    /// Whether the set holds no kind.
    pub fn is_empty(&self) -> (result: bool)
        ensures
            result == (self@ == 0),
    {
        self.bits == 0
    }

    /// Whether two things with these flags can collide: whether the sets have
    /// a kind in common.
    pub fn intersects(&self, other: CollisionFlags) -> (result: bool)
        ensures
            result == (self@ & other@ != 0),
    {
        self.bits & other.bits != 0
    }
}

impl Default for CollisionFlags {
    fn default() -> (result: CollisionFlags)
        ensures
            result@ == 1,
    {
        CollisionFlags::environment()
    }
}

/// After this many displacements of one entity in one frame, collision
/// resolution assumes it is stuck and gives up.
pub const MAX_DISPLACEMENTS_PER_FRAME: u32 = 30;

/// How a run of collision resolution ended: how many displacements it made,
/// and whether it gave up.
#[derive(Debug, Clone, Copy, PartialEq, Eq, Structural)]
pub struct CollisionResolutionResult {
    pub displacements: u32,
    pub aborted: bool,
}

/// Calls `resolve_collisions` with 0, 1, 2, ... (the number of displacements
/// made so far) for as long as it reports a displacement, and gives up once it
/// has reported more than `MAX_DISPLACEMENTS_PER_FRAME` of them. Every call
/// before the last reported a displacement; unless it gave up, the last call
/// reported none.
pub fn collision_resolution_loop<F: FnMut(u32) -> bool>(resolve_collisions: F) -> (result:
    CollisionResolutionResult)
    requires
        forall|d: u32| call_requires(resolve_collisions, (d,)),
    ensures
        result.displacements <= MAX_DISPLACEMENTS_PER_FRAME + 1,
        result.aborted == (result.displacements == MAX_DISPLACEMENTS_PER_FRAME + 1),
        forall|d: u32|
            d < result.displacements ==> call_ensures(resolve_collisions, (d,), true),
        !result.aborted ==> call_ensures(resolve_collisions, (result.displacements,), false),
{
    broadcast use vstd::function::group_function_axioms;

    let ghost start = resolve_collisions;
    let mut resolve = resolve_collisions;
    let mut displacements: u32 = 0;
    loop
        invariant
            displacements <= MAX_DISPLACEMENTS_PER_FRAME,
            resolve == start,
            start == resolve_collisions,
            forall|d: u32| call_requires(resolve, (d,)),
            forall|d: u32| d < displacements ==> call_ensures(start, (d,), true),
        decreases MAX_DISPLACEMENTS_PER_FRAME - displacements,
    {
        let displacement_occurred = resolve(displacements);
        if !displacement_occurred {
            return CollisionResolutionResult { displacements, aborted: false };
        }
        assert(call_ensures(start, (displacements,), true));
        displacements = displacements + 1;
        if displacements > MAX_DISPLACEMENTS_PER_FRAME {
            return CollisionResolutionResult { displacements, aborted: true };
        }
    }
}

} // verus!
