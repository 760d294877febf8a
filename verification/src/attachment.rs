use vstd::prelude::*;

verus! {

/// Marks an entity that others can ride on.
#[derive(Debug, Clone, Copy)]
pub struct AttachableComponent();

/// An entity that another could attach to: its id, whether it can carry
/// others, and whether it overlaps the would-be passenger.
#[derive(Debug, Clone, Copy)]
pub struct AttachCandidate {
    pub id: u64,
    pub attachable: bool,
    pub overlaps: bool,
}

/// After this many frames in a row in which an attached passenger was
/// displaced by a collision, it lets go of its carrier.
pub const MAX_FRAMES_DISPLACED: u32 = 2;

/// Lets an entity ride on another one (its carrier).
#[derive(Debug, Clone, Copy)]
pub struct AttachmentComponent {
    attached_to_entity_id: Option<u64>,
    detached_from_entity_id: Option<u64>,
    num_frames_displaced: u32,
    /// Whether the entity tries to attach to a carrier.
    pub should_attach: bool,
}

impl AttachmentComponent {
    #[verifier::type_invariant]
    spec fn inv(self) -> bool {
        self.attached_to_entity_id is Some ==> self.num_frames_displaced <= MAX_FRAMES_DISPLACED
    }

    /// The carrier the entity rides on, if any.
    pub closed spec fn attached_to(&self) -> Option<u64> {
        self.attached_to_entity_id
    }

    /// The carrier the entity last let go of, which it will not attach to
    /// again until it is reset.
    pub closed spec fn detached_from(&self) -> Option<u64> {
        self.detached_from_entity_id
    }

    /// The number of frames in a row in which the attached entity was
    /// displaced.
    pub closed spec fn frames_displaced(&self) -> u32 {
        self.num_frames_displaced
    }

    /// Whether the entity tries to attach to a carrier.
    pub closed spec fn wants_to_attach(&self) -> bool {
        self.should_attach
    }

    /// Whether the entity rides on a carrier.
    pub fn is_attached(&self) -> (result: bool)
        ensures
            result == self.attached_to() is Some,
    {
        self.attached_to_entity_id.is_some()
    }

    /// The carrier the entity rides on, if any.
    pub fn attached_entity_id(&self) -> (result: Option<u64>)
        ensures
            result == self.attached_to(),
    {
        self.attached_to_entity_id
    }

    /// Lets go of the carrier.
    pub fn detach(&mut self)
        requires
            old(self).attached_to() is Some,
        ensures
            final(self).attached_to() is None,
            final(self).detached_from() == old(self).attached_to(),
            final(self).wants_to_attach() == old(self).wants_to_attach(),
    {
        let carrier = self.attached_to_entity_id;
        self.attached_to_entity_id = None;
        self.detached_from_entity_id = carrier;
    }

    /// Lets go of the carrier, if any, and forgets which one was let go of.
    /// Returns whether there was a carrier to let go of.
    pub fn reset(&mut self) -> (result: bool)
        ensures
            result == old(self).attached_to() is Some,
            final(self).attached_to() is None,
            final(self).detached_from() is None,
            final(self).wants_to_attach() == old(self).wants_to_attach(),
    {
        let was_attached = self.is_attached();
        if was_attached {
            self.detach();
        }
        self.detached_from_entity_id = None;
        was_attached
    }

    /// Whether the entity may attach to `candidate`, given whether the
    /// passenger would fit on it: it carries others, overlaps the passenger,
    /// and is not the carrier last let go of.
    pub open spec fn may_attach(&self, candidate: AttachCandidate) -> bool {
        candidate.attachable && candidate.overlaps && self.detached_from() != Some(candidate.id)
    }

    /// Attaches to the first candidate that the entity may attach to and on
    /// which `fits` says the passenger fits. Only gravity-bound passengers
    /// attach. Returns the carrier attached to, if any.
    pub fn maybe_attach_to_entity<F: Fn(u64) -> bool>(
        &mut self,
        passenger_defies_gravity: bool,
        candidates: &Vec<AttachCandidate>,
        fits: F,
    ) -> (result: Option<u64>)
        requires
            forall|id: u64| call_requires(fits, (id,)),
        ensures
            final(self).wants_to_attach() == old(self).wants_to_attach(),
            final(self).detached_from() == old(self).detached_from(),
            passenger_defies_gravity ==> result is None,
            match result {
                None => final(self).attached_to() == old(self).attached_to()
                    && final(self).frames_displaced() == old(self).frames_displaced(),
                Some(id) => {
                    &&& final(self).attached_to() == Some(id)
                    &&& final(self).frames_displaced() == 0
                    &&& exists|k: int|
                        0 <= k < candidates@.len() && (#[trigger] candidates@[k]).id == id
                            && old(self).may_attach(candidates@[k]) && call_ensures(
                            fits,
                            (id,),
                            true,
                        ) && forall|j: int|
                            0 <= j < k && old(self).may_attach(#[trigger] candidates@[j])
                                ==> call_ensures(fits, (candidates@[j].id,), false)
                },
            },
            !passenger_defies_gravity && result is None ==> forall|k: int|
                0 <= k < candidates@.len() && old(self).may_attach(#[trigger] candidates@[k])
                    ==> call_ensures(fits, (candidates@[k].id,), false),
    {
        if passenger_defies_gravity {
            return None;
        }
        for k in 0..candidates.len()
            invariant
                *self == *old(self),
                !passenger_defies_gravity,
                forall|id: u64| call_requires(fits, (id,)),
                forall|j: int|
                    0 <= j < k && old(self).may_attach(#[trigger] candidates@[j]) ==> call_ensures(
                        fits,
                        (candidates@[j].id,),
                        false,
                    ),
        {
            let candidate = candidates[k];
            if candidate.attachable && candidate.overlaps && self.detached_from_entity_id != Some(
                candidate.id,
            ) {
                let fits_here = fits(candidate.id);
                if fits_here {
                    self.num_frames_displaced = 0;
                    self.attached_to_entity_id = Some(candidate.id);
                    assert(candidates@[k as int].id == candidate.id);
                    assert(call_ensures(fits, (candidate.id,), true));
                    assert(old(self).may_attach(candidates@[k as int]));
                    return Some(candidate.id);
                }
            }
        }
        None
    }

    /// Counts a frame of riding on the carrier, given whether a collision
    /// displaced the entity in it; lets go of the carrier once that has
    /// happened in more than `MAX_FRAMES_DISPLACED` frames in a row. Returns
    /// whether it let go.
    pub fn update_while_attached(&mut self, was_displaced: bool) -> (result: bool)
        requires
            old(self).attached_to() is Some,
        ensures
            final(self).wants_to_attach() == old(self).wants_to_attach(),
            (final(self).frames_displaced(), result) == attached_frame(
                old(self).frames_displaced(),
                was_displaced,
            ),
            result ==> final(self).attached_to() is None && final(self).detached_from() == old(
                self,
            ).attached_to(),
            !result ==> final(self).attached_to() == old(self).attached_to()
                && final(self).detached_from() == old(self).detached_from(),
    {
        proof {
            use_type_invariant(&*self);
        }
        if was_displaced {
            let frames_displaced = self.num_frames_displaced + 1;
            if frames_displaced > MAX_FRAMES_DISPLACED {
                self.detach();
                self.num_frames_displaced = frames_displaced;
                return true;
            }
            self.num_frames_displaced = frames_displaced;
        } else {
            self.num_frames_displaced = 0;
        }
        false
    }
}

/// What a frame does to an attached passenger that had been displaced in the
/// `frames` frames before it: how many frames in a row it has now been
/// displaced, and whether it lets go of its carrier.
pub open spec fn attached_frame(frames: u32, was_displaced: bool) -> (u32, bool) {
    if was_displaced {
        ((frames + 1) as u32, frames + 1 > MAX_FRAMES_DISPLACED)
    } else {
        (0, false)
    }
}

/// Whether a passenger that had been displaced in the `frames` frames before
/// stays on its carrier through frames that displace it as `displaced` says.
pub open spec fn stays_attached(frames: u32, displaced: Seq<bool>) -> bool
    decreases displaced.len(),
{
    if displaced.len() == 0 {
        true
    } else {
        let (next_frames, lets_go) = attached_frame(frames, displaced[0]);
        !lets_go && stays_attached(next_frames, displaced.drop_first())
    }
}

/// A passenger is given some time before it lets go of its carrier: one that
/// had been displaced in the `frames` frames before and is displaced in each of
/// the next `k` frames stays on its carrier exactly when that makes at most
/// `MAX_FRAMES_DISPLACED` frames in a row.
pub proof fn passenger_lets_go_after_too_many_displaced_frames(frames: u32, k: nat)
    requires
        frames <= MAX_FRAMES_DISPLACED,
    ensures
        stays_attached(frames, Seq::new(k, |i: int| true)) <==> frames + k <= MAX_FRAMES_DISPLACED,
    decreases k,
{
    let displaced = Seq::new(k, |i: int| true);
    if k > 0 {
        if frames + 1 <= MAX_FRAMES_DISPLACED {
            let rest = Seq::new((k - 1) as nat, |i: int| true);
            assert(displaced.drop_first() =~= rest);
            passenger_lets_go_after_too_many_displaced_frames((frames + 1) as u32, (k - 1) as nat);
        }
    }
}

/// A frame in which the passenger is not displaced starts the count again:
/// whatever the frames before it, the passenger then stays on its carrier
/// through `MAX_FRAMES_DISPLACED` more displaced frames.
pub proof fn undisplaced_frame_restarts_the_count(frames: u32, k: nat)
    requires
        k <= MAX_FRAMES_DISPLACED,
    ensures
        stays_attached(frames, seq![false] + Seq::new(k, |i: int| true)),
{
    let displaced = seq![false] + Seq::new(k, |i: int| true);
    assert(displaced.drop_first() =~= Seq::new(k, |i: int| true));
    passenger_lets_go_after_too_many_displaced_frames(0, k);
}

impl Default for AttachmentComponent {
    fn default() -> (result: AttachmentComponent)
        ensures
            result.attached_to() is None,
            result.detached_from() is None,
            result.frames_displaced() == 0,
            !result.wants_to_attach(),
    {
        AttachmentComponent {
            attached_to_entity_id: None,
            detached_from_entity_id: None,
            num_frames_displaced: 0,
            should_attach: false,
        }
    }
}

} // verus!
