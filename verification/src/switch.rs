use vstd::prelude::*;

verus! {

/// What a switch does to the entity it triggers when it flips.
#[derive(Debug, Clone, Copy, PartialEq, Eq, Structural)]
pub enum TriggerType {
    /// Start the entity's route: towards its end when the switch turns on,
    /// back towards its start when it turns off.
    ToggleRoute,
    /// Remove the entity.
    Destroy,
}

/// A switch, which is on while something that can collide with it overlaps
/// it.
#[derive(Debug, Clone, Copy)]
pub struct SwitchComponent {
    pub is_switched_on: bool,
    /// What the switch does, and to which entity, when it flips.
    pub trigger: Option<(TriggerType, u64)>,
    /// Whether the switch has ever been on.
    pub has_been_switched_on: bool,
}

impl Default for SwitchComponent {
    fn default() -> (result: SwitchComponent)
        ensures
            !result.is_switched_on,
            result.trigger is None,
            !result.has_been_switched_on,
    {
        SwitchComponent { is_switched_on: false, trigger: None, has_been_switched_on: false }
    }
}

/// What flipping a switch asks of the entity it triggers.
#[derive(Debug, Clone, Copy, PartialEq, Eq, Structural)]
pub enum SwitchAction {
    /// Remove the entity with this id.
    Destroy(u64),
    /// Start the route of the entity with this id, in the given direction.
    ToggleRoute { id: u64, move_towards_start: bool },
}

/// What happened when a switch was updated.
#[derive(Debug, Clone, Copy, PartialEq, Eq, Structural)]
pub struct SwitchUpdate {
    /// Whether the switch flipped.
    pub changed: bool,
    /// Whether it turned on for the first time ever (when its sound plays).
    pub first_switched_on: bool,
    /// What it asks of the entity it triggers, if it flipped and triggers one.
    pub action: Option<SwitchAction>,
}

/// The action that a switch with trigger `trigger` asks for when it flips to
/// `is_on`.
pub open spec fn switch_action(trigger: Option<(TriggerType, u64)>, is_on: bool) -> Option<
    SwitchAction,
> {
    match trigger {
        None => None,
        Some((TriggerType::Destroy, id)) => Some(SwitchAction::Destroy(id)),
        Some((TriggerType::ToggleRoute, id)) => Some(
            SwitchAction::ToggleRoute { id, move_towards_start: !is_on },
        ),
    }
}

impl SwitchComponent {
    /// Sets the switch on exactly when `overlaps_anything`, and says what the
    /// flip, if any, asks for.
    pub fn update(&mut self, overlaps_anything: bool) -> (result: SwitchUpdate)
        ensures
            final(self).is_switched_on == overlaps_anything,
            final(self).trigger == old(self).trigger,
            result.changed == (old(self).is_switched_on != overlaps_anything),
            final(self).has_been_switched_on == (old(self).has_been_switched_on || (result.changed
                && overlaps_anything)),
            result.first_switched_on == (result.changed && overlaps_anything
                && !old(self).has_been_switched_on),
            (final(self).is_switched_on, final(self).has_been_switched_on, result.first_switched_on)
                == switch_step(
                old(self).is_switched_on,
                old(self).has_been_switched_on,
                overlaps_anything,
            ),
            result.action == if result.changed {
                switch_action(old(self).trigger, overlaps_anything)
            } else {
                None
            },
    {
        let was_switched_on = self.is_switched_on;
        self.is_switched_on = overlaps_anything;
        if was_switched_on == self.is_switched_on {
            return SwitchUpdate { changed: false, first_switched_on: false, action: None };
        }
        let has_been_switched_on_before = self.has_been_switched_on;
        if self.is_switched_on {
            self.has_been_switched_on = true;
        }
        let first_switched_on = self.is_switched_on && !has_been_switched_on_before;
        let action = match self.trigger {
            None => None,
            Some((trigger_type, id)) => match trigger_type {
                TriggerType::Destroy => Some(SwitchAction::Destroy(id)),
                TriggerType::ToggleRoute => Some(
                    SwitchAction::ToggleRoute { id, move_towards_start: !self.is_switched_on },
                ),
            },
        };
        SwitchUpdate { changed: true, first_switched_on, action }
    }
}

/// One update of a switch that is `is_on` and `has_been_on`, given whether
/// anything overlaps it: whether it is on after, whether it has been on, and
/// whether it turned on for the first time.
pub open spec fn switch_step(is_on: bool, has_been_on: bool, overlaps: bool) -> (bool, bool, bool) {
    (overlaps, has_been_on || (!is_on && overlaps), !is_on && overlaps && !has_been_on)
}

/// How many of the updates of a switch, one per item of `overlaps`, report it
/// turning on for the first time.
pub open spec fn first_switch_ons(is_on: bool, has_been_on: bool, overlaps: Seq<bool>) -> nat
    decreases overlaps.len(),
{
    if overlaps.len() == 0 {
        0
    } else {
        let (on, been, first) = switch_step(is_on, has_been_on, overlaps[0]);
        (if first {
            1nat
        } else {
            0nat
        }) + first_switch_ons(on, been, overlaps.drop_first())
    }
}

/// A switch reports turning on for the first time at most once over any run
/// of updates, and never once it has been on.
pub proof fn first_switch_on_happens_once(is_on: bool, has_been_on: bool, overlaps: Seq<bool>)
    ensures
        first_switch_ons(is_on, has_been_on, overlaps) <= 1,
        has_been_on ==> first_switch_ons(is_on, has_been_on, overlaps) == 0,
    decreases overlaps.len(),
{
    if overlaps.len() > 0 {
        let (on, been, first) = switch_step(is_on, has_been_on, overlaps[0]);
        first_switch_on_happens_once(on, been, overlaps.drop_first());
    }
}

} // verus!
