//! Archetypes, behaviour states and the policy that chooses a state from
//! what an organism perceives.

use vstd::prelude::*;
use crate::perception::{flee_vector, nearest, spec_flee_vector, spec_nearest, PerceivedEntity, Target};
use crate::vec2::{lemma_normalize_is_unit, Vec2};

verus! {

/// The behavioural class of an organism, fixed for its lifetime.
#[derive(Debug, PartialEq, Eq, Clone, Copy, Structural)]
pub enum BehaviourArchetypes {
    Prey,
    Hunter,
}

/// What an organism is doing during a step.
#[derive(Debug, PartialEq, Eq, Clone, Copy, Structural)]
pub enum CurrentBehaviour {
    /// Fleeing or chasing along a unit direction.
    Active(Vec2),
    /// Heading for food along a unit direction.
    Gather(Vec2),
    /// Wandering.
    Idle,
}

impl CurrentBehaviour {
    /// Whether the direction that the state carries, if any, is a unit vector.
    pub open spec fn is_steady(self) -> bool {
        match self {
            CurrentBehaviour::Active(dir) => dir.is_unit(),
            CurrentBehaviour::Gather(dir) => dir.is_unit(),
            CurrentBehaviour::Idle => true,
        }
    }
}

/// The normalised offset from `from` to `to`; nothing where the offset is
/// degenerate.
pub open spec fn spec_steer(from: Vec2, to: Vec2) -> Option<Vec2> {
    let offset = to.minus(from);
    if offset.is_degenerate() {
        None
    } else {
        Some(offset.normalize())
    }
}

/// What a prey does: run from the hunters it perceives, each weighted by its
/// offset; failing that, head for the nearest plant; failing that, idle.
pub open spec fn spec_prey_policy(pos: Vec2, seen: Seq<PerceivedEntity>) -> CurrentBehaviour {
    let flee = spec_flee_vector(pos, seen);
    if !flee.is_degenerate() {
        CurrentBehaviour::Active(flee.normalize())
    } else {
        match spec_nearest(pos, seen, Target::Plant) {
            Some(plant) => match steer(pos, plant) {
                Some(dir) => CurrentBehaviour::Gather(dir),
                None => CurrentBehaviour::Idle,
            },
            None => CurrentBehaviour::Idle,
        }
    }
}

/// What a hunter does: chase the nearest prey it perceives; failing that,
/// head for the nearest meat; failing that, idle.
pub open spec fn spec_hunter_policy(pos: Vec2, seen: Seq<PerceivedEntity>) -> CurrentBehaviour {
    match spec_nearest(pos, seen, Target::Creature(BehaviourArchetypes::Prey)) {
        Some(prey) => match steer(pos, prey) {
            Some(dir) => CurrentBehaviour::Active(dir),
            None => CurrentBehaviour::Idle,
        },
        None => match spec_nearest(pos, seen, Target::Meat) {
            Some(meat) => match steer(pos, meat) {
                Some(dir) => CurrentBehaviour::Gather(dir),
                None => CurrentBehaviour::Idle,
            },
            None => CurrentBehaviour::Idle,
        },
    }
}

/// What an organism of the given archetype does.
pub open spec fn spec_policy(
    kind: BehaviourArchetypes,
    pos: Vec2,
    seen: Seq<PerceivedEntity>,
) -> CurrentBehaviour {
    match kind {
        BehaviourArchetypes::Prey => spec_prey_policy(pos, seen),
        BehaviourArchetypes::Hunter => spec_hunter_policy(pos, seen),
    }
}

/// The unit direction from `from` to `to`, or nothing where the two are too
/// close for the direction to mean anything.
#[verifier::when_used_as_spec(spec_steer)]
pub fn steer(from: Vec2, to: Vec2) -> (r: Option<Vec2>)
    ensures
        r == spec_steer(from, to),
        r matches Some(dir) ==> dir.is_unit(),
{
    let offset = to.minus(from);
    if offset.is_degenerate() {
        None
    } else {
        proof {
            lemma_normalize_is_unit(offset);
        }
        Some(offset.normalize())
    }
}

/// The behaviour that a prey at `pos` chooses when it perceives `seen`.
pub fn prey_policy(pos: Vec2, seen: &Vec<PerceivedEntity>) -> (r: CurrentBehaviour)
    ensures
        r == spec_prey_policy(pos, seen@),
        r.is_steady(),
{
    let flee = flee_vector(pos, seen);
    if !flee.is_degenerate() {
        proof {
            lemma_normalize_is_unit(flee);
        }
        CurrentBehaviour::Active(flee.normalize())
    } else {
        match nearest(pos, seen, Target::Plant) {
            Some(plant) => match steer(pos, plant) {
                Some(dir) => CurrentBehaviour::Gather(dir),
                None => CurrentBehaviour::Idle,
            },
            None => CurrentBehaviour::Idle,
        }
    }
}

/// The behaviour that a hunter at `pos` chooses when it perceives `seen`.
pub fn hunter_policy(pos: Vec2, seen: &Vec<PerceivedEntity>) -> (r: CurrentBehaviour)
    ensures
        r == spec_hunter_policy(pos, seen@),
        r.is_steady(),
{
    match nearest(pos, seen, Target::Creature(BehaviourArchetypes::Prey)) {
        Some(prey) => match steer(pos, prey) {
            Some(dir) => CurrentBehaviour::Active(dir),
            None => CurrentBehaviour::Idle,
        },
        None => match nearest(pos, seen, Target::Meat) {
            Some(meat) => match steer(pos, meat) {
                Some(dir) => CurrentBehaviour::Gather(dir),
                None => CurrentBehaviour::Idle,
            },
            None => CurrentBehaviour::Idle,
        },
    }
}

/// Whatever an organism perceives, the direction of the behaviour that its
/// policy chooses is a unit vector.
pub proof fn lemma_policy_is_steady(
    kind: BehaviourArchetypes,
    pos: Vec2,
    seen: Seq<PerceivedEntity>,
)
    ensures
        spec_policy(kind, pos, seen).is_steady(),
{
    let flee = spec_flee_vector(pos, seen);
    if !flee.is_degenerate() {
        lemma_normalize_is_unit(flee);
    }
    lemma_steer_is_unit(pos, spec_nearest(pos, seen, Target::Plant));
    lemma_steer_is_unit(pos, spec_nearest(pos, seen, Target::Meat));
    lemma_steer_is_unit(
        pos,
        spec_nearest(pos, seen, Target::Creature(BehaviourArchetypes::Prey)),
    );
}

/// The direction toward a target, where there is one, is a unit vector.
proof fn lemma_steer_is_unit(from: Vec2, to: Option<Vec2>)
    ensures
        to matches Some(place) ==> (spec_steer(from, place) matches Some(dir) ==> dir.is_unit()),
{
    if let Some(place) = to {
        if !place.minus(from).is_degenerate() {
            lemma_normalize_is_unit(place.minus(from));
        }
    }
}

/// The behaviour that an organism of the given archetype at `pos` chooses
/// when it perceives `seen`.
pub fn policy(kind: BehaviourArchetypes, pos: Vec2, seen: &Vec<PerceivedEntity>) -> (r:
    CurrentBehaviour)
    ensures
        r == spec_policy(kind, pos, seen@),
        r.is_steady(),
{
    match kind {
        BehaviourArchetypes::Prey => prey_policy(pos, seen),
        BehaviourArchetypes::Hunter => hunter_policy(pos, seen),
    }
}

} // verus!
