//! What an organism perceives, and the two summaries that its policy reads
//! from it: the flee vector and the nearest entity of a wanted kind.

use vstd::prelude::*;
use crate::behaviour::BehaviourArchetypes;
use crate::food::{Food, FoodTypes};
use crate::vec2::{SquaredDistance, Vec2};

verus! {

/// One entry of an organism's perception: another organism or a food item,
/// as it was when it was perceived.
#[derive(Debug, PartialEq, Eq, Clone, Copy, Structural)]
pub enum PerceivedEntity {
    Organism { pos: Vec2, kind: BehaviourArchetypes },
    Food { pos: Vec2, food_type: FoodTypes },
}

/// A kind of entity that a policy looks for.
#[derive(Debug, PartialEq, Eq, Clone, Copy, Structural)]
pub enum Target {
    Creature(BehaviourArchetypes),
    Plant,
    Meat,
}

impl PerceivedEntity {
    /// Where the entity was perceived.
    pub open spec fn spec_position(self) -> Vec2 {
        match self {
            PerceivedEntity::Organism { pos, .. } => pos,
            PerceivedEntity::Food { pos, .. } => pos,
        }
    }

    /// Where the entity was perceived.
    #[verifier::when_used_as_spec(spec_position)]
    pub fn position(self) -> (r: Vec2)
        ensures
            r == self.spec_position(),
    {
        match self {
            PerceivedEntity::Organism { pos, .. } => pos,
            PerceivedEntity::Food { pos, .. } => pos,
        }
    }

    /// The perception of a food item.
    pub open spec fn of_food(food: Food) -> PerceivedEntity {
        PerceivedEntity::Food { pos: food.pos, food_type: food.kind }
    }
}

impl Target {
    /// Whether the entity is of the wanted kind.
    pub open spec fn spec_admits(self, entity: PerceivedEntity) -> bool {
        match (self, entity) {
            (Target::Creature(wanted), PerceivedEntity::Organism { kind, .. }) => kind == wanted,
            (Target::Plant, PerceivedEntity::Food { food_type: FoodTypes::Plant(_), .. }) => true,
            (Target::Meat, PerceivedEntity::Food { food_type: FoodTypes::Meat(_), .. }) => true,
            _ => false,
        }
    }

    /// Whether the entity is of the wanted kind.
    #[verifier::when_used_as_spec(spec_admits)]
    pub fn admits(self, entity: PerceivedEntity) -> (r: bool)
        ensures
            r == self.spec_admits(entity),
    {
        match (self, entity) {
            (Target::Creature(wanted), PerceivedEntity::Organism { kind, .. }) => kind == wanted,
            (Target::Plant, PerceivedEntity::Food { food_type: FoodTypes::Plant(_), .. }) => true,
            (Target::Meat, PerceivedEntity::Food { food_type: FoodTypes::Meat(_), .. }) => true,
            _ => false,
        }
    }
}

/// The sum, over the hunters in `seen` in order, of the offset from each
/// hunter to `pos`.
pub open spec fn spec_flee_vector(pos: Vec2, seen: Seq<PerceivedEntity>) -> Vec2
    decreases seen.len(),
{
    if seen.len() == 0 {
        Vec2 { x: 0, y: 0 }
    } else {
        let before = spec_flee_vector(pos, seen.drop_last());
        if Target::Creature(BehaviourArchetypes::Hunter).admits(seen.last()) {
            before.plus(pos.minus(seen.last().position()))
        } else {
            before
        }
    }
}

/// The position of the entity of the wanted kind that is nearest to `pos`;
/// of several at the same distance, the one that comes first in `seen`.
pub open spec fn spec_nearest(pos: Vec2, seen: Seq<PerceivedEntity>, target: Target) -> Option<
    Vec2,
>
    decreases seen.len(),
{
    if seen.len() == 0 {
        None
    } else {
        let before = spec_nearest(pos, seen.drop_last(), target);
        let place = seen.last().position();
        if target.admits(seen.last()) && (before is None || pos.dist_squared(place)
            < pos.dist_squared(before.unwrap())) {
            Some(place)
        } else {
            before
        }
    }
}

/// The direction in which to run from the hunters in `seen`, not yet
/// normalised.
pub fn flee_vector(pos: Vec2, seen: &Vec<PerceivedEntity>) -> (r: Vec2)
    ensures
        r == spec_flee_vector(pos, seen@),
{
    let mut flee = Vec2 { x: 0, y: 0 };
    let mut i: usize = 0;
    while i < seen.len()
        invariant
            i <= seen.len(),
            flee == spec_flee_vector(pos, seen@.take(i as int)),
        decreases seen.len() - i,
    {
        let entity = seen[i];
        proof {
            assert(seen@.take(i + 1).drop_last() == seen@.take(i as int));
        }
        if Target::Creature(BehaviourArchetypes::Hunter).admits(entity) {
            flee = flee.plus(pos.minus(entity.position()));
        }
        i += 1;
    }
    proof {
        assert(seen@.take(i as int) == seen@);
    }
    flee
}

/// The position of the nearest entity of the wanted kind in `seen`.
pub fn nearest(pos: Vec2, seen: &Vec<PerceivedEntity>, target: Target) -> (r: Option<Vec2>)
    ensures
        r == spec_nearest(pos, seen@, target),
{
    let mut best: Option<Vec2> = None;
    let mut best_dist = SquaredDistance { low: 0, carry: false };
    let mut i: usize = 0;
    while i < seen.len()
        invariant
            i <= seen.len(),
            best == spec_nearest(pos, seen@.take(i as int), target),
            best matches Some(place) ==> best_dist@ == pos.dist_squared(place),
        decreases seen.len() - i,
    {
        let entity = seen[i];
        proof {
            assert(seen@.take(i + 1).drop_last() == seen@.take(i as int));
        }
        if target.admits(entity) {
            let place = entity.position();
            let dist = pos.distance_squared(place);
            if best.is_none() || dist.less_than(best_dist) {
                best = Some(place);
                best_dist = dist;
            }
        }
        i += 1;
    }
    proof {
        assert(seen@.take(i as int) == seen@);
    }
    best
}

/// `spec_nearest` finds nothing exactly when no entity is of the wanted kind.
/// What it finds is the position of such an entity, at a distance that no
/// other such entity undercuts and that no earlier one equals.
pub proof fn lemma_nearest_is_first_closest(pos: Vec2, seen: Seq<PerceivedEntity>, target: Target)
    ensures
        match spec_nearest(pos, seen, target) {
            None => forall|i: int| 0 <= i < seen.len() ==> !target.admits(#[trigger] seen[i]),
            Some(place) => exists|i: int|
                {
                    &&& 0 <= i < seen.len()
                    &&& target.admits(#[trigger] seen[i])
                    &&& seen[i].position() == place
                    &&& forall|j: int|
                        0 <= j < seen.len() && target.admits(#[trigger] seen[j])
                            ==> pos.dist_squared(place) <= pos.dist_squared(seen[j].position())
                    &&& forall|j: int|
                        0 <= j < i && target.admits(#[trigger] seen[j]) ==> pos.dist_squared(place)
                            < pos.dist_squared(seen[j].position())
                },
        },
    decreases seen.len(),
{
    if seen.len() > 0 {
        let front = seen.drop_last();
        let last = seen.len() - 1;
        lemma_nearest_is_first_closest(pos, front, target);
        assert(forall|j: int| 0 <= j < last ==> front[j] == seen[j]);
        match spec_nearest(pos, front, target) {
            None => {
                if target.admits(seen.last()) {
                    assert(target.admits(seen[last]));
                }
            },
            Some(place) => {
                let i = choose|i: int|
                    {
                        &&& 0 <= i < front.len()
                        &&& target.admits(#[trigger] front[i])
                        &&& front[i].position() == place
                        &&& forall|j: int|
                            0 <= j < front.len() && target.admits(#[trigger] front[j])
                                ==> pos.dist_squared(place) <= pos.dist_squared(
                                front[j].position(),
                            )
                        &&& forall|j: int|
                            0 <= j < i && target.admits(#[trigger] front[j]) ==> pos.dist_squared(
                                place,
                            ) < pos.dist_squared(front[j].position())
                    };
                if target.admits(seen.last()) && pos.dist_squared(seen.last().position())
                    < pos.dist_squared(place) {
                    assert(target.admits(seen[last]));
                } else {
                    assert(target.admits(seen[i]));
                }
            },
        }
    }
}

} // verus!
