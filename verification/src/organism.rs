//! A single organism: its energy account, its movement, what it perceives
//! and what it carries in its stomach.

use vstd::prelude::*;
use crate::behaviour::{hunter_policy, prey_policy, spec_hunter_policy, spec_policy, spec_prey_policy};
use crate::behaviour::{BehaviourArchetypes, CurrentBehaviour};
use crate::chance::{draw_direction, draw_jitter, is_initial_direction, is_jitter};
use crate::fixed::{clamp, clamped, fx_mul, mul_div, sat_sub};
use crate::food::{Food, FoodField, FoodTypes};
use crate::perception::PerceivedEntity;
use crate::vec2::{lemma_normalize_is_unit, Vec2};

verus! {

/// The energy that a new organism starts with: one hundred units.
pub const INITIAL_ENERGY: i64 = 100_000_000;

/// Speed is metabolism times this factor: one and a quarter.
pub const SPEED_FACTOR: i64 = 1_250_000;

/// The metabolic rate is metabolism divided by this.
pub const RATE_DIVISOR: u64 = 10;

/// How much faster than its idle pace an organism moves when active: one and
/// a half times.
pub const ACTIVE_PACE: i64 = 1_500_000;

/// How much faster than its idle pace an organism moves when gathering: 1.4
/// times.
pub const GATHER_PACE: i64 = 1_400_000;

/// The pace of wandering.
pub const IDLE_PACE: i64 = 1_000_000;

/// Energy spent per unit of metabolism and of time while idle.
pub const IDLE_COST: i64 = 1_000_000;

/// Energy spent per unit of metabolism and of time while active.
pub const ACTIVE_COST: i64 = 2_000_000;

/// Energy spent per unit of metabolism and of time while gathering.
pub const GATHER_COST: i64 = 1_500_000;

/// An organism digests `DIGEST_NUMERATOR / DIGEST_DENOMINATOR` (that is,
/// 6.5 / 15) of its metabolism per unit of time from each stomach item.
pub const DIGEST_NUMERATOR: i64 = 13;

/// See `DIGEST_NUMERATOR`.
pub const DIGEST_DENOMINATOR: u64 = 30;

/// An organism picks up the food that lies within this distance: one unit.
pub const FORAGE_RADIUS: i64 = 1_000_000;

/// A member of the population.
#[derive(Debug, PartialEq, Clone)]
pub struct Organism {
    energy: i64,
    metabolism: i64,
    speed: i64,
    vision: i64,
    behaviour_type: BehaviourArchetypes,
    current_behaviour: CurrentBehaviour,
    idle_dir: Vec2,
    pos: Vec2,
    visible_creatures: Vec<PerceivedEntity>,
    stomach: Vec<FoodTypes>,
}

/// The state of an organism as a mathematical value.
pub struct OrganismView {
    pub energy: i64,
    pub metabolism: i64,
    pub speed: i64,
    pub vision: i64,
    pub behaviour_type: BehaviourArchetypes,
    pub current_behaviour: CurrentBehaviour,
    pub idle_dir: Vec2,
    pub pos: Vec2,
    pub visible_creatures: Seq<PerceivedEntity>,
    pub stomach: Seq<FoodTypes>,
}

/// What a renderer is shown of an organism.
#[derive(Debug, PartialEq, Eq, Clone, Copy, Structural)]
pub struct OrganismSnapshot {
    pub pos: Vec2,
    pub kind: BehaviourArchetypes,
    pub stomach_count: usize,
}

impl View for Organism {
    type V = OrganismView;

    closed spec fn view(&self) -> OrganismView {
        OrganismView {
            energy: self.energy,
            metabolism: self.metabolism,
            speed: self.speed,
            vision: self.vision,
            behaviour_type: self.behaviour_type,
            current_behaviour: self.current_behaviour,
            idle_dir: self.idle_dir,
            pos: self.pos,
            visible_creatures: self.visible_creatures@,
            stomach: self.stomach@,
        }
    }
}

/// A tenth of the metabolism, rounded toward zero.
pub open spec fn spec_metabolic_rate(metabolism: i64) -> i64 {
    mul_div(metabolism, 1, RATE_DIVISOR)
}

/// Speed times metabolic rate times pace times `dt`, each product rounded
/// toward zero and saturated.
pub open spec fn spec_stride(speed: i64, metabolism: i64, pace: i64, dt: i64) -> i64 {
    fx_mul(fx_mul(fx_mul(speed, metabolic_rate(metabolism)), pace), dt)
}

/// The sum of direction and perturbation, normalised; the direction itself
/// where the sum is degenerate.
pub open spec fn spec_jittered(dir: Vec2, jitter: Vec2) -> Vec2 {
    let pushed = dir.plus(jitter);
    if pushed.is_degenerate() {
        dir
    } else {
        pushed.normalize()
    }
}

/// The metabolic rate of an organism: a tenth of its metabolism.
#[verifier::when_used_as_spec(spec_metabolic_rate)]
pub fn metabolic_rate(metabolism: i64) -> (r: i64)
    ensures
        r == spec_metabolic_rate(metabolism),
{
    mul_div(metabolism, 1, RATE_DIVISOR)
}

/// The distance that an organism covers in a step of length `dt`:
/// speed times metabolic rate times pace times `dt`.
#[verifier::when_used_as_spec(spec_stride)]
pub fn stride(speed: i64, metabolism: i64, pace: i64, dt: i64) -> (r: i64)
    ensures
        r == spec_stride(speed, metabolism, pace, dt),
{
    fx_mul(fx_mul(fx_mul(speed, metabolic_rate(metabolism)), pace), dt)
}

/// A wander direction after a perturbation: the perturbed direction made a
/// unit vector, or the direction as it was where the perturbed one is
/// degenerate.
#[verifier::when_used_as_spec(spec_jittered)]
pub fn jittered(dir: Vec2, jitter: Vec2) -> (r: Vec2)
    ensures
        r == spec_jittered(dir, jitter),
        r.is_unit() || r == dir,
{
    let pushed = dir.plus(jitter);
    if pushed.is_degenerate() {
        dir
    } else {
        proof {
            lemma_normalize_is_unit(pushed);
        }
        pushed.normalize()
    }
}

/// A wander direction that is a unit vector stays one under every
/// perturbation, and whenever a perturbation takes effect the result is a
/// unit vector.
pub proof fn lemma_wander_stays_unit(dir: Vec2, jitter: Vec2)
    ensures
        dir.is_unit() ==> spec_jittered(dir, jitter).is_unit(),
        !dir.plus(jitter).is_degenerate() ==> spec_jittered(dir, jitter).is_unit(),
{
    if !dir.plus(jitter).is_degenerate() {
        lemma_normalize_is_unit(dir.plus(jitter));
    }
}

impl OrganismView {
    /// A new organism: full of energy, idle, with nothing in sight and
    /// nothing in its stomach.
    pub open spec fn fresh(
        metabolism: i64,
        vision: i64,
        pos: Vec2,
        behaviour_type: BehaviourArchetypes,
        idle_dir: Vec2,
    ) -> OrganismView {
        OrganismView {
            energy: INITIAL_ENERGY,
            metabolism,
            speed: fx_mul(metabolism, SPEED_FACTOR),
            vision,
            behaviour_type,
            current_behaviour: CurrentBehaviour::Idle,
            idle_dir,
            pos,
            visible_creatures: Seq::empty(),
            stomach: Seq::empty(),
        }
    }

    /// The wander direction after a step in which `jitter` was drawn.
    pub open spec fn wander(self, jitter: Option<Vec2>) -> Vec2 {
        match jitter {
            Some(offset) => jittered(self.idle_dir, offset),
            None => self.idle_dir,
        }
    }

    /// The organism after it has moved for a step of length `dt` in its
    /// current behaviour. The perturbation matters only to an idle organism.
    pub open spec fn moved(self, dt: i64, jitter: Option<Vec2>) -> OrganismView {
        match self.current_behaviour {
            CurrentBehaviour::Active(dir) => OrganismView {
                pos: self.pos.plus(
                    dir.scaled(stride(self.speed, self.metabolism, ACTIVE_PACE, dt)),
                ),
                ..self
            },
            CurrentBehaviour::Gather(dir) => OrganismView {
                pos: self.pos.plus(
                    dir.scaled(stride(self.speed, self.metabolism, GATHER_PACE, dt)),
                ),
                ..self
            },
            CurrentBehaviour::Idle => OrganismView {
                idle_dir: self.wander(jitter),
                pos: self.pos.plus(
                    self.wander(jitter).scaled(
                        stride(self.speed, self.metabolism, IDLE_PACE, dt),
                    ),
                ),
                ..self
            },
        }
    }

    /// What a renderer is shown of the organism: where it is, its archetype
    /// and the number of items in its stomach.
    pub open spec fn snapshot(self) -> OrganismSnapshot {
        OrganismSnapshot {
            pos: self.pos,
            kind: self.behaviour_type,
            stomach_count: self.stomach.len() as usize,
        }
    }

    /// The organism with nothing in sight.
    pub open spec fn blinded(self) -> OrganismView {
        OrganismView { visible_creatures: Seq::empty(), ..self }
    }

    /// How the organism appears to one that perceives it.
    pub open spec fn sighting(self) -> PerceivedEntity {
        PerceivedEntity::Organism { pos: self.pos, kind: self.behaviour_type }
    }

    /// Whether a place lies within the organism's vision radius.
    pub open spec fn sees(self, place: Vec2) -> bool {
        self.pos.within(place, self.vision)
    }

    /// The organism after it was shown an entity, which it perceives if the
    /// entity is within its vision radius.
    pub open spec fn noticing(self, entity: PerceivedEntity) -> OrganismView {
        if self.sees(entity.position()) {
            OrganismView { visible_creatures: self.visible_creatures.push(entity), ..self }
        } else {
            self
        }
    }

    /// How the organism perceives a food item, if it does.
    pub open spec fn glimpse(self) -> spec_fn(Food) -> Option<PerceivedEntity> {
        |food: Food|
            if self.sees(food.pos) {
                Some(PerceivedEntity::of_food(food))
            } else {
                None
            }
    }

    /// The food items of a field that the organism perceives, in the order
    /// of the field.
    pub open spec fn seen_food(self, field: Seq<Food>) -> Seq<PerceivedEntity> {
        field.filter_map(self.glimpse())
    }

    /// The organism after it has looked over a field of food.
    pub open spec fn watching(self, field: Seq<Food>) -> OrganismView {
        OrganismView {
            visible_creatures: self.visible_creatures + self.seen_food(field),
            ..self
        }
    }

    /// The organism after it has chosen its behaviour from what it perceives.
    pub open spec fn resolved(self) -> OrganismView {
        OrganismView {
            current_behaviour: spec_policy(
                self.behaviour_type,
                self.pos,
                self.visible_creatures,
            ),
            ..self
        }
    }

    /// The organism after it has picked up the food of a field that lies
    /// within its reach.
    pub open spec fn gathering(self, field: Seq<Food>) -> OrganismView {
        OrganismView { stomach: self.stomach + harvest(self.pos, field), ..self }
    }

    /// The organism after one step of digestion: every stomach item gives up
    /// its bite, the items that are used up are dropped, and the bites are
    /// added to the organism's energy.
    pub open spec fn digested(self, dt: i64) -> OrganismView {
        let rate = digest_rate(self.metabolism, dt);
        OrganismView {
            energy: clamped(self.energy + digest_gain(rate, self.stomach)),
            stomach: self.stomach.filter_map(chew(rate)),
            ..self
        }
    }

    /// The organism after one step of digestion followed by the energy that
    /// its metabolism and its activity cost.
    pub open spec fn consuming(self, dt: i64) -> OrganismView {
        let fed = self.digested(dt);
        OrganismView {
            energy: sat_sub(fed.energy, upkeep(self.metabolism, self.current_behaviour, dt)),
            ..fed
        }
    }
}

/// Whether a food item lies out of reach of an organism at `pos`.
pub open spec fn out_of_reach(pos: Vec2) -> spec_fn(Food) -> bool {
    |food: Food| !pos.within(food.pos, FORAGE_RADIUS)
}

/// What an organism at `pos` takes of a food item, if it is within reach.
pub open spec fn pick(pos: Vec2) -> spec_fn(Food) -> Option<FoodTypes> {
    |food: Food|
        if pos.within(food.pos, FORAGE_RADIUS) {
            Some(food.kind)
        } else {
            None
        }
}

/// What an organism at `pos` picks up from a field, in the order of the field.
pub open spec fn harvest(pos: Vec2, field: Seq<Food>) -> Seq<FoodTypes> {
    field.filter_map(pick(pos))
}

/// What an organism at `pos` leaves of a field, in the order of the field.
pub open spec fn leftover(pos: Vec2, field: Seq<Food>) -> Seq<Food> {
    field.filter(out_of_reach(pos))
}

/// Metabolism times 13 / 30 times `dt`.
pub open spec fn spec_digest_rate(metabolism: i64, dt: i64) -> i64 {
    fx_mul(mul_div(metabolism, DIGEST_NUMERATOR, DIGEST_DENOMINATOR), dt)
}

/// The lesser of the rate and the energy left in the item.
pub open spec fn spec_bite(rate: i64, item: FoodTypes) -> i64 {
    if rate <= item.energy() {
        rate
    } else {
        item.energy()
    }
}

/// The item less its bite.
pub open spec fn spec_chewed(rate: i64, item: FoodTypes) -> FoodTypes {
    item.with_energy(sat_sub(item.energy(), bite(rate, item)))
}

/// What is left in the stomach of an item after one step of digestion:
/// the item less its bite, or nothing when it is used up.
pub open spec fn chew(rate: i64) -> spec_fn(FoodTypes) -> Option<FoodTypes> {
    |item: FoodTypes|
        if chewed(rate, item).energy() > 0 {
            Some(chewed(rate, item))
        } else {
            None
        }
}

/// The energy that one step of digestion draws from a stomach: the sum of
/// the bites of its items.
pub open spec fn digest_gain(rate: i64, stomach: Seq<FoodTypes>) -> int
    decreases stomach.len(),
{
    if stomach.len() == 0 {
        0
    } else {
        digest_gain(rate, stomach.drop_last()) + bite(rate, stomach.last())
    }
}

/// One for idling, two for being active, one and a half for gathering.
pub open spec fn spec_activity_cost(behaviour: CurrentBehaviour) -> i64 {
    match behaviour {
        CurrentBehaviour::Idle => IDLE_COST,
        CurrentBehaviour::Active(_) => ACTIVE_COST,
        CurrentBehaviour::Gather(_) => GATHER_COST,
    }
}

/// Metabolism times the cost of the behaviour times `dt`.
pub open spec fn spec_upkeep(metabolism: i64, behaviour: CurrentBehaviour, dt: i64) -> i64 {
    fx_mul(fx_mul(metabolism, activity_cost(behaviour)), dt)
}

/// The most that an organism digests of one stomach item in a step of
/// length `dt`: 6.5 / 15 of its metabolism per unit of time.
#[verifier::when_used_as_spec(spec_digest_rate)]
pub fn digest_rate(metabolism: i64, dt: i64) -> (r: i64)
    ensures
        r == spec_digest_rate(metabolism, dt),
{
    fx_mul(mul_div(metabolism, DIGEST_NUMERATOR, DIGEST_DENOMINATOR), dt)
}

/// What one step of digestion takes from an item: the lesser of the rate and
/// the energy that is left in the item.
#[verifier::when_used_as_spec(spec_bite)]
pub fn bite(rate: i64, item: FoodTypes) -> (r: i64)
    ensures
        r == spec_bite(rate, item),
{
    if rate <= item.energy() {
        rate
    } else {
        item.energy()
    }
}

/// An item after one step of digestion.
#[verifier::when_used_as_spec(spec_chewed)]
pub fn chewed(rate: i64, item: FoodTypes) -> (r: FoodTypes)
    ensures
        r == spec_chewed(rate, item),
        r.energy() >= 0,
{
    item.with_energy(sat_sub(item.energy(), bite(rate, item)))
}

/// The factor by which a behaviour multiplies the cost of living.
#[verifier::when_used_as_spec(spec_activity_cost)]
pub fn activity_cost(behaviour: CurrentBehaviour) -> (r: i64)
    ensures
        r == spec_activity_cost(behaviour),
{
    match behaviour {
        CurrentBehaviour::Idle => IDLE_COST,
        CurrentBehaviour::Active(_) => ACTIVE_COST,
        CurrentBehaviour::Gather(_) => GATHER_COST,
    }
}

/// The energy that living costs for a step of length `dt`: metabolism times
/// the factor of the behaviour times `dt`.
#[verifier::when_used_as_spec(spec_upkeep)]
pub fn upkeep(metabolism: i64, behaviour: CurrentBehaviour, dt: i64) -> (r: i64)
    ensures
        r == spec_upkeep(metabolism, behaviour, dt),
{
    fx_mul(fx_mul(metabolism, activity_cost(behaviour)), dt)
}

/// The wander direction of an organism, once a unit vector, stays one
/// through every movement, whatever perturbation is drawn.
pub proof fn lemma_movement_keeps_wander_unit(o: OrganismView, dt: i64, jitter: Option<Vec2>)
    requires
        o.idle_dir.is_unit(),
    ensures
        o.moved(dt, jitter).idle_dir.is_unit(),
{
    if let Some(offset) = jitter {
        lemma_wander_stays_unit(o.idle_dir, offset);
    }
}

/// In one step of digestion the organism gains exactly what its stomach
/// items give up, the sum over the items of the lesser of the digestion rate
/// and the energy left in the item, as long as its energy stays within the
/// range of the representation. No item is left with negative energy, and
/// the items that stay in the stomach have energy left.
pub proof fn lemma_digestion_balances(o: OrganismView, dt: i64)
    ensures
        i64::MIN <= o.energy + digest_gain(digest_rate(o.metabolism, dt), o.stomach) <= i64::MAX
            ==> o.digested(dt).energy - o.energy == digest_gain(
            digest_rate(o.metabolism, dt),
            o.stomach,
        ),
        forall|i: int|
            0 <= i < o.stomach.len() ==> chewed(
                digest_rate(o.metabolism, dt),
                #[trigger] o.stomach[i],
            ).energy() >= 0,
        forall|i: int|
            0 <= i < o.digested(dt).stomach.len() ==> (#[trigger] o.digested(
                dt,
            ).stomach[i]).energy() > 0,
{
    let rate = digest_rate(o.metabolism, dt);
    lemma_chew_keeps_the_unfinished(rate, o.stomach);
}

/// What stays in a stomach after one step of digestion has energy left.
proof fn lemma_chew_keeps_the_unfinished(rate: i64, stomach: Seq<FoodTypes>)
    ensures
        forall|i: int|
            0 <= i < stomach.filter_map(chew(rate)).len() ==> (#[trigger] stomach.filter_map(
                chew(rate),
            )[i]).energy() > 0,
    decreases stomach.len(),
{
    if stomach.len() > 0 {
        let front = stomach.drop_last().filter_map(chew(rate));
        let whole = stomach.filter_map(chew(rate));
        lemma_chew_keeps_the_unfinished(rate, stomach.drop_last());
        assert forall|i: int| 0 <= i < whole.len() implies (#[trigger] whole[i]).energy() > 0 by {
            if i < front.len() {
                assert(whole[i] == front[i]);
            }
        }
    }
}

/// An organism with a negative vision radius sees no place at all, and one
/// with a vision radius of zero sees no place but its own.
pub proof fn lemma_sightless(o: OrganismView, place: Vec2)
    requires
        o.vision <= 0,
        o.vision == 0 ==> place != o.pos,
    ensures
        !o.sees(place),
{
    if o.vision == 0 {
        let dx = o.pos.x - place.x;
        let dy = o.pos.y - place.y;
        assert(dx * dx + dy * dy > 0) by (nonlinear_arith)
            requires
                dx != 0 || dy != 0,
        ;
    }
}

/// An organism that sees none of the places of a field perceives none of its
/// food.
pub proof fn lemma_unseen_field(o: OrganismView, field: Seq<Food>)
    requires
        forall|i: int| 0 <= i < field.len() ==> !o.sees(#[trigger] field[i].pos),
    ensures
        o.seen_food(field) == Seq::<PerceivedEntity>::empty(),
    decreases field.len(),
{
    if field.len() > 0 {
        assert(!o.sees(field[field.len() - 1].pos));
        lemma_unseen_field(o, field.drop_last());
    }
}

impl Organism {
    /// A new organism whose wander direction is drawn at random.
    pub fn new(metabolism: i64, vision: i64, pos: Vec2, behaviour_type: BehaviourArchetypes) -> (r:
        Self)
        ensures
            is_initial_direction(r@.idle_dir),
            r@ == OrganismView::fresh(metabolism, vision, pos, behaviour_type, r@.idle_dir),
    {
        Self::with_direction(metabolism, vision, pos, behaviour_type, draw_direction())
    }

    /// A new organism with the given wander direction.
    pub fn with_direction(
        metabolism: i64,
        vision: i64,
        pos: Vec2,
        behaviour_type: BehaviourArchetypes,
        idle_dir: Vec2,
    ) -> (r: Self)
        ensures
            r@ == OrganismView::fresh(metabolism, vision, pos, behaviour_type, idle_dir),
    {
        Self {
            energy: INITIAL_ENERGY,
            metabolism,
            speed: fx_mul(metabolism, SPEED_FACTOR),
            vision,
            pos,
            behaviour_type,
            current_behaviour: CurrentBehaviour::Idle,
            idle_dir,
            visible_creatures: Vec::new(),
            stomach: Vec::new(),
        }
    }

    /// Moves the organism for a step of length `ft`, drawing the perturbation
    /// of an idle organism's wander direction at random.
    pub fn movement(&mut self, ft: i64)
        ensures
            exists|jitter: Option<Vec2>|
                is_jitter(jitter) && final(self)@ == #[trigger] old(self)@.moved(ft, jitter),
    {
        let jitter = match self.current_behaviour {
            CurrentBehaviour::Idle => draw_jitter(),
            _ => None,
        };
        self.movement_with(ft, jitter);
    }

    /// Moves the organism for a step of length `ft`, with the given
    /// perturbation of its wander direction.
    pub fn movement_with(&mut self, ft: i64, jitter: Option<Vec2>)
        ensures
            final(self)@ == old(self)@.moved(ft, jitter),
    {
        match self.current_behaviour {
            CurrentBehaviour::Active(move_dir) => {
                let step = stride(self.speed, self.metabolism, ACTIVE_PACE, ft);
                self.pos = self.pos.plus(move_dir.scaled(step));
            },
            CurrentBehaviour::Idle => {
                if let Some(offset) = jitter {
                    self.idle_dir = jittered(self.idle_dir, offset);
                }
                let step = stride(self.speed, self.metabolism, IDLE_PACE, ft);
                self.pos = self.pos.plus(self.idle_dir.scaled(step));
            },
            CurrentBehaviour::Gather(move_dir) => {
                let step = stride(self.speed, self.metabolism, GATHER_PACE, ft);
                self.pos = self.pos.plus(move_dir.scaled(step));
            },
        }
    }

    /// Forgets everything the organism perceives.
    pub fn clear_vision(&mut self)
        ensures
            final(self)@ == old(self)@.blinded(),
    {
        self.visible_creatures.clear();
    }

    /// Shows the organism another one, which it perceives if the other is
    /// within its vision radius.
    pub fn add_vision(&mut self, other: &Organism)
        ensures
            final(self)@ == old(self)@.noticing(other@.sighting()),
    {
        if self.pos.within(other.pos, self.vision) {
            self.visible_creatures.push(
                PerceivedEntity::Organism { pos: other.pos, kind: other.behaviour_type },
            );
        }
    }

    /// Adds to what the organism perceives the food items that lie within
    /// its vision radius, in the order of the list.
    pub fn add_visible_food(&mut self, food_list: &[Food])
        ensures
            final(self)@ == old(self)@.watching(food_list@),
    {
        let ghost before = self@;
        let mut i: usize = 0;
        while i < food_list.len()
            invariant
                i <= food_list.len(),
                self@ == (OrganismView {
                    visible_creatures: before.visible_creatures + before.seen_food(
                        food_list@.take(i as int),
                    ),
                    ..before
                }),
            decreases food_list.len() - i,
        {
            let food = food_list[i];
            proof {
                food_list@.lemma_filter_map_take_succ(before.glimpse(), i as int);
            }
            if self.pos.within(food.pos, self.vision) {
                self.visible_creatures.push(
                    PerceivedEntity::Food { pos: food.pos, food_type: food.kind },
                );
            }
            proof {
                assert(self.visible_creatures@ =~= before.visible_creatures + before.seen_food(
                    food_list@.take(i + 1),
                ));
            }
            i += 1;
        }
        proof {
            assert(food_list@.take(i as int) == food_list@);
        }
    }

    /// Chooses the behaviour of a prey from what the organism perceives.
    pub fn prey_vision(&mut self)
        ensures
            final(self)@ == (OrganismView {
                current_behaviour: spec_prey_policy(old(self)@.pos, old(self)@.visible_creatures),
                ..old(self)@
            }),
            final(self)@.current_behaviour.is_steady(),
    {
        self.current_behaviour = prey_policy(self.pos, &self.visible_creatures);
    }

    /// Chooses the behaviour of a hunter from what the organism perceives.
    pub fn hunter_vision(&mut self)
        ensures
            final(self)@ == (OrganismView {
                current_behaviour: spec_hunter_policy(
                    old(self)@.pos,
                    old(self)@.visible_creatures,
                ),
                ..old(self)@
            }),
            final(self)@.current_behaviour.is_steady(),
    {
        self.current_behaviour = hunter_policy(self.pos, &self.visible_creatures);
    }

    /// Chooses the organism's behaviour, by the policy of its archetype, from
    /// what it perceives.
    pub fn vision(&mut self)
        ensures
            final(self)@ == old(self)@.resolved(),
            final(self)@.current_behaviour.is_steady(),
    {
        match self.behaviour_type {
            BehaviourArchetypes::Prey => {
                self.prey_vision();
            },
            BehaviourArchetypes::Hunter => {
                self.hunter_vision();
            },
        }
    }

    /// Moves the food that lies within reach from the field into the
    /// organism's stomach, in the order of the field.
    pub fn try_gather_food(&mut self, food_field: &mut FoodField)
        ensures
            final(self)@ == old(self)@.gathering(old(food_field)@),
            final(food_field)@ == leftover(old(self)@.pos, old(food_field)@),
    {
        let ghost before = self@;
        let ghost field = food_field@;
        let mut left: Vec<Food> = Vec::new();
        let mut i: usize = 0;
        while i < food_field.items.len()
            invariant
                i <= food_field.items.len(),
                food_field@ == field,
                left@ == leftover(before.pos, field.take(i as int)),
                self@ == (OrganismView {
                    stomach: before.stomach + harvest(before.pos, field.take(i as int)),
                    ..before
                }),
            decreases food_field.items.len() - i,
        {
            let food = food_field.items[i];
            proof {
                field.lemma_filter_map_take_succ(pick(before.pos), i as int);
                assert(field.take(i + 1) == field.take(i as int).push(food));
                field.take(i as int).lemma_filter_push(food, out_of_reach(before.pos));
            }
            if self.pos.within(food.pos, FORAGE_RADIUS) {
                self.stomach.push(food.kind);
            } else {
                left.push(food);
            }
            proof {
                assert(self.stomach@ =~= before.stomach + harvest(
                    before.pos,
                    field.take(i + 1),
                ));
            }
            i += 1;
        }
        proof {
            assert(field.take(i as int) == field);
        }
        food_field.items = left;
    }

    /// One step of digestion.
    pub fn digest_food(&mut self, ft: i64)
        ensures
            final(self)@ == old(self)@.digested(ft),
    {
        let rate = digest_rate(self.metabolism, ft);
        let mut kept: Vec<FoodTypes> = Vec::new();
        let mut gain: i128 = 0;
        let mut i: usize = 0;
        while i < self.stomach.len()
            invariant
                i <= self.stomach.len(),
                kept@ == self.stomach@.take(i as int).filter_map(chew(rate)),
                gain == digest_gain(rate, self.stomach@.take(i as int)),
                i * i64::MIN <= gain <= i * i64::MAX,
            decreases self.stomach.len() - i,
        {
            let item = self.stomach[i];
            let rest = chewed(rate, item);
            proof {
                self.stomach@.lemma_filter_map_take_succ(chew(rate), i as int);
                assert(self.stomach@.take(i + 1).drop_last() == self.stomach@.take(i as int));
            }
            gain = gain + bite(rate, item) as i128;
            if rest.energy() > 0 {
                kept.push(rest);
            }
            i += 1;
        }
        proof {
            assert(self.stomach@.take(i as int) == self.stomach@);
        }
        self.energy = clamp(self.energy as i128 + gain);
        self.stomach = kept;
    }

    /// One step of digestion, followed by the cost of living in the current
    /// behaviour.
    pub fn energy_consumption(&mut self, ft: i64)
        ensures
            final(self)@ == old(self)@.consuming(ft),
    {
        self.digest_food(ft);
        let total_loss = upkeep(self.metabolism, self.current_behaviour, ft);
        self.energy = sat_sub(self.energy, total_loss);
    }

    /// The organism's energy.
    pub fn energy(&self) -> (r: i64)
        ensures
            r == self@.energy,
    {
        self.energy
    }

    /// Where the organism is.
    pub fn position(&self) -> (r: Vec2)
        ensures
            r == self@.pos,
    {
        self.pos
    }

    /// The organism's archetype.
    pub fn archetype(&self) -> (r: BehaviourArchetypes)
        ensures
            r == self@.behaviour_type,
    {
        self.behaviour_type
    }

    /// What the organism is doing.
    pub fn behaviour(&self) -> (r: CurrentBehaviour)
        ensures
            r == self@.current_behaviour,
    {
        self.current_behaviour
    }

    /// The organism's metabolism.
    pub fn metabolism(&self) -> (r: i64)
        ensures
            r == self@.metabolism,
    {
        self.metabolism
    }

    /// The organism's speed.
    pub fn speed(&self) -> (r: i64)
        ensures
            r == self@.speed,
    {
        self.speed
    }

    /// The radius within which the organism perceives.
    pub fn vision_radius(&self) -> (r: i64)
        ensures
            r == self@.vision,
    {
        self.vision
    }

    /// The direction in which the organism wanders when idle.
    pub fn wander_direction(&self) -> (r: Vec2)
        ensures
            r == self@.idle_dir,
    {
        self.idle_dir
    }

    /// What the organism perceives, in the order in which it perceived it.
    pub fn perceived(&self) -> (r: &Vec<PerceivedEntity>)
        ensures
            r@ == self@.visible_creatures,
    {
        &self.visible_creatures
    }

    /// What the organism carries in its stomach, oldest first.
    pub fn stomach(&self) -> (r: &Vec<FoodTypes>)
        ensures
            r@ == self@.stomach,
    {
        &self.stomach
    }

    /// What a renderer is shown of the organism.
    pub fn snapshot(&self) -> (r: OrganismSnapshot)
        ensures
            r == self@.snapshot(),
    {
        OrganismSnapshot {
            pos: self.pos,
            kind: self.behaviour_type,
            stomach_count: self.stomach.len(),
        }
    }

    /// The same organism with another amount of energy.
    pub fn with_energy(self, energy: i64) -> (r: Self)
        ensures
            r@ == (OrganismView { energy, ..self@ }),
    {
        let mut r = self;
        r.energy = energy;
        r
    }
}

} // verus!
