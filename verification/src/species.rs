//! The population and its step: movement, perception, behaviour and
//! foraging, then digestion, the cost of living and death.

use vstd::prelude::*;
use crate::behaviour::{lemma_policy_is_steady, CurrentBehaviour};
use crate::chance::{draw_jitter, is_jitter};
use crate::food::{Food, FoodField};
use crate::organism::{leftover, lemma_sightless, lemma_unseen_field, out_of_reach, Organism, OrganismSnapshot, OrganismView};
use crate::perception::PerceivedEntity;
use crate::vec2::Vec2;

verus! {

/// The population: its organisms in the order in which they were added.
#[derive(Debug, PartialEq, Clone)]
pub struct Species {
    organisms: Vec<Organism>,
}

impl View for Species {
    type V = Seq<OrganismView>;

    closed spec fn view(&self) -> Seq<OrganismView> {
        views(self.organisms@)
    }
}

/// The states of a sequence of organisms.
pub open spec fn views(organisms: Seq<Organism>) -> Seq<OrganismView> {
    Seq::new(organisms.len(), |i: int| organisms[i]@)
}

/// The perturbation that a list of draws holds for the organism at `i`:
/// none where the list is too short.
pub open spec fn jitter_at(jitters: Seq<Option<Vec2>>, i: int) -> Option<Vec2> {
    if 0 <= i < jitters.len() {
        jitters[i]
    } else {
        None
    }
}

/// Whether every perturbation of a list is one that can be drawn.
pub open spec fn are_jitters(jitters: Seq<Option<Vec2>>) -> bool {
    forall|i: int| 0 <= i < jitters.len() ==> is_jitter(#[trigger] jitters[i])
}

/// The population after every organism has moved and forgotten what it
/// perceived.
pub open spec fn advanced(orgs: Seq<OrganismView>, dt: i64, jitters: Seq<Option<Vec2>>) -> Seq<
    OrganismView,
> {
    Seq::new(orgs.len(), |i: int| orgs[i].moved(dt, jitter_at(jitters, i)).blinded())
}

/// What the organism at `k` perceives of the organisms before `upto`, in
/// their order: each of them except itself that is within its vision radius.
pub open spec fn glimpsed(orgs: Seq<OrganismView>, k: int, upto: int) -> Seq<PerceivedEntity>
    decreases upto,
{
    if upto <= 0 {
        Seq::empty()
    } else {
        let before = glimpsed(orgs, k, upto - 1);
        if upto - 1 != k && orgs[k].sees(orgs[upto - 1].pos) {
            before.push(orgs[upto - 1].sighting())
        } else {
            before
        }
    }
}

/// The organism at `k` after it was shown the organisms before `upto`.
pub open spec fn meeting(orgs: Seq<OrganismView>, k: int, upto: int) -> OrganismView {
    OrganismView {
        visible_creatures: orgs[k].visible_creatures + glimpsed(orgs, k, upto),
        ..orgs[k]
    }
}

/// How many of the organisms the one at `k` has been shown once the pairs
/// `(a, b)` with `b < a < i`, and the pairs `(i, b)` with `b < j`, have been
/// visited.
spec fn shown(i: int, j: int, k: int) -> int {
    if k < j {
        i + 1
    } else if k < i {
        i
    } else if k == i {
        j
    } else {
        0
    }
}

/// The population after every organism was shown every other one.
pub open spec fn acquainted(orgs: Seq<OrganismView>) -> Seq<OrganismView> {
    Seq::new(orgs.len(), |k: int| meeting(orgs, k, orgs.len() as int))
}

/// The food field as the organism at `k` finds it: what the organisms
/// before it have left.
pub open spec fn field_before(orgs: Seq<OrganismView>, field: Seq<Food>, k: int) -> Seq<Food>
    decreases k,
{
    if k <= 0 {
        field
    } else {
        leftover(orgs[k - 1].pos, field_before(orgs, field, k - 1))
    }
}

/// The organism at `k` after its turn at the food field: it has looked the
/// field over, chosen its behaviour and picked up what is within reach.
pub open spec fn foraging(orgs: Seq<OrganismView>, field: Seq<Food>, k: int) -> OrganismView {
    orgs[k].watching(field_before(orgs, field, k)).resolved().gathering(
        field_before(orgs, field, k),
    )
}

/// The population after every organism, in order, has had its turn at the
/// food field.
pub open spec fn fed(orgs: Seq<OrganismView>, field: Seq<Food>) -> Seq<OrganismView> {
    Seq::new(orgs.len(), |k: int| foraging(orgs, field, k))
}

/// The population after every organism has digested and paid the cost of
/// living.
pub open spec fn settled(orgs: Seq<OrganismView>, dt: i64) -> Seq<OrganismView> {
    Seq::new(orgs.len(), |k: int| orgs[k].consuming(dt))
}

/// Whether an organism has energy left.
pub open spec fn alive() -> spec_fn(OrganismView) -> bool {
    |o: OrganismView| o.energy > 0
}

/// The organisms that have energy left, in their order.
pub open spec fn survivors(orgs: Seq<OrganismView>) -> Seq<OrganismView> {
    orgs.filter(alive())
}

/// Whether every organism has energy left and a behaviour whose direction,
/// if it has one, is a unit vector.
pub open spec fn all_sound(orgs: Seq<OrganismView>) -> bool {
    forall|i: int|
        0 <= i < orgs.len() ==> (#[trigger] orgs[i]).energy > 0
            && orgs[i].current_behaviour.is_steady()
}

/// The population as it stands before the dead are removed at the end of a
/// step of length `dt`.
pub open spec fn before_cleanup(
    orgs: Seq<OrganismView>,
    dt: i64,
    field: Seq<Food>,
    jitters: Seq<Option<Vec2>>,
) -> Seq<OrganismView> {
    settled(fed(acquainted(advanced(orgs, dt, jitters)), field), dt)
}

/// One step of length `dt`: the population and the food field after it.
pub open spec fn tick(
    orgs: Seq<OrganismView>,
    dt: i64,
    field: Seq<Food>,
    jitters: Seq<Option<Vec2>>,
) -> (Seq<OrganismView>, Seq<Food>) {
    (
        survivors(before_cleanup(orgs, dt, field, jitters)),
        field_before(acquainted(advanced(orgs, dt, jitters)), field, orgs.len() as int),
    )
}

/// A step adds no organism, and it removes exactly the organisms that have
/// no energy left once they have digested and paid the cost of living.
pub proof fn lemma_step_removes_exactly_the_dead(
    orgs: Seq<OrganismView>,
    dt: i64,
    field: Seq<Food>,
    jitters: Seq<Option<Vec2>>,
)
    ensures
        before_cleanup(orgs, dt, field, jitters).len() == orgs.len(),
        tick(orgs, dt, field, jitters).0.len() <= orgs.len(),
        forall|o: OrganismView|
            #[trigger] tick(orgs, dt, field, jitters).0.contains(o) <==> before_cleanup(
                orgs,
                dt,
                field,
                jitters,
            ).contains(o) && o.energy > 0,
{
    let before = before_cleanup(orgs, dt, field, jitters);
    let after = tick(orgs, dt, field, jitters).0;
    before.lemma_filter_len(alive());
    assert forall|o: OrganismView| #[trigger] after.contains(o) <==> before.contains(o) && o.energy
        > 0 by {
        if after.contains(o) {
            before.lemma_filter_contains_rev(alive(), o);
            let i = choose|i: int| 0 <= i < after.len() && after[i] == o;
            before.lemma_filter_pred(alive(), i);
        }
        if before.contains(o) && o.energy > 0 {
            let i = choose|i: int| 0 <= i < before.len() && before[i] == o;
            before.lemma_filter_contains(alive(), i);
        }
    }
}

/// After a step every organism has energy left, and the direction of its
/// behaviour, if it has one, is a unit vector.
pub proof fn lemma_step_leaves_all_sound(
    orgs: Seq<OrganismView>,
    dt: i64,
    field: Seq<Food>,
    jitters: Seq<Option<Vec2>>,
)
    ensures
        all_sound(tick(orgs, dt, field, jitters).0),
{
    let met = acquainted(advanced(orgs, dt, jitters));
    let before = before_cleanup(orgs, dt, field, jitters);
    let after = tick(orgs, dt, field, jitters).0;
    assert forall|i: int| 0 <= i < after.len() implies (#[trigger] after[i]).energy > 0
        && after[i].current_behaviour.is_steady() by {
        before.lemma_filter_pred(alive(), i);
        assert(after.contains(after[i]));
        before.lemma_filter_contains_rev(alive(), after[i]);
        let k = choose|k: int| 0 <= k < before.len() && before[k] == after[i];
        let found = met[k].watching(field_before(met, field, k));
        lemma_policy_is_steady(found.behaviour_type, found.pos, found.visible_creatures);
    }
}

/// No organism takes food from a field that was not in it: whatever the
/// organism at `k` finds in the field lay in the field at the start.
pub proof fn lemma_field_only_shrinks(orgs: Seq<OrganismView>, field: Seq<Food>, k: int)
    ensures
        field_before(orgs, field, k).len() <= field.len(),
        forall|food: Food| #[trigger]
            field_before(orgs, field, k).contains(food) ==> field.contains(food),
    decreases k,
{
    if k > 0 {
        lemma_field_only_shrinks(orgs, field, k - 1);
        let found = field_before(orgs, field, k - 1);
        let reach = out_of_reach(orgs[k - 1].pos);
        found.lemma_filter_len(reach);
        assert forall|food: Food| #[trigger]
            field_before(orgs, field, k).contains(food) implies field.contains(food) by {
            found.lemma_filter_contains_rev(reach, food);
        }
    }
}

/// An organism that sees none of the others is shown them in vain.
pub proof fn lemma_unseen_neighbours(orgs: Seq<OrganismView>, k: int, upto: int)
    requires
        0 <= k < orgs.len(),
        upto <= orgs.len(),
        forall|j: int| 0 <= j < orgs.len() && j != k ==> !orgs[k].sees(#[trigger] orgs[j].pos),
    ensures
        glimpsed(orgs, k, upto) == Seq::<PerceivedEntity>::empty(),
    decreases upto,
{
    if upto > 0 {
        lemma_unseen_neighbours(orgs, k, upto - 1);
        if upto - 1 != k {
            assert(!orgs[k].sees(orgs[upto - 1].pos));
        }
    }
}

/// Vision radii count one by one: an organism whose vision radius is not
/// positive perceives nothing in a step, whatever the others' radii are,
/// provided that, where the radius is exactly zero, nothing else stands on
/// the very point to which the organism moves.
pub proof fn lemma_sightless_perceives_nothing(
    orgs: Seq<OrganismView>,
    dt: i64,
    field: Seq<Food>,
    jitters: Seq<Option<Vec2>>,
    k: int,
)
    requires
        0 <= k < orgs.len(),
        orgs[k].vision <= 0,
        orgs[k].vision == 0 ==> {
            &&& forall|j: int|
                0 <= j < orgs.len() && j != k ==> (#[trigger] advanced(orgs, dt, jitters)[j]).pos
                    != advanced(orgs, dt, jitters)[k].pos
            &&& forall|i: int|
                0 <= i < field.len() ==> (#[trigger] field[i]).pos != advanced(
                    orgs,
                    dt,
                    jitters,
                )[k].pos
        },
    ensures
        before_cleanup(orgs, dt, field, jitters)[k].visible_creatures == Seq::<
            PerceivedEntity,
        >::empty(),
{
    let placed = advanced(orgs, dt, jitters);
    let met = acquainted(placed);
    let me = placed[k];
    assert(me.vision == orgs[k].vision);
    assert forall|j: int| 0 <= j < placed.len() && j != k implies !me.sees(
        #[trigger] placed[j].pos,
    ) by {
        lemma_sightless(me, placed[j].pos);
    }
    lemma_unseen_neighbours(placed, k, placed.len() as int);
    assert(met[k].visible_creatures =~= Seq::<PerceivedEntity>::empty());
    let found = field_before(met, field, k);
    lemma_field_only_shrinks(met, field, k);
    assert forall|i: int| 0 <= i < found.len() implies !met[k].sees(#[trigger] found[i].pos) by {
        assert(found.contains(found[i]));
        let at = choose|at: int| 0 <= at < field.len() && field[at] == found[i];
        lemma_sightless(met[k], field[at].pos);
    }
    lemma_unseen_field(met[k], found);
    assert(met[k].watching(found).visible_creatures =~= Seq::<PerceivedEntity>::empty());
}

impl Species {
    /// An empty population.
    pub fn new() -> (r: Species)
        ensures
            r@ == Seq::<OrganismView>::empty(),
    {
        let r = Species { organisms: Vec::new() };
        proof {
            assert(r@ =~= Seq::<OrganismView>::empty());
        }
        r
    }

    /// Appends an organism to the population.
    pub fn add(&mut self, org: Organism)
        ensures
            final(self)@ == old(self)@.push(org@),
    {
        self.organisms.push(org);
        proof {
            assert(self@ =~= old(self)@.push(org@));
        }
    }

    /// Moves every organism for a step of length `ft`, each with its
    /// perturbation from `jitters`, and clears what it perceives.
    pub fn update_movement_and_clear_vision(&mut self, ft: i64, jitters: &Vec<Option<Vec2>>)
        ensures
            final(self)@ == advanced(old(self)@, ft, jitters@),
    {
        let ghost start = self@;
        let mut i: usize = 0;
        while i < self.organisms.len()
            invariant
                i <= self.organisms.len(),
                self.organisms.len() == start.len(),
                forall|k: int|
                    0 <= k < i ==> (#[trigger] self.organisms@[k])@ == start[k].moved(
                        ft,
                        jitter_at(jitters@, k),
                    ).blinded(),
                forall|k: int| i <= k < start.len() ==> (#[trigger] self.organisms@[k])@ == start[k],
            decreases self.organisms.len() - i,
        {
            let jitter = if i < jitters.len() {
                jitters[i]
            } else {
                None
            };
            self.organisms[i].movement_with(ft, jitter);
            self.organisms[i].clear_vision();
            i += 1;
        }
        proof {
            assert(self@ =~= advanced(start, ft, jitters@));
        }
    }

    /// Shows every organism every other one. Each pair is visited once, and
    /// each of the two perceives the other if it lies within its own vision
    /// radius.
    pub fn update_vision(&mut self)
        ensures
            final(self)@ == acquainted(old(self)@),
    {
        let ghost start = self@;
        let n = self.organisms.len();
        let mut i: usize = 0;
        while i < n
            invariant
                i <= n,
                n == self.organisms.len(),
                n == start.len(),
                forall|k: int|
                    0 <= k < n ==> (#[trigger] self.organisms@[k])@ == meeting(
                        start,
                        k,
                        shown(i as int, 0, k),
                    ),
            decreases n - i,
        {
            let mut j: usize = 0;
            while j < i
                invariant
                    j <= i < n,
                    n == self.organisms.len(),
                    n == start.len(),
                    forall|k: int|
                        0 <= k < n ==> (#[trigger] self.organisms@[k])@ == meeting(
                            start,
                            k,
                            shown(i as int, j as int, k),
                        ),
                decreases i - j,
            {
                let ghost prior = self.organisms@;
                let (left, right) = self.organisms.as_mut_slice().split_at_mut(i);
                right[0].add_vision(&left[j]);
                left[j].add_vision(&right[0]);
                proof {
                    assert forall|k: int| 0 <= k < n implies (#[trigger] self.organisms@[k])@
                        == meeting(start, k, shown(i as int, j + 1, k)) by {
                        if k == i as int {
                            assert(self.organisms@[k]@ == prior[k]@.noticing(
                                prior[j as int]@.sighting(),
                            ));
                        } else if k == j as int {
                            assert(self.organisms@[k]@ == prior[k]@.noticing(
                                self.organisms@[i as int]@.sighting(),
                            ));
                        } else {
                            assert(self.organisms@[k] == prior[k]);
                        }
                    }
                }
                j += 1;
            }
            i += 1;
        }
        proof {
            assert(self@ =~= acquainted(start));
        }
    }

    /// Gives every organism, in order, its turn at the food field: it looks
    /// the field over, chooses its behaviour from all that it perceives, and
    /// picks up the food within its reach. Of two organisms within reach of
    /// an item, the earlier one gets it.
    pub fn update_behaviour(&mut self, food_field: &mut FoodField)
        ensures
            final(self)@ == fed(old(self)@, old(food_field)@),
            final(food_field)@ == field_before(
                old(self)@,
                old(food_field)@,
                old(self)@.len() as int,
            ),
    {
        let ghost start = self@;
        let ghost field = food_field@;
        let mut i: usize = 0;
        while i < self.organisms.len()
            invariant
                i <= self.organisms.len(),
                self.organisms.len() == start.len(),
                food_field@ == field_before(start, field, i as int),
                forall|k: int|
                    0 <= k < i ==> (#[trigger] self.organisms@[k])@ == foraging(start, field, k),
                forall|k: int| i <= k < start.len() ==> (#[trigger] self.organisms@[k])@ == start[k],
            decreases self.organisms.len() - i,
        {
            self.organisms[i].add_visible_food(food_field.items.as_slice());
            self.organisms[i].vision();
            self.organisms[i].try_gather_food(food_field);
            i += 1;
        }
        proof {
            assert(self@ =~= fed(start, field));
        }
    }

    /// Lets every organism digest and pay the cost of living for a step of
    /// length `ft`, then removes those that have no energy left.
    pub fn cleanup_dead(&mut self, ft: i64)
        ensures
            final(self)@ == survivors(settled(old(self)@, ft)),
            final(self)@.len() <= old(self)@.len(),
    {
        let ghost start = self@;
        let mut all: Vec<Organism> = Vec::new();
        core::mem::swap(&mut self.organisms, &mut all);
        let ghost bodies = all@;
        proof {
            reveal(Seq::filter);
            assert(settled(start, ft).take(0) =~= Seq::<OrganismView>::empty());
            assert(views(self.organisms@) =~= Seq::<OrganismView>::empty());
        }
        for body in it: all
            invariant
                it.seq() == bodies,
                views(bodies) == start,
                views(self.organisms@) == survivors(settled(start, ft).take(it.index() as int)),
        {
            let mut organism = body;
            organism.energy_consumption(ft);
            proof {
                let done = settled(start, ft).take(it.index() as int);
                assert(organism@ == settled(start, ft)[it.index() as int]);
                assert(settled(start, ft).take(it.index() + 1) =~= done.push(organism@));
                done.lemma_filter_push(organism@, alive());
            }
            if organism.energy() > 0 {
                self.organisms.push(organism);
                proof {
                    assert(views(self.organisms@) =~= survivors(
                        settled(start, ft).take(it.index() as int),
                    ).push(organism@));
                }
            }
        }
        proof {
            assert(settled(start, ft).take(start.len() as int) =~= settled(start, ft));
            settled(start, ft).lemma_filter_len(alive());
        }
    }

    /// One step of length `ft`, with the given perturbations of the wander
    /// directions: the one at each index is for the organism at that index,
    /// and an organism beyond the end of the list gets none.
    pub fn update_with(&mut self, ft: i64, food_field: &mut FoodField, jitters: &Vec<Option<Vec2>>)
        ensures
            (final(self)@, final(food_field)@) == tick(
                old(self)@,
                ft,
                old(food_field)@,
                jitters@,
            ),
            final(self)@.len() <= old(self)@.len(),
            final(food_field)@.len() <= old(food_field)@.len(),
            all_sound(final(self)@),
    {
        proof {
            lemma_step_leaves_all_sound(self@, ft, food_field@, jitters@);
            lemma_field_only_shrinks(
                acquainted(advanced(self@, ft, jitters@)),
                food_field@,
                self@.len() as int,
            );
        }
        self.update_movement_and_clear_vision(ft, jitters);
        self.update_vision();
        self.update_behaviour(food_field);
        self.cleanup_dead(ft);
    }

    /// Draws a perturbation for every organism: at random for an idle one,
    /// none for the others, whose movement does not read it.
    pub fn draw_jitters(&self) -> (jitters: Vec<Option<Vec2>>)
        ensures
            jitters@.len() == self@.len(),
            are_jitters(jitters@),
            forall|i: int|
                0 <= i < jitters@.len() && self@[i].current_behaviour != CurrentBehaviour::Idle
                    ==> #[trigger] jitters@[i] == None::<Vec2>,
    {
        let mut jitters: Vec<Option<Vec2>> = Vec::new();
        let mut i: usize = 0;
        while i < self.organisms.len()
            invariant
                i <= self.organisms.len(),
                jitters@.len() == i,
                are_jitters(jitters@),
                forall|k: int|
                    0 <= k < i && self@[k].current_behaviour != CurrentBehaviour::Idle
                        ==> #[trigger] jitters@[k] == None::<Vec2>,
            decreases self.organisms.len() - i,
        {
            let jitter = match self.organisms[i].behaviour() {
                CurrentBehaviour::Idle => draw_jitter(),
                _ => None,
            };
            jitters.push(jitter);
            i += 1;
        }
        jitters
    }

    /// One step of length `ft`, with the perturbations of the wander
    /// directions drawn at random.
    pub fn update(&mut self, ft: i64, food_field: &mut FoodField)
        ensures
            exists|jitters: Seq<Option<Vec2>>|
                jitters.len() == old(self)@.len() && are_jitters(jitters) && (
                    final(self)@,
                    final(food_field)@,
                ) == #[trigger] tick(old(self)@, ft, old(food_field)@, jitters),
            final(self)@.len() <= old(self)@.len(),
            final(food_field)@.len() <= old(food_field)@.len(),
            all_sound(final(self)@),
    {
        let jitters = self.draw_jitters();
        self.update_with(ft, food_field, &jitters);
    }

    /// What a renderer is shown of the population: one entry for each
    /// organism, in order.
    pub fn snapshot(&self) -> (r: Vec<OrganismSnapshot>)
        ensures
            r@.len() == self@.len(),
            forall|i: int| 0 <= i < r@.len() ==> #[trigger] r@[i] == self@[i].snapshot(),
    {
        let mut shots: Vec<OrganismSnapshot> = Vec::new();
        let mut i: usize = 0;
        while i < self.organisms.len()
            invariant
                i <= self.organisms.len(),
                shots@.len() == i,
                forall|k: int| 0 <= k < i ==> #[trigger] shots@[k] == self@[k].snapshot(),
            decreases self.organisms.len() - i,
        {
            shots.push(self.organisms[i].snapshot());
            i += 1;
        }
        shots
    }

    /// The number of organisms.
    pub fn len(&self) -> (r: usize)
        ensures
            r == self@.len(),
    {
        self.organisms.len()
    }

    /// The organisms, in order, for reading.
    pub fn organisms(&self) -> (r: &Vec<Organism>)
        ensures
            views(r@) == self@,
    {
        &self.organisms
    }
}

} // verus!
