//! Food: what lies in the field and what an organism carries in its stomach.

use vstd::prelude::*;
use crate::vec2::Vec2;

verus! {

/// A kind of food together with the energy that is left in it.
#[derive(Debug, PartialEq, Eq, Clone, Copy, Structural)]
pub enum FoodTypes {
    Plant(i64),
    Meat(i64),
}

impl FoodTypes {
    /// The energy that is left.
    pub open spec fn spec_energy(self) -> i64 {
        match self {
            FoodTypes::Plant(energy) => energy,
            FoodTypes::Meat(energy) => energy,
        }
    }

    /// The same kind of food with another amount of energy left.
    pub open spec fn spec_with_energy(self, energy: i64) -> FoodTypes {
        match self {
            FoodTypes::Plant(_) => FoodTypes::Plant(energy),
            FoodTypes::Meat(_) => FoodTypes::Meat(energy),
        }
    }

    /// The energy that is left.
    #[verifier::when_used_as_spec(spec_energy)]
    pub fn energy(self) -> (r: i64)
        ensures
            r == self.spec_energy(),
    {
        match self {
            FoodTypes::Plant(energy) => energy,
            FoodTypes::Meat(energy) => energy,
        }
    }

    /// The same kind of food with another amount of energy left.
    #[verifier::when_used_as_spec(spec_with_energy)]
    pub fn with_energy(self, energy: i64) -> (r: FoodTypes)
        ensures
            r == self.spec_with_energy(energy),
    {
        match self {
            FoodTypes::Plant(_) => FoodTypes::Plant(energy),
            FoodTypes::Meat(_) => FoodTypes::Meat(energy),
        }
    }
}

/// A food item at its place in the field.
#[derive(Debug, PartialEq, Eq, Clone, Copy, Structural)]
pub struct Food {
    pub pos: Vec2,
    pub kind: FoodTypes,
}

/// The food that lies in the plane, in the order in which it was added.
pub struct FoodField {
    pub items: Vec<Food>,
}

impl Food {
    /// A food item of the given kind at the given place.
    pub fn new(pos: Vec2, kind: FoodTypes) -> (r: Food)
        ensures
            r == (Food { pos, kind }),
    {
        Food { pos, kind }
    }
}

impl View for FoodField {
    type V = Seq<Food>;

    open spec fn view(&self) -> Seq<Food> {
        self.items@
    }
}

impl FoodField {
    /// An empty field.
    pub fn new() -> (r: Self)
        ensures
            r@ == Seq::<Food>::empty(),
    {
        Self { items: Vec::new() }
    }

    /// Adds a food item at the end of the field.
    pub fn add(&mut self, food: Food)
        ensures
            final(self)@ == old(self)@.push(food),
    {
        self.items.push(food);
    }

    /// What a renderer is shown of the field: a copy of its items, in order.
    pub fn snapshot(&self) -> (r: Vec<Food>)
        ensures
            r@ == self@,
    {
        let mut shots: Vec<Food> = Vec::new();
        let mut i: usize = 0;
        while i < self.items.len()
            invariant
                i <= self.items.len(),
                shots@ == self.items@.take(i as int),
            decreases self.items.len() - i,
        {
            shots.push(self.items[i]);
            proof {
                assert(self.items@.take(i + 1) == self.items@.take(i as int).push(self.items@[i as int]));
            }
            i += 1;
        }
        proof {
            assert(self.items@.take(i as int) == self.items@);
        }
        shots
    }

    /// The number of food items.
    pub fn len(&self) -> (r: usize)
        ensures
            r == self@.len(),
    {
        self.items.len()
    }
}

} // verus!
