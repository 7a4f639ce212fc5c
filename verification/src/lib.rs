//! The simulation core of an artificial-life sandbox.
//!
//! A population of organisms moves through a plane that holds a field of
//! food. Every quantity (positions, energies, rates, time steps) is a
//! fixed-point number: a signed 64-bit count of millionths. Arithmetic
//! saturates at the ends of that range, so every operation is total and no
//! value is ever undefined.

pub mod behaviour;
pub mod chance;
pub mod fixed;
pub mod food;
pub mod organism;
pub mod perception;
pub mod species;
pub mod vec2;

pub use behaviour::{BehaviourArchetypes, CurrentBehaviour};
pub use fixed::ONE;
pub use food::{Food, FoodField, FoodTypes};
pub use organism::{Organism, OrganismSnapshot, OrganismView};
pub use perception::{PerceivedEntity, Target};
pub use species::Species;
pub use vec2::{SquaredDistance, Vec2};
