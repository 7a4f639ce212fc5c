use ecosim::behaviour::{BehaviourArchetypes, CurrentBehaviour};
use ecosim::food::{Food, FoodField, FoodTypes};
use ecosim::organism::{activity_cost, bite, chewed, digest_rate, jittered, metabolic_rate, stride, upkeep};
use ecosim::organism::{Organism, ACTIVE_COST, ACTIVE_PACE, FORAGE_RADIUS, GATHER_COST, GATHER_PACE};
use ecosim::organism::{DIGEST_DENOMINATOR, DIGEST_NUMERATOR, IDLE_COST, IDLE_PACE, INITIAL_ENERGY};
use ecosim::organism::{RATE_DIVISOR, SPEED_FACTOR};
use ecosim::perception::PerceivedEntity;
use ecosim::vec2::{Vec2, UNIT_SLACK_ABOVE, UNIT_SLACK_BELOW};

const ONE: i64 = 1_000_000;

fn at(x: i64, y: i64) -> Vec2 {
    Vec2::new(x * ONE, y * ONE)
}

fn prey_at(x: i64, y: i64, vision: i64) -> Organism {
    Organism::with_direction(
        10 * ONE,
        vision * ONE,
        at(x, y),
        BehaviourArchetypes::Prey,
        Vec2::new(ONE, 0),
    )
}

fn hunter_at(x: i64, y: i64, vision: i64) -> Organism {
    Organism::with_direction(
        20 * ONE,
        vision * ONE,
        at(x, y),
        BehaviourArchetypes::Hunter,
        Vec2::new(0, ONE),
    )
}

fn plant(x: i64, y: i64, energy: i64) -> Food {
    Food::new(at(x, y), FoodTypes::Plant(energy))
}

fn meat(x: i64, y: i64, energy: i64) -> Food {
    Food::new(at(x, y), FoodTypes::Meat(energy))
}

fn field_of(items: Vec<Food>) -> FoodField {
    let mut field = FoodField::new();
    for item in items {
        field.add(item);
    }
    field
}

fn is_unit(v: Vec2) -> bool {
    let low = (ONE - UNIT_SLACK_BELOW) as u128;
    let high = (ONE + UNIT_SLACK_ABOVE) as u128;
    let n = v.length_squared();
    low * low <= n && n <= high * high
}

#[test]
fn the_constants_of_the_model() {
    assert_eq!(INITIAL_ENERGY, 100 * ONE);
    assert_eq!(SPEED_FACTOR, 1_250_000);
    assert_eq!(RATE_DIVISOR, 10);
    assert_eq!(ACTIVE_PACE, 1_500_000);
    assert_eq!(GATHER_PACE, 1_400_000);
    assert_eq!(IDLE_PACE, ONE);
    assert_eq!(IDLE_COST, ONE);
    assert_eq!(ACTIVE_COST, 2 * ONE);
    assert_eq!(GATHER_COST, 1_500_000);
    assert_eq!(DIGEST_NUMERATOR, 13);
    assert_eq!(DIGEST_DENOMINATOR, 30);
    assert_eq!(FORAGE_RADIUS, ONE);
}

#[test]
fn a_new_organism_is_idle_and_full_of_energy() {
    let o = Organism::with_direction(
        10 * ONE,
        50 * ONE,
        at(3, -4),
        BehaviourArchetypes::Prey,
        Vec2::new(600_000, 800_000),
    );
    assert_eq!(o.energy(), 100 * ONE);
    assert_eq!(o.metabolism(), 10 * ONE);
    assert_eq!(o.speed(), 12_500_000);
    assert_eq!(o.vision_radius(), 50 * ONE);
    assert_eq!(o.position(), at(3, -4));
    assert_eq!(o.archetype(), BehaviourArchetypes::Prey);
    assert_eq!(o.behaviour(), CurrentBehaviour::Idle);
    assert_eq!(o.wander_direction(), Vec2 { x: 600_000, y: 800_000 });
    assert!(o.perceived().is_empty());
    assert!(o.stomach().is_empty());
}

#[test]
fn a_new_organism_draws_its_wander_direction() {
    let mut seen_two = false;
    let first = Organism::new(20 * ONE, 150 * ONE, at(1, 2), BehaviourArchetypes::Hunter);
    for _ in 0..200 {
        let o = Organism::new(20 * ONE, 150 * ONE, at(1, 2), BehaviourArchetypes::Hunter);
        let d = o.wander_direction();
        assert!(0 <= d.x && d.x < ONE && 0 <= d.y && d.y < ONE);
        assert_eq!(o.energy(), 100 * ONE);
        assert_eq!(o.speed(), 25 * ONE);
        assert_eq!(o.vision_radius(), 150 * ONE);
        assert_eq!(o.position(), at(1, 2));
        assert_eq!(o.archetype(), BehaviourArchetypes::Hunter);
        assert_eq!(o.behaviour(), CurrentBehaviour::Idle);
        assert!(o.perceived().is_empty());
        assert!(o.stomach().is_empty());
        if d != first.wander_direction() {
            seen_two = true;
        }
    }
    assert!(seen_two);
}

#[test]
fn with_energy_changes_the_energy_only() {
    let o = prey_at(1, 1, 5).with_energy(10_000);
    assert_eq!(o.energy(), 10_000);
    assert_eq!(o.metabolism(), 10 * ONE);
    assert_eq!(o.position(), at(1, 1));
    assert_eq!(o.behaviour(), CurrentBehaviour::Idle);
}

#[test]
fn metabolic_rate_is_a_tenth() {
    assert_eq!(metabolic_rate(20 * ONE), 2 * ONE);
    assert_eq!(metabolic_rate(-25 * ONE), -2_500_000);
    assert_eq!(metabolic_rate(9), 0);
    assert_eq!(metabolic_rate(-9), 0);
    assert_eq!(metabolic_rate(i64::MAX), 922_337_203_685_477_580);
}

#[test]
fn stride_is_speed_times_rate_times_pace_times_time() {
    assert_eq!(stride(25 * ONE, 20 * ONE, ACTIVE_PACE, ONE / 10), 7_500_000);
    assert_eq!(stride(12_500_000, 10 * ONE, ACTIVE_PACE, ONE / 10), 1_875_000);
    assert_eq!(stride(12_500_000, 10 * ONE, GATHER_PACE, ONE / 10), 1_750_000);
    assert_eq!(stride(12_500_000, 10 * ONE, IDLE_PACE, 16_667), 208_337);
    assert_eq!(stride(12_500_000, 10 * ONE, IDLE_PACE, 0), 0);
    assert_eq!(stride(12_500_000, 10 * ONE, IDLE_PACE, -ONE), -12_500_000);
}

#[test]
fn a_jitter_turns_the_wander_direction() {
    assert_eq!(
        jittered(Vec2::new(ONE, 0), Vec2::new(0, ONE / 2)),
        Vec2 { x: 894_427, y: 447_213 }
    );
    assert_eq!(jittered(Vec2::new(ONE, 0), Vec2::new(0, 0)), Vec2 { x: ONE, y: 0 });
    assert_eq!(jittered(Vec2::new(ONE, 0), Vec2::new(ONE / 2, 0)), Vec2 { x: ONE, y: 0 });
    // (-0.5, -0.5) has length 707_106.78..., whose floor divides 0.5 into 707_107.
    assert_eq!(jittered(Vec2::new(0, -ONE), Vec2::new(-ONE / 2, ONE / 2)), Vec2 {
        x: -707_107,
        y: -707_107,
    });
}

#[test]
fn a_jitter_that_cancels_the_direction_is_dropped() {
    let dir = Vec2::new(400_000, -300_000);
    assert_eq!(jittered(dir, Vec2::new(-400_000, 300_000)), dir);
    assert_eq!(jittered(dir, Vec2::new(-400_000, 310_000)), dir);
    assert_eq!(jittered(dir, Vec2::new(-400_000, 310_001)), Vec2 { x: 0, y: ONE });
}

#[test]
fn the_wander_direction_stays_a_unit_vector() {
    let mut dir = Vec2::new(ONE, 0);
    let span: i64 = ONE / 2;
    let mut a: i64 = -span;
    while a <= span {
        let mut b: i64 = -span;
        while b <= span {
            dir = jittered(dir, Vec2::new(a, b));
            assert!(is_unit(dir), "after ({}, {})", a, b);
            b += 33_333;
        }
        a += 33_333;
    }
}

#[test]
fn an_idle_organism_wanders_along_its_direction() {
    let mut o = Organism::with_direction(
        10 * ONE,
        0,
        at(1, 1),
        BehaviourArchetypes::Prey,
        Vec2::new(600_000, 800_000),
    );
    o.movement_with(ONE, None);
    assert_eq!(o.position(), Vec2 { x: 8_500_000, y: 11_000_000 });
    assert_eq!(o.wander_direction(), Vec2 { x: 600_000, y: 800_000 });
    o.movement_with(ONE / 10, None);
    assert_eq!(o.position(), Vec2 { x: 9_250_000, y: 12_000_000 });
}

#[test]
fn an_idle_organism_moves_along_the_jittered_direction() {
    let mut o = prey_at(0, 0, 0);
    o.movement_with(ONE, Some(Vec2::new(0, ONE / 2)));
    assert_eq!(o.wander_direction(), Vec2 { x: 894_427, y: 447_213 });
    // 12.5 units along the new direction, each coordinate rounded toward zero.
    assert_eq!(o.position(), Vec2 { x: 11_180_337, y: 5_590_162 });
}

#[test]
fn a_step_of_no_length_moves_nothing() {
    let mut o = prey_at(7, 7, 0);
    o.movement_with(0, None);
    assert_eq!(o.position(), at(7, 7));
    o.movement_with(0, Some(Vec2::new(ONE / 2, ONE / 2)));
    assert_eq!(o.position(), at(7, 7));
    assert_eq!(o.wander_direction(), Vec2 { x: 948_683, y: 316_227 });
}

#[test]
fn random_movement_keeps_to_the_contract() {
    for _ in 0..2_000 {
        let mut o = prey_at(0, 0, 0);
        o.movement(ONE);
        let d = o.wander_direction();
        assert!(d == Vec2::new(ONE, 0) || is_unit(d));
        assert_eq!(o.position(), d.scaled(12_500_000));
        assert_eq!(o.energy(), 100 * ONE);
    }
}

#[test]
fn movement_at_the_edge_of_the_range_saturates() {
    let mut o = Organism::with_direction(
        10 * ONE,
        0,
        Vec2::new(i64::MAX - 5, i64::MIN + 5),
        BehaviourArchetypes::Prey,
        Vec2::new(ONE, -ONE),
    );
    o.movement_with(ONE, None);
    assert_eq!(o.position(), Vec2 { x: i64::MAX, y: i64::MIN });
}

#[test]
fn add_vision_perceives_within_the_radius() {
    let mut a = prey_at(0, 0, 5);
    let near = hunter_at(3, 4, 0);
    let far = Organism::with_direction(
        20 * ONE,
        0,
        Vec2::new(3 * ONE, 4 * ONE + 1),
        BehaviourArchetypes::Hunter,
        Vec2::new(0, ONE),
    );
    a.add_vision(&far);
    assert!(a.perceived().is_empty());
    a.add_vision(&near);
    assert_eq!(a.perceived().len(), 1);
    assert_eq!(a.perceived()[0], PerceivedEntity::Organism {
        pos: at(3, 4),
        kind: BehaviourArchetypes::Hunter,
    });
    a.add_vision(&near);
    assert_eq!(a.perceived().len(), 2);
}

#[test]
fn add_vision_goes_by_the_own_radius() {
    let mut small = prey_at(0, 0, 1);
    let mut large = hunter_at(5, 0, 50);
    let small_before = prey_at(0, 0, 1);
    let large_before = hunter_at(5, 0, 50);
    small.add_vision(&large_before);
    large.add_vision(&small_before);
    assert!(small.perceived().is_empty());
    assert_eq!(large.perceived().len(), 1);
}

#[test]
fn clear_vision_forgets_everything() {
    let mut a = prey_at(0, 0, 5);
    a.add_vision(&hunter_at(1, 1, 0));
    a.add_visible_food(&[plant(1, 0, ONE)]);
    assert_eq!(a.perceived().len(), 2);
    a.clear_vision();
    assert!(a.perceived().is_empty());
    assert_eq!(a.position(), at(0, 0));
    assert_eq!(a.energy(), 100 * ONE);
}

#[test]
fn add_visible_food_keeps_the_order_of_the_list() {
    let mut a = prey_at(0, 0, 5);
    a.add_vision(&hunter_at(1, 1, 0));
    let list = [plant(4, 0, 1), meat(6, 0, 2), plant(0, -5, 3), meat(0, 0, 4), plant(4, 4, 5)];
    a.add_visible_food(&list);
    let seen = a.perceived();
    assert_eq!(seen.len(), 4);
    assert_eq!(seen[1], PerceivedEntity::Food { pos: at(4, 0), food_type: FoodTypes::Plant(1) });
    assert_eq!(seen[2], PerceivedEntity::Food { pos: at(0, -5), food_type: FoodTypes::Plant(3) });
    assert_eq!(seen[3], PerceivedEntity::Food { pos: at(0, 0), food_type: FoodTypes::Meat(4) });
}

#[test]
fn add_visible_food_of_an_empty_list_changes_nothing() {
    let mut a = prey_at(0, 0, 5);
    a.add_visible_food(&[]);
    assert!(a.perceived().is_empty());
}

#[test]
fn vision_sets_the_behaviour_of_a_prey() {
    let mut a = prey_at(5, 0, 50);
    a.add_visible_food(&[plant(5, 3, ONE)]);
    a.vision();
    assert_eq!(a.behaviour(), CurrentBehaviour::Gather(Vec2 { x: 0, y: ONE }));
    a.add_vision(&hunter_at(0, 0, 0));
    a.vision();
    assert_eq!(a.behaviour(), CurrentBehaviour::Active(Vec2 { x: ONE, y: 0 }));
    a.clear_vision();
    a.vision();
    assert_eq!(a.behaviour(), CurrentBehaviour::Idle);
}

#[test]
fn vision_sets_the_behaviour_of_a_hunter() {
    let mut a = hunter_at(0, 0, 50);
    a.add_visible_food(&[plant(1, 0, ONE), meat(0, -2, ONE)]);
    a.vision();
    assert_eq!(a.behaviour(), CurrentBehaviour::Gather(Vec2 { x: 0, y: -ONE }));
    a.add_vision(&prey_at(-3, -4, 0));
    a.vision();
    assert_eq!(a.behaviour(), CurrentBehaviour::Active(Vec2 { x: -600_000, y: -800_000 }));
}

#[test]
fn prey_vision_and_hunter_vision_apply_their_policy_to_any_organism() {
    let mut a = hunter_at(0, 0, 50);
    a.add_vision(&hunter_at(0, 2, 0));
    a.add_vision(&prey_at(2, 0, 0));
    a.prey_vision();
    assert_eq!(a.behaviour(), CurrentBehaviour::Active(Vec2 { x: 0, y: -ONE }));
    a.hunter_vision();
    assert_eq!(a.behaviour(), CurrentBehaviour::Active(Vec2 { x: ONE, y: 0 }));
}

#[test]
fn an_active_organism_moves_at_one_and_a_half_times_its_pace() {
    let mut a = hunter_at(0, 0, 50);
    a.add_vision(&prey_at(10, 0, 0));
    a.vision();
    a.movement_with(ONE / 10, Some(Vec2::new(ONE / 2, ONE / 2)));
    assert_eq!(a.position(), Vec2 { x: 7_500_000, y: 0 });
    assert_eq!(a.wander_direction(), Vec2 { x: 0, y: ONE });
}

#[test]
fn a_gathering_organism_moves_at_1_4_times_its_pace() {
    let mut a = prey_at(0, 0, 50);
    a.add_visible_food(&[plant(0, 10, ONE)]);
    a.vision();
    a.movement_with(ONE / 10, None);
    assert_eq!(a.position(), Vec2 { x: 0, y: 1_750_000 });
}

#[test]
fn gathering_takes_what_is_within_one_unit() {
    let mut a = prey_at(0, 0, 0);
    let on_the_edge = Food::new(Vec2::new(600_000, 800_000), FoodTypes::Meat(7));
    let just_outside = Food::new(Vec2::new(600_000, 800_001), FoodTypes::Plant(8));
    let mut field = field_of(vec![
        plant(0, 0, 1),
        plant(2, 0, 2),
        on_the_edge,
        just_outside,
        meat(0, -1, 3),
        meat(-1, -1, 4),
    ]);
    a.try_gather_food(&mut field);
    assert_eq!(a.stomach(), &vec![FoodTypes::Plant(1), FoodTypes::Meat(7), FoodTypes::Meat(3)]);
    assert_eq!(field.items, vec![plant(2, 0, 2), just_outside, meat(-1, -1, 4)]);
}

#[test]
fn gathering_ignores_the_vision_radius_and_the_kind() {
    let mut blind_hunter = hunter_at(0, 0, 0);
    let mut field = field_of(vec![plant(0, 0, 5 * ONE)]);
    blind_hunter.try_gather_food(&mut field);
    assert_eq!(blind_hunter.stomach(), &vec![FoodTypes::Plant(5 * ONE)]);
    assert_eq!(field.len(), 0);
}

#[test]
fn gathering_from_an_empty_field() {
    let mut a = prey_at(0, 0, 5);
    let mut field = FoodField::new();
    a.try_gather_food(&mut field);
    assert!(a.stomach().is_empty());
    assert_eq!(field.len(), 0);
}

#[test]
fn gathering_appends_to_the_stomach() {
    let mut a = prey_at(0, 0, 5);
    let mut first = field_of(vec![plant(0, 0, 1)]);
    let mut second = field_of(vec![meat(0, 0, 2)]);
    a.try_gather_food(&mut first);
    a.try_gather_food(&mut second);
    assert_eq!(a.stomach(), &vec![FoodTypes::Plant(1), FoodTypes::Meat(2)]);
}

#[test]
fn digest_rate_is_thirteen_thirtieths_of_the_metabolism() {
    assert_eq!(digest_rate(15 * ONE, ONE), 6_500_000);
    assert_eq!(digest_rate(10 * ONE, ONE), 4_333_333);
    assert_eq!(digest_rate(10 * ONE, 16_667), 72_223);
    assert_eq!(digest_rate(10 * ONE, 0), 0);
    assert_eq!(digest_rate(0, ONE), 0);
}

#[test]
fn a_bite_is_the_lesser_of_rate_and_rest() {
    assert_eq!(bite(5, FoodTypes::Plant(9)), 5);
    assert_eq!(bite(5, FoodTypes::Meat(5)), 5);
    assert_eq!(bite(5, FoodTypes::Meat(3)), 3);
    assert_eq!(bite(5, FoodTypes::Plant(0)), 0);
    assert_eq!(bite(5, FoodTypes::Plant(-2)), -2);
    assert_eq!(bite(-5, FoodTypes::Plant(2)), -5);
}

#[test]
fn a_chewed_item_never_has_negative_energy() {
    assert_eq!(chewed(5, FoodTypes::Plant(9)), FoodTypes::Plant(4));
    assert_eq!(chewed(5, FoodTypes::Meat(5)), FoodTypes::Meat(0));
    assert_eq!(chewed(5, FoodTypes::Meat(3)), FoodTypes::Meat(0));
    assert_eq!(chewed(5, FoodTypes::Plant(-2)), FoodTypes::Plant(0));
    assert_eq!(chewed(-5, FoodTypes::Plant(2)), FoodTypes::Plant(7));
    assert_eq!(chewed(i64::MIN, FoodTypes::Plant(i64::MAX)), FoodTypes::Plant(i64::MAX));
}

#[test]
fn digestion_moves_the_bites_into_the_energy() {
    let mut a = Organism::with_direction(
        15 * ONE,
        0,
        at(0, 0),
        BehaviourArchetypes::Prey,
        Vec2::new(ONE, 0),
    );
    let mut field = field_of(vec![
        plant(0, 0, 100 * ONE),
        meat(0, 0, 3 * ONE),
        plant(0, 0, 6_500_000),
        meat(0, 0, 6_500_001),
    ]);
    a.try_gather_food(&mut field);
    a.digest_food(ONE);
    // 6.5 + 3 + 6.5 + 6.5
    assert_eq!(a.energy(), 122_500_000);
    assert_eq!(a.stomach(), &vec![FoodTypes::Plant(93_500_000), FoodTypes::Meat(1)]);
    a.digest_food(ONE);
    assert_eq!(a.energy(), 129_000_001);
    assert_eq!(a.stomach(), &vec![FoodTypes::Plant(87 * ONE)]);
}

#[test]
fn digestion_with_an_empty_stomach_changes_nothing() {
    let mut a = prey_at(0, 0, 0);
    a.digest_food(ONE);
    assert_eq!(a.energy(), 100 * ONE);
    assert!(a.stomach().is_empty());
}

#[test]
fn digestion_in_no_time_only_drops_what_is_used_up() {
    let mut a = prey_at(0, 0, 0);
    let mut field = field_of(vec![plant(0, 0, 5), meat(0, 0, 0), plant(0, 0, 7)]);
    a.try_gather_food(&mut field);
    a.digest_food(0);
    assert_eq!(a.energy(), 100 * ONE);
    assert_eq!(a.stomach(), &vec![FoodTypes::Plant(5), FoodTypes::Plant(7)]);
}

#[test]
fn digestion_saturates_the_energy() {
    let mut a = prey_at(0, 0, 0).with_energy(i64::MAX - 10);
    let mut field = field_of(vec![plant(0, 0, 100 * ONE)]);
    a.try_gather_food(&mut field);
    a.digest_food(ONE);
    assert_eq!(a.energy(), i64::MAX);
    assert_eq!(a.stomach(), &vec![FoodTypes::Plant(95_666_667)]);
}

#[test]
fn the_cost_of_each_behaviour() {
    assert_eq!(activity_cost(CurrentBehaviour::Idle), ONE);
    assert_eq!(activity_cost(CurrentBehaviour::Active(Vec2::new(ONE, 0))), 2 * ONE);
    assert_eq!(activity_cost(CurrentBehaviour::Gather(Vec2::new(ONE, 0))), 1_500_000);
}

#[test]
fn upkeep_is_metabolism_times_cost_times_time() {
    assert_eq!(upkeep(5 * ONE, CurrentBehaviour::Idle, ONE), 5 * ONE);
    assert_eq!(upkeep(5 * ONE, CurrentBehaviour::Active(Vec2::new(ONE, 0)), ONE), 10 * ONE);
    assert_eq!(upkeep(5 * ONE, CurrentBehaviour::Gather(Vec2::new(ONE, 0)), ONE), 7_500_000);
    assert_eq!(upkeep(10 * ONE, CurrentBehaviour::Idle, 16_667), 166_670);
    assert_eq!(upkeep(10 * ONE, CurrentBehaviour::Idle, 0), 0);
}

#[test]
fn energy_consumption_digests_and_then_charges() {
    let mut a = Organism::with_direction(
        15 * ONE,
        0,
        at(0, 0),
        BehaviourArchetypes::Prey,
        Vec2::new(ONE, 0),
    );
    let mut field = field_of(vec![plant(0, 0, 100 * ONE), meat(0, 0, 3 * ONE)]);
    a.try_gather_food(&mut field);
    a.energy_consumption(ONE);
    // 100 + (6.5 + 3) - 15
    assert_eq!(a.energy(), 94_500_000);
    assert_eq!(a.stomach(), &vec![FoodTypes::Plant(93_500_000)]);
}

#[test]
fn energy_consumption_charges_by_the_behaviour() {
    let mut a = hunter_at(0, 0, 50);
    a.add_vision(&prey_at(10, 0, 0));
    a.vision();
    a.energy_consumption(ONE / 2);
    // 100 - 20 * 2 * 0.5
    assert_eq!(a.energy(), 80 * ONE);
    let mut b = prey_at(0, 0, 50);
    b.add_visible_food(&[plant(0, 10, ONE)]);
    b.vision();
    b.energy_consumption(ONE);
    // 100 - 10 * 1.5 * 1
    assert_eq!(b.energy(), 85 * ONE);
}

#[test]
fn energy_consumption_saturates_below() {
    let mut a = prey_at(0, 0, 0).with_energy(i64::MIN + 5);
    a.energy_consumption(ONE);
    assert_eq!(a.energy(), i64::MIN);
}
