use hungry_snake::clock::Clock;
use hungry_snake::error::SimError;
use hungry_snake::hunger::{DeathEvent, HUNGER_PERIOD};
use hungry_snake::movement::CommandSet;
use hungry_snake::registry::{EntityId, Facing, Item, Player, Role};
use hungry_snake::simulation::{Simulation, StepReport, INITIAL_SCALE};
use hungry_snake::space::Position;
use hungry_snake::spawn::{WorldBounds, SPAWN_PERIOD};
use rand::rngs::StdRng;
use rand::SeedableRng;

const UNIT: u64 = 1_000_000;

fn idle() -> CommandSet {
    CommandSet::none()
}

fn far_corner() -> Position {
    Position::new(330_000_000, 625_000_000)
}

#[test]
fn a_simulation_starts_with_the_player_alone_at_the_origin() {
    let simulation = Simulation::new();
    assert_eq!(INITIAL_SCALE, 6_000_000);
    assert_eq!(
        simulation.player(),
        Some(Player {
            id: EntityId(0),
            position: Position::new(0, 0),
            scale: 6_000_000,
            facing: Facing::Right,
            hunger: 0,
        })
    );
    assert_eq!(simulation.registry().item_count(), 0);
    assert_eq!(simulation.registry().role_of(EntityId(0)), Some(Role::Player));
    assert_eq!(simulation.clock(), Clock { now: 0, delta: 0 });
    assert_eq!(simulation.hunger_timer().period(), HUNGER_PERIOD);
    assert_eq!(simulation.spawn_timer().period(), SPAWN_PERIOD);
    assert_eq!(simulation.bounds(), WorldBounds::standard());
}

#[test]
fn a_simulation_refuses_bounds_with_an_empty_range() {
    let bounds = WorldBounds { x_min: 0, x_max: 10, y_min: 10, y_max: 0 };
    assert!(matches!(Simulation::with_bounds(bounds), Err(SimError::InvalidRandomRange)));
    let narrow = WorldBounds { x_min: -1, x_max: 1, y_min: -1, y_max: 1 };
    match Simulation::with_bounds(narrow) {
        Ok(simulation) => assert_eq!(simulation.bounds(), narrow),
        Err(_) => panic!("valid bounds were refused"),
    }
}

#[test]
fn hunger_equals_the_number_of_fires_while_nothing_is_eaten() {
    let mut simulation = Simulation::new();
    for fires in 1..=9 {
        let report = simulation.step_at(5 * UNIT, idle(), far_corner());
        assert!(report.hunger_rose);
        assert_eq!(report.consumed, 0);
        assert_eq!(report.death, None);
        assert_eq!(report.hunger, Some(fires));
        assert_eq!(simulation.player().unwrap().hunger, fires);
    }
    let last = simulation.step_at(5 * UNIT, idle(), far_corner());
    assert_eq!(last.death, Some(DeathEvent { player: EntityId(0), hunger: 10 }));
    assert_eq!(last.hunger, None);
    assert_eq!(simulation.player(), None);
}

#[test]
fn a_fire_and_one_meal_in_the_same_step_leave_hunger_as_it_was() {
    let mut simulation = Simulation::new();
    let first = simulation.step_at(5 * UNIT, idle(), far_corner());
    assert_eq!(first.hunger, Some(1));
    // Second step: the hunger timer fires, and the item that appears lies
    // within reach of the player and is eaten at once.
    let near = Position::new(1_000_000, 1_000_000);
    let second = simulation.step_at(5 * UNIT, idle(), near);
    assert_eq!(
        second,
        StepReport {
            hunger_rose: true,
            death: None,
            spawned: Some(Item { id: EntityId(1), position: near }),
            consumed: 1,
            hunger: Some(1),
        }
    );
    assert_eq!(simulation.player().unwrap().hunger, 1);
    assert_eq!(simulation.registry().item_count(), 0);
}

#[test]
fn hunger_is_applied_before_collisions() {
    let mut simulation = Simulation::new();
    for _ in 0..9 {
        simulation.step_at(5 * UNIT, idle(), far_corner());
    }
    assert_eq!(simulation.player().unwrap().hunger, 9);
    let items_before = simulation.registry().item_count();
    // The tenth fire comes together with an item right at the player: the
    // player starves before it could eat.
    let report = simulation.step_at(5 * UNIT, idle(), Position::new(0, 0));
    assert_eq!(report.death, Some(DeathEvent { player: EntityId(0), hunger: 10 }));
    assert_eq!(report.consumed, 0);
    assert!(report.spawned.is_some());
    assert_eq!(simulation.player(), None);
    assert_eq!(simulation.registry().item_count(), items_before + 1);
}

#[test]
fn the_steps_run_in_order_and_see_each_other() {
    let mut simulation = Simulation::new();
    let right = CommandSet { left: false, right: true, up: false, down: false, grow: false };
    // The item appears 1500 units to the right, out of the standard bounds,
    // so use a wider world.
    let wide = WorldBounds {
        x_min: -2_000_000_000,
        x_max: 2_000_000_000,
        y_min: -10,
        y_max: 10,
    };
    let mut wide_simulation = match Simulation::with_bounds(wide) {
        Ok(simulation) => simulation,
        Err(_) => panic!("valid bounds were refused"),
    };
    // One step of ten time-units: hunger fires, the item appears, the
    // player travels 1500 units to it and eats it in the same step.
    let spot = Position::new(1_500_000_000, 0);
    let report = wide_simulation.step_at(10 * UNIT, right, spot);
    assert_eq!(report.spawned, Some(Item { id: EntityId(1), position: spot }));
    assert_eq!(report.consumed, 1);
    assert!(report.hunger_rose);
    assert_eq!(report.hunger, Some(0));
    assert_eq!(wide_simulation.player().unwrap().position, spot);
    assert_eq!(wide_simulation.registry().item_count(), 0);
    // In the standard world the same commands leave the item in place.
    let report = simulation.step_at(10 * UNIT, right, far_corner());
    assert_eq!(report.consumed, 0);
    assert_eq!(report.hunger, Some(1));
    assert_eq!(simulation.registry().item_count(), 1);
}

#[test]
fn the_clock_and_the_timers_follow_the_deltas() {
    let mut simulation = Simulation::new();
    simulation.step_at(3 * UNIT, idle(), far_corner());
    simulation.step_at(4 * UNIT, idle(), far_corner());
    assert_eq!(simulation.clock(), Clock { now: 7 * UNIT, delta: 4 * UNIT });
    assert_eq!(simulation.hunger_timer().elapsed(), 2 * UNIT);
    assert_eq!(simulation.spawn_timer().elapsed(), 7 * UNIT);
    assert_eq!(simulation.player().unwrap().hunger, 1);
    assert_eq!(simulation.registry().item_count(), 0);
}

#[test]
fn a_dead_player_stays_dead_and_steps_go_on() {
    let mut simulation = Simulation::new();
    for _ in 0..10 {
        simulation.step_at(5 * UNIT, idle(), far_corner());
    }
    assert_eq!(simulation.player(), None);
    let items = simulation.registry().item_count();
    assert_eq!(items, 5);
    let everything = CommandSet { left: true, right: true, up: true, down: true, grow: true };
    for round in 1..=20 {
        let report = simulation.step_at(10 * UNIT, everything, Position::new(0, 0));
        assert_eq!(report.death, None);
        assert_eq!(report.consumed, 0);
        assert_eq!(report.hunger, None);
        assert!(!report.hunger_rose);
        assert!(report.spawned.is_some());
        assert_eq!(simulation.player(), None);
        assert_eq!(simulation.registry().item_count(), items + round);
    }
    // No step at all is fine too.
    assert_eq!(simulation.player(), None);
    assert!(!simulation.registry().contains(EntityId(0)));
}

#[test]
fn random_steps_keep_items_within_the_bounds() {
    let mut simulation = Simulation::new();
    let mut rng = StdRng::seed_from_u64(99);
    let mut spawned = 0;
    for round in 0..2_000u64 {
        let commands = CommandSet {
            left: round % 2 == 0,
            right: round % 3 == 0,
            up: round % 5 == 0,
            down: round % 7 == 0,
            grow: round % 11 == 0,
        };
        let report = simulation.step(2 * UNIT + round, commands, &mut rng);
        if let Some(item) = report.spawned {
            spawned += 1;
            assert!(simulation.bounds().holds(&item.position));
        }
        for item in simulation.registry().items().iter() {
            assert!(simulation.bounds().holds(&item.position));
        }
    }
    assert!(spawned >= 400);
}

#[test]
fn random_steps_report_what_they_did() {
    let mut simulation = Simulation::new();
    let mut rng = StdRng::seed_from_u64(5);
    let mut hunger = 0i64;
    let mut alive = true;
    for _ in 0..200 {
        let before = simulation.registry().item_count() as u64;
        let report = simulation.step(UNIT, idle(), &mut rng);
        let after = simulation.registry().item_count() as u64;
        let appeared = if report.spawned.is_some() { 1 } else { 0 };
        assert_eq!(after + report.consumed, before + appeared);
        if alive {
            if report.death.is_some() {
                alive = false;
                assert_eq!(report.hunger, None);
            } else {
                hunger = hunger + if report.hunger_rose { 1 } else { 0 } - report.consumed as i64;
                assert_eq!(report.hunger, Some(hunger));
            }
        } else {
            assert_eq!(report.hunger, None);
            assert_eq!(report.consumed, 0);
            assert!(!report.hunger_rose);
        }
        assert_eq!(simulation.player().map(|p| p.hunger), report.hunger);
    }
}
