//! The simulation loop: one step runs the clock, hunger, spawning, movement
//! and collisions, in that order, each seeing what the one before it did.

use vstd::prelude::*;
use rand::rngs::StdRng;
use crate::clock::Clock;
use crate::collision::{fed, meals, out_of_reach, CollisionSystem};
use crate::error::SimError;
use crate::hunger::{death_by_hunger, starved, DeathEvent, HungerSystem, HUNGER_PERIOD};
use crate::movement::{world_steered, CommandSet, MovementSystem};
use crate::registry::{
    lemma_filter_keeps_items, EntityId, Item, Player, Registry, World, ID_LIMIT, STARVATION,
};
use crate::space::Position;
use crate::spawn::{SpawnSystem, WorldBounds, SPAWN_PERIOD};
use crate::timer::IntervalTimer;

verus! {

/// The scale a player starts with: six, in millionths.
pub const INITIAL_SCALE: u64 = 6_000_000;

/// What one step did.
#[derive(Clone, Copy, Debug, PartialEq, Eq, Structural)]
pub struct StepReport {
    /// The hunger timer fired while a player lived.
    pub hunger_rose: bool,
    /// The player starved in this step.
    pub death: Option<DeathEvent>,
    /// The item that appeared in this step, as it was created.
    pub spawned: Option<Item>,
    /// How many items the player ate.
    pub consumed: u64,
    /// The player's hunger after the step, where a player lives.
    pub hunger: Option<i64>,
}

/// The whole state of a simulation.
pub struct SimState {
    pub clock: Clock,
    pub hunger_timer: IntervalTimer,
    pub spawn_timer: IntervalTimer,
    pub bounds: WorldBounds,
    pub world: World,
}

/// Every item lies within the bounds.
pub open spec fn all_within(items: Seq<Item>, bounds: WorldBounds) -> bool {
    forall|k: int| 0 <= k < items.len() ==> bounds.contains((#[trigger] items[k]).position)
}

/// The place a report names for the item that appeared; the origin where
/// none did.
pub open spec fn spawn_spot(report: StepReport) -> Position {
    match report.spawned {
        Some(item) => item.position,
        None => Position { x: 0, y: 0 },
    }
}

impl SimState {
    /// The registry is in order, the bounds can be drawn from, and every
    /// item lies within them.
    pub open spec fn wf(self) -> bool {
        &&& self.world.wf()
        &&& self.bounds.valid()
        &&& all_within(self.world.items, self.bounds)
    }

    /// The state a simulation starts in: time zero, both timers fresh, and
    /// the player alone at the origin.
    pub open spec fn initial(bounds: WorldBounds) -> SimState {
        SimState {
            clock: Clock { now: 0, delta: 0 },
            hunger_timer: IntervalTimer { period: HUNGER_PERIOD, elapsed: 0 },
            spawn_timer: IntervalTimer { period: SPAWN_PERIOD, elapsed: 0 },
            bounds,
            world: (World { player: None, items: Seq::empty(), issued: 0 }).with_player(
                Position { x: 0, y: 0 },
                INITIAL_SCALE,
            ),
        }
    }

    /// Whether an item appears in a step of `delta` ticks.
    pub open spec fn spawns(self, delta: u64) -> bool {
        self.spawn_timer.fires(delta) && self.world.issued < ID_LIMIT
    }

    /// The world once hunger has had its turn.
    pub open spec fn after_hunger(self, delta: u64) -> World {
        if self.hunger_timer.fires(delta) {
            starved(self.world)
        } else {
            self.world
        }
    }

    /// The world once hunger and spawning have had their turns; `spot` is
    /// where the item appears if one does.
    pub open spec fn after_spawn(self, delta: u64, spot: Position) -> World {
        if self.spawns(delta) {
            self.after_hunger(delta).with_item(spot)
        } else {
            self.after_hunger(delta)
        }
    }

    /// The world once hunger, spawning and movement have had their turns.
    pub open spec fn after_movement(self, delta: u64, commands: CommandSet, spot: Position) -> World {
        world_steered(self.after_spawn(delta, spot), delta, commands)
    }

    /// The state after a whole step.
    pub open spec fn stepped(self, delta: u64, commands: CommandSet, spot: Position) -> SimState {
        SimState {
            clock: self.clock.advanced(delta),
            hunger_timer: self.hunger_timer.advanced(delta),
            spawn_timer: self.spawn_timer.advanced(delta),
            bounds: self.bounds,
            world: fed(self.after_movement(delta, commands, spot)),
        }
    }

    /// What that step reports.
    pub open spec fn report(self, delta: u64, commands: CommandSet, spot: Position) -> StepReport {
        StepReport {
            hunger_rose: self.hunger_timer.fires(delta) && self.world.player is Some,
            death: if self.hunger_timer.fires(delta) {
                death_by_hunger(self.world)
            } else {
                None
            },
            spawned: if self.spawns(delta) {
                Some(self.after_spawn(delta, spot).items.last())
            } else {
                None
            },
            consumed: meals(self.after_movement(delta, commands, spot)) as u64,
            hunger: match self.stepped(delta, commands, spot).world.player {
                Some(p) => Some(p.hunger),
                None => None,
            },
        }
    }
}

/// What one step is given: its length, the commands held, and the place
/// where an item appears if one does.
pub struct StepInput {
    pub delta: u64,
    pub commands: CommandSet,
    pub spot: Position,
}

impl SimState {
    /// The state after one step for each input of `inputs`, in order.
    pub open spec fn run(self, inputs: Seq<StepInput>) -> SimState
        decreases inputs.len(),
    {
        if inputs.len() == 0 {
            self
        } else {
            let last = inputs.last();
            self.run(inputs.drop_last()).stepped(last.delta, last.commands, last.spot)
        }
    }
}

/// A running simulation.
pub struct Simulation {
    clock: Clock,
    hunger: HungerSystem,
    spawner: SpawnSystem,
    registry: Registry,
}

impl Simulation {
    pub closed spec fn view(&self) -> SimState {
        SimState {
            clock: self.clock,
            hunger_timer: self.hunger.timer,
            spawn_timer: self.spawner@.timer,
            bounds: self.spawner@.bounds,
            world: self.registry@,
        }
    }

    pub open spec fn wf(&self) -> bool {
        self@.wf()
    }

    /// A simulation of the standard world, with the player just created.
    pub fn new() -> (simulation: Simulation)
        ensures
            simulation.wf(),
            simulation@ == SimState::initial(WorldBounds::standard_bounds()),
    {
        let mut registry = Registry::new();
        registry.insert_player(Position { x: 0, y: 0 }, INITIAL_SCALE);
        Simulation {
            clock: Clock::new(),
            hunger: HungerSystem::new(),
            spawner: SpawnSystem::standard(),
            registry,
        }
    }

    /// A simulation in which items appear within `bounds`. Bounds with an
    /// empty range are refused.
    pub fn with_bounds(bounds: WorldBounds) -> (made: Result<Simulation, SimError>)
        ensures
            match made {
                Ok(simulation) => {
                    &&& bounds.valid()
                    &&& simulation.wf()
                    &&& simulation@ == SimState::initial(bounds)
                },
                Err(e) => !bounds.valid() && e == SimError::InvalidRandomRange,
            },
    {
        match SpawnSystem::new(bounds) {
            Ok(spawner) => {
                let mut registry = Registry::new();
                registry.insert_player(Position { x: 0, y: 0 }, INITIAL_SCALE);
                Ok(Simulation { clock: Clock::new(), hunger: HungerSystem::new(), spawner, registry })
            },
            Err(e) => Err(e),
        }
    }

    /// Hunger's turn, with what it did to the player.
    fn run_hunger(&mut self, delta: u64) -> (outcome: (bool, Option<DeathEvent>))
        requires
            old(self).wf(),
        ensures
            final(self).wf(),
            final(self)@ == (SimState {
                hunger_timer: old(self)@.hunger_timer.advanced(delta),
                world: old(self)@.after_hunger(delta),
                ..old(self)@
            }),
            outcome.0 == (old(self)@.hunger_timer.fires(delta) && old(self)@.world.player is Some),
            outcome.1 == if old(self)@.hunger_timer.fires(delta) {
                death_by_hunger(old(self)@.world)
            } else {
                None
            },
    {
        let earlier = self.registry.player();
        let death = self.hunger.tick(delta, &mut self.registry);
        let hunger_rose = match (earlier, self.registry.player()) {
            (Some(was), Some(is)) => is.hunger != was.hunger,
            (Some(_), None) => true,
            (None, _) => false,
        };
        (hunger_rose, death)
    }

    /// The item created last, if `spawned` says that one was created.
    fn newest_item(&self, spawned: Option<EntityId>) -> (item: Option<Item>)
        requires
            spawned is Some ==> self@.world.items.len() > 0,
        ensures
            item == if spawned is Some {
                Some(self@.world.items.last())
            } else {
                None
            },
    {
        match spawned {
            Some(_) => {
                let items = self.registry.items();
                Some(items[items.len() - 1])
            },
            None => None,
        }
    }

    /// The turns of movement and collisions, and the report of the step.
    fn settle(
        &mut self,
        delta: u64,
        commands: CommandSet,
        hunger_rose: bool,
        death: Option<DeathEvent>,
        spawned: Option<Item>,
    ) -> (report: StepReport)
        requires
            old(self).wf(),
        ensures
            final(self).wf(),
            final(self)@ == (SimState {
                world: fed(world_steered(old(self)@.world, delta, commands)),
                ..old(self)@
            }),
            report == (StepReport {
                hunger_rose,
                death,
                spawned,
                consumed: meals(world_steered(old(self)@.world, delta, commands)) as u64,
                hunger: match final(self)@.world.player {
                    Some(p) => Some(p.hunger),
                    None => None,
                },
            }),
    {
        MovementSystem::tick(delta, commands, &mut self.registry);
        proof {
            if let Some(p) = self.registry@.player {
                lemma_filter_keeps_items(self.registry@.items, out_of_reach(p.position));
            }
        }
        let consumed = CollisionSystem::tick(&mut self.registry);
        let hunger = match self.registry.player() {
            Some(p) => Some(p.hunger),
            None => None,
        };
        StepReport { hunger_rose, death, spawned, consumed, hunger }
    }

    /// Runs one step of `delta` ticks under `commands`, with `spot` as the
    /// place where an item appears if one does: the clock, then hunger,
    /// spawning, movement and collisions. The step cannot fail; on a world
    /// without a player it still runs the timers and lets items appear.
    pub fn step_at(&mut self, delta: u64, commands: CommandSet, spot: Position) -> (report:
        StepReport)
        requires
            old(self).wf(),
            old(self)@.bounds.contains(spot),
        ensures
            final(self).wf(),
            final(self)@ == old(self)@.stepped(delta, commands, spot),
            report == old(self)@.report(delta, commands, spot),
    {
        let delta = self.clock.advance(delta);
        let (hunger_rose, death) = self.run_hunger(delta);
        let spawned = self.spawner.tick_at(delta, &mut self.registry, spot);
        let item = self.newest_item(spawned);
        self.settle(delta, commands, hunger_rose, death, item)
    }

    /// Runs one step of `delta` ticks under `commands`, drawing the place
    /// of a new item from `rng`. The step does what `step_at` does for the
    /// place that the report names, which lies within the bounds.
    pub fn step(&mut self, delta: u64, commands: CommandSet, rng: &mut StdRng) -> (report:
        StepReport)
        requires
            old(self).wf(),
        ensures
            final(self).wf(),
            final(self)@ == old(self)@.stepped(delta, commands, spawn_spot(report)),
            report == old(self)@.report(delta, commands, spawn_spot(report)),
            report.spawned is Some ==> old(self)@.bounds.contains(spawn_spot(report)),
    {
        let delta = self.clock.advance(delta);
        let (hunger_rose, death) = self.run_hunger(delta);
        let spawned = self.spawner.tick(delta, &mut self.registry, rng);
        let item = self.newest_item(spawned);
        self.settle(delta, commands, hunger_rose, death, item)
    }

    /// The live entities.
    pub fn registry(&self) -> (registry: &Registry)
        ensures
            registry@ == self@.world,
    {
        &self.registry
    }

    /// The player's record, if a player lives.
    pub fn player(&self) -> (player: Option<Player>)
        ensures
            player == self@.world.player,
    {
        self.registry.player()
    }

    pub fn clock(&self) -> (clock: Clock)
        ensures
            clock == self@.clock,
    {
        self.clock
    }

    pub fn hunger_timer(&self) -> (timer: IntervalTimer)
        ensures
            timer == self@.hunger_timer,
    {
        self.hunger.timer
    }

    pub fn spawn_timer(&self) -> (timer: IntervalTimer)
        ensures
            timer == self@.spawn_timer,
    {
        self.spawner.timer()
    }

    pub fn bounds(&self) -> (bounds: WorldBounds)
        ensures
            bounds == self@.bounds,
    {
        self.spawner.bounds()
    }
}

/// A step keeps the state in order: identifiers stay distinct, a living
/// player stays below the starvation threshold, and every item, the new
/// one included, lies within the bounds.
pub proof fn lemma_step_keeps_order(
    state: SimState,
    delta: u64,
    commands: CommandSet,
    spot: Position,
)
    requires
        state.wf(),
        state.bounds.contains(spot),
    ensures
        state.after_hunger(delta).wf(),
        state.after_spawn(delta, spot).wf(),
        state.after_movement(delta, commands, spot).wf(),
        state.stepped(delta, commands, spot).wf(),
{
    let hungry = state.after_hunger(delta);
    assert(hungry.wf());
    let spawned = state.after_spawn(delta, spot);
    assert(spawned.wf() && all_within(spawned.items, state.bounds));
    let moved = state.after_movement(delta, commands, spot);
    assert(moved.wf());
    if let Some(p) = moved.player {
        lemma_filter_keeps_items(moved.items, out_of_reach(p.position));
        let kept = moved.items.filter(out_of_reach(p.position));
        assert forall|k: int| 0 <= k < kept.len() implies state.bounds.contains(
            (#[trigger] kept[k]).position,
        ) by {
            let j = choose|j: int| 0 <= j < moved.items.len() && moved.items[j] == kept[k];
            assert(state.bounds.contains(moved.items[j].position));
        }
    }
}

/// The hunger of a player that lives through a step changes by what the
/// step did: up by one if the hunger timer fired, down by one for each item
/// eaten.
pub proof fn lemma_hunger_balance(
    state: SimState,
    delta: u64,
    commands: CommandSet,
    spot: Position,
)
    requires
        state.wf(),
        state.bounds.contains(spot),
        state.stepped(delta, commands, spot).world.player is Some,
    ensures
        state.world.player is Some,
        state.stepped(delta, commands, spot).world.player.unwrap().hunger
            == state.world.player.unwrap().hunger + (if state.hunger_timer.fires(delta) {
            1int
        } else {
            0int
        }) - state.report(delta, commands, spot).consumed,
{
    lemma_step_keeps_order(state, delta, commands, spot);
    let moved = state.after_movement(delta, commands, spot);
    lemma_filter_keeps_items(moved.items, out_of_reach(moved.player.unwrap().position));
}

/// A step in which the hunger timer fires and the player eats exactly one
/// item leaves the player's hunger as it was.
pub proof fn lemma_net_zero_step(
    state: SimState,
    delta: u64,
    commands: CommandSet,
    spot: Position,
)
    requires
        state.wf(),
        state.bounds.contains(spot),
        state.hunger_timer.fires(delta),
        state.report(delta, commands, spot).consumed == 1,
    ensures
        state.world.player is Some,
        state.stepped(delta, commands, spot).world.player is Some,
        state.stepped(delta, commands, spot).world.player.unwrap().hunger
            == state.world.player.unwrap().hunger,
{
    lemma_step_keeps_order(state, delta, commands, spot);
    let moved = state.after_movement(delta, commands, spot);
    if let Some(p) = moved.player {
        lemma_filter_keeps_items(moved.items, out_of_reach(p.position));
    }
    lemma_hunger_balance(state, delta, commands, spot);
}

/// Hunger has its turn before collisions: a player one short of starving
/// when the hunger timer fires is gone before it can eat, whatever lies
/// within its reach.
pub proof fn lemma_starvation_comes_first(
    state: SimState,
    delta: u64,
    commands: CommandSet,
    spot: Position,
)
    requires
        state.hunger_timer.fires(delta),
        state.world.player is Some,
        state.world.player.unwrap().hunger == STARVATION - 1,
    ensures
        state.stepped(delta, commands, spot).world.player is None,
        state.report(delta, commands, spot).consumed == 0,
        state.report(delta, commands, spot).death == Some(
            DeathEvent { player: state.world.player.unwrap().id, hunger: STARVATION },
        ),
        state.stepped(delta, commands, spot).world.items == state.after_spawn(delta, spot).items,
{
}

/// A step on a world without a player creates none and touches no item: it
/// only runs the clock and the timers and lets an item appear. Nothing is
/// eaten, nobody dies, and no hunger is reported.
pub proof fn lemma_dead_stay_dead(
    state: SimState,
    delta: u64,
    commands: CommandSet,
    spot: Position,
)
    requires
        state.world.player is None,
    ensures
        state.stepped(delta, commands, spot).world.player is None,
        state.stepped(delta, commands, spot).world.items == if state.spawns(delta) {
            state.world.items.push(Item { id: EntityId(state.world.issued), position: spot })
        } else {
            state.world.items
        },
        state.report(delta, commands, spot).consumed == 0,
        state.report(delta, commands, spot).death is None,
        state.report(delta, commands, spot).hunger is None,
        !state.report(delta, commands, spot).hunger_rose,
{
}

/// Once the player is gone it stays gone, through any number of further
/// steps, none included.
pub proof fn lemma_dead_stay_dead_forever(state: SimState, inputs: Seq<StepInput>)
    requires
        state.world.player is None,
    ensures
        state.run(inputs).world.player is None,
    decreases inputs.len(),
{
    if inputs.len() > 0 {
        let last = inputs.last();
        lemma_dead_stay_dead_forever(state, inputs.drop_last());
        lemma_dead_stay_dead(state.run(inputs.drop_last()), last.delta, last.commands, last.spot);
    }
}

/// Any run of steps whose items appear within the bounds keeps the state in
/// order.
pub proof fn lemma_run_keeps_order(state: SimState, inputs: Seq<StepInput>)
    requires
        state.wf(),
        forall|k: int| 0 <= k < inputs.len() ==> state.bounds.contains((#[trigger] inputs[k]).spot),
    ensures
        state.run(inputs).wf(),
        state.run(inputs).bounds == state.bounds,
    decreases inputs.len(),
{
    if inputs.len() > 0 {
        let last = inputs.last();
        let front = inputs.drop_last();
        assert forall|k: int| 0 <= k < front.len() implies state.bounds.contains(
            (#[trigger] front[k]).spot,
        ) by {
            assert(front[k] == inputs[k]);
        }
        lemma_run_keeps_order(state, front);
        lemma_step_keeps_order(state.run(front), last.delta, last.commands, last.spot);
    }
}

/// A step never moves an item and never shrinks the player: every item
/// after the step is one from before it, or the one that appeared, and a
/// player that lives through the step is at least as large as before.
pub proof fn lemma_step_moves_only_the_player(
    state: SimState,
    delta: u64,
    commands: CommandSet,
    spot: Position,
)
    requires
        state.wf(),
    ensures
        forall|k: int|
            0 <= k < state.stepped(delta, commands, spot).world.items.len()
                ==> state.world.items.contains(
                #[trigger] state.stepped(delta, commands, spot).world.items[k],
            ) || (state.spawns(delta) && state.stepped(delta, commands, spot).world.items[k] == (Item {
                id: EntityId(state.world.issued),
                position: spot,
            })),
        state.stepped(delta, commands, spot).world.player is Some ==> state.world.player is Some
            && state.stepped(delta, commands, spot).world.player.unwrap().scale
            >= state.world.player.unwrap().scale && state.stepped(
            delta,
            commands,
            spot,
        ).world.player.unwrap().id == state.world.player.unwrap().id,
{
    let moved = state.after_movement(delta, commands, spot);
    let after = state.stepped(delta, commands, spot).world;
    assert forall|k: int| 0 <= k < moved.items.len() implies state.world.items.contains(
        #[trigger] moved.items[k],
    ) || (state.spawns(delta) && moved.items[k] == (Item {
        id: EntityId(state.world.issued),
        position: spot,
    })) by {
        if k < state.world.items.len() {
            assert(state.world.items[k] == moved.items[k]);
        }
    }
    if let Some(p) = moved.player {
        lemma_filter_keeps_items(moved.items, out_of_reach(p.position));
        assert forall|k: int| 0 <= k < after.items.len() implies state.world.items.contains(
            #[trigger] after.items[k],
        ) || (state.spawns(delta) && after.items[k] == (Item {
            id: EntityId(state.world.issued),
            position: spot,
        })) by {
            let j = choose|j: int| 0 <= j < moved.items.len() && moved.items[j] == after.items[k];
            assert(moved.items[j] == after.items[k]);
        }
    }
}

} // verus!
