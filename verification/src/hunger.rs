//! Hunger: at every firing of its timer the player grows hungrier by one,
//! and starves at the threshold.

use vstd::prelude::*;
use crate::registry::{EntityId, Player, Registry, World, STARVATION};
use crate::timer::{IntervalTimer, TICKS_PER_UNIT};

verus! {

/// Ticks between two firings of the hunger timer: five time-units.
pub const HUNGER_PERIOD: u64 = 5 * TICKS_PER_UNIT;

/// The player starved and left the world.
#[derive(Clone, Copy, Debug, PartialEq, Eq, Structural)]
pub struct DeathEvent {
    pub player: EntityId,
    pub hunger: i64,
}

/// The world after one firing of the hunger timer: a living player is one
/// hungrier, and is gone if that reaches the threshold.
pub open spec fn starved(world: World) -> World {
    World {
        player: match world.player {
            Some(p) => if p.hunger + 1 >= STARVATION {
                None
            } else {
                Some(
                    Player {
                        id: p.id,
                        position: p.position,
                        scale: p.scale,
                        facing: p.facing,
                        hunger: (p.hunger + 1) as i64,
                    },
                )
            },
            None => None,
        },
        items: world.items,
        issued: world.issued,
    }
}

/// The death that one firing of the hunger timer brings, if any.
pub open spec fn death_by_hunger(world: World) -> Option<DeathEvent> {
    match world.player {
        Some(p) => if p.hunger + 1 >= STARVATION {
            Some(DeathEvent { player: p.id, hunger: (p.hunger + 1) as i64 })
        } else {
            None
        },
        None => None,
    }
}

/// The world after `fires` firings of the hunger timer with nothing eaten
/// in between.
pub open spec fn starved_times(world: World, fires: nat) -> World
    decreases fires,
{
    if fires == 0 {
        world
    } else {
        starved(starved_times(world, (fires - 1) as nat))
    }
}

/// The system that makes the player hungry.
pub struct HungerSystem {
    pub timer: IntervalTimer,
}

impl HungerSystem {
    /// A hunger system whose timer has the standard period and has seen no
    /// time yet.
    pub fn new() -> (system: HungerSystem)
        ensures
            system.timer == (IntervalTimer { period: HUNGER_PERIOD, elapsed: 0 }),
    {
        HungerSystem { timer: IntervalTimer::new(HUNGER_PERIOD) }
    }

    /// Feeds `delta` ticks to the timer. If it fires, the living player
    /// grows hungrier by one and, at the threshold, is removed and reported
    /// dead. Does nothing to the registry otherwise, or where no player
    /// lives.
    pub fn tick(&mut self, delta: u64, registry: &mut Registry) -> (death: Option<DeathEvent>)
        requires
            old(registry).wf(),
        ensures
            final(registry).wf(),
            final(self).timer == old(self).timer.advanced(delta),
            final(registry)@ == if old(self).timer.fires(delta) {
                starved(old(registry)@)
            } else {
                old(registry)@
            },
            death == if old(self).timer.fires(delta) {
                death_by_hunger(old(registry)@)
            } else {
                None
            },
    {
        if !self.timer.advance(delta) {
            return None;
        }
        match registry.player() {
            Some(p) => {
                let hunger = p.hunger + 1;
                if hunger >= STARVATION {
                    registry.put_player(None);
                    Some(DeathEvent { player: p.id, hunger })
                } else {
                    registry.put_player(
                        Some(
                            Player {
                                id: p.id,
                                position: p.position,
                                scale: p.scale,
                                facing: p.facing,
                                hunger,
                            },
                        ),
                    );
                    None
                }
            },
            None => None,
        }
    }
}

/// A player that starts without hunger and eats nothing has, after any
/// number of firings below the threshold, a hunger equal to that number, and
/// is gone from the tenth firing on.
pub proof fn lemma_hunger_counts_fires(world: World, fires: nat)
    requires
        world.player is Some,
        world.player.unwrap().hunger == 0,
    ensures
        fires < STARVATION ==> starved_times(world, fires).player == Some(
            Player {
                id: world.player.unwrap().id,
                position: world.player.unwrap().position,
                scale: world.player.unwrap().scale,
                facing: world.player.unwrap().facing,
                hunger: fires as i64,
            },
        ),
        fires >= STARVATION ==> starved_times(world, fires).player is None,
        starved_times(world, fires).items == world.items,
        starved_times(world, fires).issued == world.issued,
    decreases fires,
{
    if fires > 0 {
        lemma_hunger_counts_fires(world, (fires - 1) as nat);
    }
}

/// Hunger never raises the dead: once no player lives, firings change
/// nothing.
pub proof fn lemma_hunger_spares_the_dead(world: World)
    requires
        world.player is None,
    ensures
        starved(world) == world,
{
}

} // verus!
