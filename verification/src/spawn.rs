//! Spawning: at every firing of its timer a new item appears at a random
//! place within the bounds of the world.

use vstd::prelude::*;
use rand::rngs::StdRng;
use crate::error::SimError;
use crate::random::draw_between;
use crate::registry::{EntityId, Registry, ID_LIMIT};
use crate::space::{Position, SUBUNITS_PER_UNIT};
use crate::timer::{IntervalTimer, TICKS_PER_UNIT};

verus! {

/// Ticks between two firings of the spawn timer: ten time-units.
pub const SPAWN_PERIOD: u64 = 10 * TICKS_PER_UNIT;

/// Items appear no further than this from the vertical axis.
pub const WORLD_HALF_WIDTH: i64 = 330 * SUBUNITS_PER_UNIT;

/// Items appear no further than this from the horizontal axis.
pub const WORLD_HALF_HEIGHT: i64 = 625 * SUBUNITS_PER_UNIT;

/// The rectangle in which items appear, edges included.
#[derive(Clone, Copy, Debug, PartialEq, Eq, Structural)]
pub struct WorldBounds {
    pub x_min: i64,
    pub x_max: i64,
    pub y_min: i64,
    pub y_max: i64,
}

impl WorldBounds {
    /// Neither range of coordinates is empty.
    pub open spec fn valid(self) -> bool {
        self.x_min <= self.x_max && self.y_min <= self.y_max
    }

    /// Whether `position` lies in the rectangle.
    pub open spec fn contains(self, position: Position) -> bool {
        self.x_min <= position.x <= self.x_max && self.y_min <= position.y <= self.y_max
    }

    /// The bounds of the standard world.
    pub open spec fn standard_bounds() -> WorldBounds {
        WorldBounds {
            x_min: (-WORLD_HALF_WIDTH) as i64,
            x_max: WORLD_HALF_WIDTH,
            y_min: (-WORLD_HALF_HEIGHT) as i64,
            y_max: WORLD_HALF_HEIGHT,
        }
    }

    pub fn standard() -> (bounds: WorldBounds)
        ensures
            bounds == WorldBounds::standard_bounds(),
            bounds.valid(),
    {
        WorldBounds {
            x_min: -WORLD_HALF_WIDTH,
            x_max: WORLD_HALF_WIDTH,
            y_min: -WORLD_HALF_HEIGHT,
            y_max: WORLD_HALF_HEIGHT,
        }
    }

    pub fn is_valid(&self) -> (ok: bool)
        ensures
            ok == self.valid(),
    {
        self.x_min <= self.x_max && self.y_min <= self.y_max
    }

    pub fn holds(&self, position: &Position) -> (inside: bool)
        ensures
            inside == self.contains(*position),
    {
        self.x_min <= position.x && position.x <= self.x_max && self.y_min <= position.y
            && position.y <= self.y_max
    }
}

/// What a spawn system holds: its timer and the bounds it draws within.
pub struct SpawnState {
    pub timer: IntervalTimer,
    pub bounds: WorldBounds,
}

/// The system that makes items appear.
pub struct SpawnSystem {
    timer: IntervalTimer,
    bounds: WorldBounds,
}

impl SpawnSystem {
    pub closed spec fn view(&self) -> SpawnState {
        SpawnState { timer: self.timer, bounds: self.bounds }
    }

    /// The bounds can be drawn from.
    pub open spec fn wf(&self) -> bool {
        self@.bounds.valid()
    }

    /// A spawn system for the given bounds, whose timer has the standard
    /// period and has seen no time yet. Bounds with an empty range are
    /// refused here, before anything is drawn from them.
    pub fn new(bounds: WorldBounds) -> (made: Result<SpawnSystem, SimError>)
        ensures
            match made {
                Ok(system) => {
                    &&& bounds.valid()
                    &&& system.wf()
                    &&& system@ == (SpawnState {
                        timer: IntervalTimer { period: SPAWN_PERIOD, elapsed: 0 },
                        bounds,
                    })
                },
                Err(e) => !bounds.valid() && e == SimError::InvalidRandomRange,
            },
    {
        if bounds.is_valid() {
            Ok(SpawnSystem { timer: IntervalTimer::new(SPAWN_PERIOD), bounds })
        } else {
            Err(SimError::InvalidRandomRange)
        }
    }

    /// The spawn system of the standard world.
    pub fn standard() -> (system: SpawnSystem)
        ensures
            system.wf(),
            system@ == (SpawnState {
                timer: IntervalTimer { period: SPAWN_PERIOD, elapsed: 0 },
                bounds: WorldBounds::standard_bounds(),
            }),
    {
        SpawnSystem { timer: IntervalTimer::new(SPAWN_PERIOD), bounds: WorldBounds::standard() }
    }

    pub fn timer(&self) -> (timer: IntervalTimer)
        ensures
            timer == self@.timer,
    {
        self.timer
    }

    pub fn bounds(&self) -> (bounds: WorldBounds)
        ensures
            bounds == self@.bounds,
    {
        self.bounds
    }

    /// Feeds `delta` ticks to the timer. If it fires and an identifier is
    /// left, creates an item at `spot`, visited after all others.
    pub fn tick_at(&mut self, delta: u64, registry: &mut Registry, spot: Position) -> (spawned:
        Option<EntityId>)
        requires
            old(self).wf(),
            old(registry).wf(),
            old(self)@.bounds.contains(spot),
        ensures
            final(self).wf(),
            final(registry).wf(),
            final(self)@.bounds == old(self)@.bounds,
            final(self)@.timer == old(self)@.timer.advanced(delta),
            spawned == if old(self)@.timer.fires(delta) && old(registry)@.issued < ID_LIMIT {
                Some(EntityId(old(registry)@.issued))
            } else {
                None
            },
            final(registry)@ == if old(self)@.timer.fires(delta) {
                old(registry)@.with_item(spot)
            } else {
                old(registry)@
            },
    {
        if self.timer.advance(delta) {
            registry.insert_item(spot)
        } else {
            None
        }
    }

    /// Feeds `delta` ticks to the timer. If it fires and an identifier is
    /// left, draws a coordinate for each axis and creates an item there,
    /// visited after all others. Which place is drawn is not determined;
    /// it lies within the bounds, and the registry ends as `tick_at` would
    /// leave it for that place.
    pub fn tick(&mut self, delta: u64, registry: &mut Registry, rng: &mut StdRng) -> (spawned:
        Option<EntityId>)
        requires
            old(self).wf(),
            old(registry).wf(),
        ensures
            final(self).wf(),
            final(registry).wf(),
            final(self)@.bounds == old(self)@.bounds,
            final(self)@.timer == old(self)@.timer.advanced(delta),
            spawned == if old(self)@.timer.fires(delta) && old(registry)@.issued < ID_LIMIT {
                Some(EntityId(old(registry)@.issued))
            } else {
                None
            },
            match spawned {
                Some(_) => {
                    &&& final(registry)@ == old(registry)@.with_item(
                        final(registry)@.items.last().position,
                    )
                    &&& old(self)@.bounds.contains(final(registry)@.items.last().position)
                },
                None => final(registry)@ == old(registry)@,
            },
    {
        if !self.timer.advance(delta) {
            return None;
        }
        if registry.issued() >= ID_LIMIT {
            return None;
        }
        let x = draw_between(rng, self.bounds.x_min, self.bounds.x_max);
        let y = draw_between(rng, self.bounds.y_min, self.bounds.y_max);
        registry.insert_item(Position { x, y })
    }
}

} // verus!
