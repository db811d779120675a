//! Steering: the commands held during a step move, turn and grow the player.

use vstd::prelude::*;
use crate::registry::{Facing, Player, Registry, World};
use crate::space::{clamp_coord, coord_lowered, coord_raised, travel, Position};

verus! {

/// Growth per step in which the grow command is held, as a fraction.
pub const GROWTH_NUMERATOR: u64 = 11;

pub const GROWTH_DENOMINATOR: u64 = 10;

/// The commands held during one step. Any of them may be held together, and
/// all that are held take effect.
#[derive(Clone, Copy, Debug, PartialEq, Eq, Structural)]
pub struct CommandSet {
    pub left: bool,
    pub right: bool,
    pub up: bool,
    pub down: bool,
    pub grow: bool,
}

/// A scale after one step of growth: eleven tenths of it, rounded down and
/// held at the largest representable scale.
pub open spec fn grown(scale: u64) -> u64 {
    let target = scale * GROWTH_NUMERATOR / (GROWTH_DENOMINATOR as int);
    if target > u64::MAX {
        u64::MAX
    } else {
        target as u64
    }
}

/// The player after a step of `delta` ticks under `commands`. Left is
/// applied before right and up before down; growth does not depend on
/// `delta`.
pub open spec fn steered(player: Player, delta: u64, commands: CommandSet) -> Player {
    let x_left = if commands.left {
        clamp_coord(player.position.x - travel(delta))
    } else {
        player.position.x
    };
    let x = if commands.right {
        clamp_coord(x_left + travel(delta))
    } else {
        x_left
    };
    let y_up = if commands.up {
        clamp_coord(player.position.y + travel(delta))
    } else {
        player.position.y
    };
    let y = if commands.down {
        clamp_coord(y_up - travel(delta))
    } else {
        y_up
    };
    Player {
        id: player.id,
        position: Position { x, y },
        scale: if commands.grow {
            grown(player.scale)
        } else {
            player.scale
        },
        facing: if commands.right {
            Facing::Right
        } else if commands.left {
            Facing::Left
        } else {
            player.facing
        },
        hunger: player.hunger,
    }
}

/// The world after the movement system has run: the player is steered, if
/// one lives, and nothing else changes.
pub open spec fn world_steered(world: World, delta: u64, commands: CommandSet) -> World {
    World {
        player: match world.player {
            Some(p) => Some(steered(p, delta, commands)),
            None => None,
        },
        items: world.items,
        issued: world.issued,
    }
}

impl CommandSet {
    /// No command held.
    pub fn none() -> (commands: CommandSet)
        ensures
            commands == (CommandSet {
                left: false,
                right: false,
                up: false,
                down: false,
                grow: false,
            }),
    {
        CommandSet { left: false, right: false, up: false, down: false, grow: false }
    }
}

/// One step of growth.
pub fn grow_scale(scale: u64) -> (larger: u64)
    ensures
        larger == grown(scale),
{
    let target: u128 = (scale as u128) * (GROWTH_NUMERATOR as u128) / (GROWTH_DENOMINATOR as u128);
    if target > u64::MAX as u128 {
        u64::MAX
    } else {
        target as u64
    }
}

/// Applies the held commands to a player's record.
pub fn steer(player: Player, delta: u64, commands: CommandSet) -> (moved: Player)
    ensures
        moved == steered(player, delta, commands),
{
    let mut x = player.position.x;
    let mut y = player.position.y;
    let mut facing = player.facing;
    let mut scale = player.scale;
    if commands.left {
        x = coord_lowered(x, delta);
        facing = Facing::Left;
    }
    if commands.right {
        x = coord_raised(x, delta);
        facing = Facing::Right;
    }
    if commands.up {
        y = coord_raised(y, delta);
    }
    if commands.down {
        y = coord_lowered(y, delta);
    }
    if commands.grow {
        scale = grow_scale(scale);
    }
    Player { id: player.id, position: Position { x, y }, scale, facing, hunger: player.hunger }
}

/// The system that steers the player.
pub struct MovementSystem;

impl MovementSystem {
    /// Steers the player for a step of `delta` ticks. Does nothing where no
    /// player lives.
    pub fn tick(delta: u64, commands: CommandSet, registry: &mut Registry)
        requires
            old(registry).wf(),
        ensures
            final(registry).wf(),
            final(registry)@ == world_steered(old(registry)@, delta, commands),
    {
        match registry.player() {
            Some(p) => {
                registry.put_player(Some(steer(p, delta, commands)));
            },
            None => {},
        }
    }
}

/// Where no player lives there is nobody to steer: the world stays as it
/// is, whatever is held.
pub proof fn lemma_nobody_to_steer(world: World, delta: u64, commands: CommandSet)
    requires
        world.player is None,
    ensures
        world_steered(world, delta, commands) == world,
{
}

/// Growth never shrinks a scale.
pub proof fn lemma_growth_is_monotonic(scale: u64)
    ensures
        grown(scale) >= scale,
{
}

/// Whatever is held and however long the step, the player keeps its
/// identity and hunger, its scale does not shrink, and its scale after the
/// step does not depend on the step's length.
pub proof fn lemma_steering_keeps_scale_rule(
    player: Player,
    delta: u64,
    other_delta: u64,
    commands: CommandSet,
)
    ensures
        steered(player, delta, commands).id == player.id,
        steered(player, delta, commands).hunger == player.hunger,
        steered(player, delta, commands).scale >= player.scale,
        steered(player, delta, commands).scale == steered(player, other_delta, commands).scale,
{
}

/// Three steps of growth multiply a scale by 1.331, exactly, where the scale
/// is a whole number of thousandths and the result can be represented.
pub proof fn lemma_growth_compounds(scale: u64)
    requires
        scale % 1000 == 0,
        scale * 1331 / 1000 <= u64::MAX,
    ensures
        grown(grown(grown(scale))) == scale * 1331 / 1000,
{
    let k = scale / 1000;
    assert(scale == 1000 * k);
    assert(grown(scale) == 1100 * k);
    assert(grown(grown(scale)) == 1210 * k);
}

} // verus!
