//! Collisions: the player eats every item within reach, all in one step.

use vstd::prelude::*;
use crate::registry::{lemma_filter_keeps_items, Item, Player, Registry, World};
use crate::space::{within_reach, Position};

verus! {

/// The test that an item passes when it lies out of reach of `center`.
pub open spec fn out_of_reach(center: Position) -> spec_fn(Item) -> bool {
    |item: Item| !within_reach(center, item.position)
}

/// How many items the player eats in a step: those within reach of it, or
/// none where no player lives.
pub open spec fn meals(world: World) -> nat {
    match world.player {
        Some(p) => (world.items.len() - world.items.filter(out_of_reach(p.position)).len()) as nat,
        None => 0,
    }
}

/// The world after the collision system has run: every item within reach
/// of the player is gone, the others keep their order, and the player is
/// less hungry by one for each item eaten. Without a player nothing
/// changes.
pub open spec fn fed(world: World) -> World {
    match world.player {
        Some(p) => World {
            player: Some(
                Player {
                    id: p.id,
                    position: p.position,
                    scale: p.scale,
                    facing: p.facing,
                    hunger: (p.hunger - meals(world)) as i64,
                },
            ),
            items: world.items.filter(out_of_reach(p.position)),
            issued: world.issued,
        },
        None => world,
    }
}

/// The system that lets the player eat.
pub struct CollisionSystem;

impl CollisionSystem {
    /// Removes every item within reach of the player and lowers the
    /// player's hunger by one for each. Returns how many were eaten.
    pub fn tick(registry: &mut Registry) -> (consumed: u64)
        requires
            old(registry).wf(),
        ensures
            final(registry).wf(),
            final(registry)@ == fed(old(registry)@),
            consumed == meals(old(registry)@),
    {
        let player = match registry.player() {
            Some(p) => p,
            None => {
                return 0;
            },
        };
        let ghost keep = out_of_reach(player.position);
        let items = registry.items();
        let mut kept: Vec<Item> = Vec::new();
        let mut i: usize = 0;
        proof {
            reveal(Seq::filter);
            assert(items@.take(0) =~= Seq::<Item>::empty());
        }
        while i < items.len()
            invariant
                i <= items.len(),
                keep == out_of_reach(player.position),
                kept@ == items@.take(i as int).filter(keep),
            decreases items.len() - i,
        {
            let item = items[i];
            let hit = player.position.reaches(&item.position);
            if !hit {
                kept.push(item);
            }
            proof {
                reveal(Seq::filter);
                let next = items@.take(i + 1);
                assert(next.drop_last() =~= items@.take(i as int));
                assert(next.last() == item);
            }
            i = i + 1;
        }
        proof {
            assert(items@.take(i as int) =~= items@);
            lemma_filter_keeps_items(items@, keep);
        }
        let eaten = items.len() - kept.len();
        registry.put_items(kept);
        registry.put_player(
            Some(
                Player {
                    id: player.id,
                    position: player.position,
                    scale: player.scale,
                    facing: player.facing,
                    hunger: player.hunger - eaten as i64,
                },
            ),
        );
        eaten as u64
    }
}

/// Eating leaves no item within reach: the collision system is exhaustive,
/// not first-match.
pub proof fn lemma_nothing_left_in_reach(world: World)
    requires
        world.player is Some,
    ensures
        forall|k: int|
            0 <= k < fed(world).items.len() ==> !within_reach(
                world.player.unwrap().position,
                (#[trigger] fed(world).items[k]).position,
            ),
        meals(fed(world)) == 0,
{
    let center = world.player.unwrap().position;
    let keep = out_of_reach(center);
    lemma_filter_keeps_items(world.items, keep);
    lemma_filter_is_idempotent(world.items, keep);
}

/// Keeping twice keeps what keeping once kept.
proof fn lemma_filter_is_idempotent(items: Seq<Item>, keep: spec_fn(Item) -> bool)
    ensures
        items.filter(keep).filter(keep) == items.filter(keep),
    decreases items.len(),
{
    reveal(Seq::filter);
    if items.len() > 0 {
        let front = items.drop_last();
        lemma_filter_is_idempotent(front, keep);
        if keep(items.last()) {
            let kept = items.filter(keep);
            assert(kept.drop_last() =~= front.filter(keep));
        }
    }
}

/// Where every item lies within reach of the player, all of them are eaten
/// in one step and hunger falls by their number.
pub proof fn lemma_all_in_reach_are_eaten(world: World)
    requires
        world.wf(),
        world.player is Some,
        forall|k: int|
            0 <= k < world.items.len() ==> within_reach(
                world.player.unwrap().position,
                (#[trigger] world.items[k]).position,
            ),
    ensures
        fed(world).items.len() == 0,
        meals(world) == world.items.len(),
        fed(world).player.unwrap().hunger == world.player.unwrap().hunger - world.items.len(),
{
    let keep = out_of_reach(world.player.unwrap().position);
    lemma_filter_keeps_items(world.items, keep);
    let kept = world.items.filter(keep);
    if kept.len() > 0 {
        let j = choose|j: int| 0 <= j < world.items.len() && world.items[j] == kept[0];
        assert(keep(kept[0]));
        assert(within_reach(world.player.unwrap().position, world.items[j].position));
    }
}

/// Where no player lives nothing is eaten and nothing changes.
pub proof fn lemma_the_dead_do_not_eat(world: World)
    requires
        world.player is None,
    ensures
        fed(world) == world,
        meals(world) == 0,
{
}

} // verus!
