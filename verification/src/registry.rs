//! The registry of live entities: at most one player and any number of
//! items, each under an identifier that is issued once and never reused.

use vstd::prelude::*;
use crate::space::Position;

verus! {

/// No identifier is issued beyond this count.
pub const ID_LIMIT: u64 = 0x7fff_ffff_ffff_ffff;

/// Hunger at which the player starves.
pub const STARVATION: i64 = 10;

/// Stable identifier of an entity.
#[derive(Clone, Copy, Debug, PartialEq, Eq, Structural)]
pub struct EntityId(pub u64);

/// What an entity is.
#[derive(Clone, Copy, Debug, PartialEq, Eq, Structural)]
pub enum Role {
    Player,
    Item,
}

/// Which way the player looks.
#[derive(Clone, Copy, Debug, PartialEq, Eq, Structural)]
pub enum Facing {
    Left,
    Right,
}

/// The player's record. `scale` is in millionths, `position` in sub-units.
#[derive(Clone, Copy, Debug, PartialEq, Eq, Structural)]
pub struct Player {
    pub id: EntityId,
    pub position: Position,
    pub scale: u64,
    pub facing: Facing,
    pub hunger: i64,
}

/// An item's record. Its position never changes.
#[derive(Clone, Copy, Debug, PartialEq, Eq, Structural)]
pub struct Item {
    pub id: EntityId,
    pub position: Position,
}

/// What a registry holds: the player if one lives, the items in the order
/// they are visited, and how many identifiers have been issued.
pub struct World {
    pub player: Option<Player>,
    pub items: Seq<Item>,
    pub issued: u64,
}

/// Every item's identifier is below `issued`.
pub open spec fn ids_below(items: Seq<Item>, issued: u64) -> bool {
    forall|i: int| 0 <= i < items.len() ==> (#[trigger] items[i]).id.0 < issued
}

/// No two items share an identifier.
pub open spec fn distinct_ids(items: Seq<Item>) -> bool {
    forall|i: int, j: int|
        0 <= i < j < items.len() ==> (#[trigger] items[i]).id != (#[trigger] items[j]).id
}

/// No item carries `id`.
pub open spec fn id_unused(items: Seq<Item>, id: EntityId) -> bool {
    forall|i: int| 0 <= i < items.len() ==> (#[trigger] items[i]).id != id
}

impl World {
    /// Live entities.
    pub open spec fn population(self) -> nat {
        if self.player is Some {
            self.items.len() + 1
        } else {
            self.items.len()
        }
    }

    /// Identifiers are below the issue count and belong to one entity each;
    /// a live player has not starved, and has not eaten more than the
    /// identifiers that were issued and are gone.
    pub open spec fn wf(self) -> bool {
        &&& self.issued <= ID_LIMIT
        &&& self.population() <= self.issued
        &&& ids_below(self.items, self.issued)
        &&& distinct_ids(self.items)
        &&& self.player matches Some(p) ==> {
            &&& p.id.0 < self.issued
            &&& id_unused(self.items, p.id)
            &&& p.hunger < STARVATION
            &&& p.hunger + self.issued >= self.population()
        }
    }

    /// Whether an item carries `id`.
    pub open spec fn has_item(self, id: EntityId) -> bool {
        !id_unused(self.items, id)
    }

    /// The role of the entity that carries `id`, if one lives.
    pub open spec fn role_of(self, id: EntityId) -> Option<Role> {
        if self.player matches Some(p) && p.id == id {
            Some(Role::Player)
        } else if self.has_item(id) {
            Some(Role::Item)
        } else {
            None
        }
    }

    /// The position of the entity that carries `id`, if one lives.
    pub open spec fn position_of(self, id: EntityId) -> Option<Position> {
        if self.player matches Some(p) && p.id == id {
            Some(self.player.unwrap().position)
        } else if self.has_item(id) {
            let i = choose|i: int| 0 <= i < self.items.len() && (#[trigger] self.items[i]).id == id;
            Some(self.items[i].position)
        } else {
            None
        }
    }

    /// The world with a new player under the next identifier, where there
    /// is room for one.
    pub open spec fn with_player(self, position: Position, scale: u64) -> World {
        if self.player is None && self.issued < ID_LIMIT {
            World {
                player: Some(
                    Player {
                        id: EntityId(self.issued),
                        position,
                        scale,
                        facing: Facing::Right,
                        hunger: 0,
                    },
                ),
                items: self.items,
                issued: (self.issued + 1) as u64,
            }
        } else {
            self
        }
    }

    /// The world with a new item under the next identifier, visited last,
    /// where an identifier is left.
    pub open spec fn with_item(self, position: Position) -> World {
        if self.issued < ID_LIMIT {
            World {
                player: self.player,
                items: self.items.push(Item { id: EntityId(self.issued), position }),
                issued: (self.issued + 1) as u64,
            }
        } else {
            self
        }
    }

    /// The world without the entity that carries `id`.
    pub open spec fn without(self, id: EntityId) -> World {
        World {
            player: if self.player matches Some(p) && p.id == id {
                None
            } else {
                self.player
            },
            items: self.items.filter(|item: Item| item.id != id),
            issued: self.issued,
        }
    }
}

/// In a sequence of items with distinct identifiers, keeping all but one
/// identifier drops the one item that carries it, or nothing.
pub proof fn lemma_filter_by_id(items: Seq<Item>, id: EntityId)
    requires
        distinct_ids(items),
    ensures
        forall|k: int|
            0 <= k < items.len() && (#[trigger] items[k]).id == id ==> items.filter(
                |item: Item| item.id != id,
            ) == items.remove(k),
        id_unused(items, id) ==> items.filter(|item: Item| item.id != id) == items,
    decreases items.len(),
{
    reveal(Seq::filter);
    let keep = |item: Item| item.id != id;
    if items.len() > 0 {
        let front = items.drop_last();
        lemma_filter_by_id(front, id);
        assert forall|k: int| 0 <= k < items.len() && (#[trigger] items[k]).id == id implies items.filter(
            keep,
        ) == items.remove(k) by {
            if k == items.len() - 1 {
                assert forall|j: int| 0 <= j < front.len() implies (#[trigger] front[j]).id != id by {
                    assert(front[j] == items[j]);
                }
                assert(items.remove(k) =~= front);
            } else {
                assert(front[k] == items[k]);
                assert(items.last().id != id);
                assert(items.remove(k) =~= front.remove(k).push(items.last()));
            }
        }
        if id_unused(items, id) {
            assert forall|j: int| 0 <= j < front.len() implies (#[trigger] front[j]).id != id by {
                assert(front[j] == items[j]);
            }
            assert(items =~= front.push(items.last()));
        }
    }
}

/// Keeping some of the items of a sequence keeps only items of that
/// sequence, each of which was to be kept, and keeps their identifiers
/// distinct and away from any identifier that none of them carried.
pub proof fn lemma_filter_keeps_items(items: Seq<Item>, keep: spec_fn(Item) -> bool)
    ensures
        items.filter(keep).len() <= items.len(),
        forall|k: int|
            0 <= k < items.filter(keep).len() ==> items.contains(#[trigger] items.filter(keep)[k])
                && keep(items.filter(keep)[k]),
        forall|issued: u64| ids_below(items, issued) ==> ids_below(items.filter(keep), issued),
        forall|id: EntityId| id_unused(items, id) ==> id_unused(items.filter(keep), id),
        distinct_ids(items) ==> distinct_ids(items.filter(keep)),
    decreases items.len(),
{
    reveal(Seq::filter);
    let kept = items.filter(keep);
    if items.len() > 0 {
        let front = items.drop_last();
        let last = items.last();
        lemma_filter_keeps_items(front, keep);
        let front_kept = front.filter(keep);
        assert forall|k: int| 0 <= k < front_kept.len() implies items.contains(
            #[trigger] front_kept[k],
        ) by {
            let j = choose|j: int| 0 <= j < front.len() && front[j] == front_kept[k];
            assert(items[j] == front_kept[k]);
        }
        assert(items.contains(last)) by {
            assert(items[items.len() - 1] == last);
        }
        assert forall|issued: u64| ids_below(items, issued) implies ids_below(kept, issued) by {
            assert forall|k: int| 0 <= k < kept.len() implies (#[trigger] kept[k]).id.0 < issued by {
                let j = choose|j: int| 0 <= j < items.len() && items[j] == kept[k];
                assert(items[j].id.0 < issued);
            }
        }
        assert forall|id: EntityId| id_unused(items, id) implies id_unused(kept, id) by {
            assert forall|k: int| 0 <= k < kept.len() implies (#[trigger] kept[k]).id != id by {
                let j = choose|j: int| 0 <= j < items.len() && items[j] == kept[k];
                assert(items[j].id != id);
            }
        }
        if distinct_ids(items) {
            assert(distinct_ids(front)) by {
                assert forall|i: int, j: int| 0 <= i < j < front.len() implies (#[trigger] front[i]).id
                    != (#[trigger] front[j]).id by {
                    assert(front[i] == items[i] && front[j] == items[j]);
                }
            }
            assert forall|i: int, j: int| 0 <= i < j < kept.len() implies (#[trigger] kept[i]).id != (
            #[trigger] kept[j]).id by {
                if j == front_kept.len() {
                    let m = choose|m: int| 0 <= m < front.len() && front[m] == front_kept[i];
                    assert(items[m] == kept[i]);
                    assert(items[m].id != items[items.len() - 1].id);
                } else {
                    assert(kept[i] == front_kept[i] && kept[j] == front_kept[j]);
                }
            }
        }
    }
}

/// The live entities of the simulation.
pub struct Registry {
    player: Option<Player>,
    items: Vec<Item>,
    issued: u64,
}

impl Registry {
    pub closed spec fn view(&self) -> World {
        World { player: self.player, items: self.items@, issued: self.issued }
    }

    pub open spec fn wf(&self) -> bool {
        self@.wf()
    }

    /// A registry without entities that has issued no identifier.
    pub fn new() -> (registry: Registry)
        ensures
            registry.wf(),
            registry@ == (World { player: None, items: Seq::empty(), issued: 0 }),
    {
        Registry { player: None, items: Vec::new(), issued: 0 }
    }

    /// Creates the player, with no hunger and facing right, unless a player
    /// lives or no identifier is left.
    pub fn insert_player(&mut self, position: Position, scale: u64) -> (id: Option<EntityId>)
        requires
            old(self).wf(),
        ensures
            final(self).wf(),
            final(self)@ == old(self)@.with_player(position, scale),
            id == if old(self)@.player is None && old(self)@.issued < ID_LIMIT {
                Some(EntityId(old(self)@.issued))
            } else {
                None
            },
    {
        if self.player.is_some() || self.issued >= ID_LIMIT {
            return None;
        }
        let id = EntityId(self.issued);
        self.player = Some(Player { id, position, scale, facing: Facing::Right, hunger: 0 });
        self.issued = self.issued + 1;
        Some(id)
    }

    /// Creates an item at `position`, visited after all others, unless no
    /// identifier is left.
    pub fn insert_item(&mut self, position: Position) -> (id: Option<EntityId>)
        requires
            old(self).wf(),
        ensures
            final(self).wf(),
            final(self)@ == old(self)@.with_item(position),
            id == if old(self)@.issued < ID_LIMIT {
                Some(EntityId(old(self)@.issued))
            } else {
                None
            },
    {
        if self.issued >= ID_LIMIT {
            return None;
        }
        let id = EntityId(self.issued);
        self.items.push(Item { id, position });
        self.issued = self.issued + 1;
        Some(id)
    }

    /// Index of the item that carries `id`.
    fn find_item(&self, id: EntityId) -> (found: Option<usize>)
        ensures
            match found {
                Some(k) => k < self@.items.len() && self@.items[k as int].id == id,
                None => !self@.has_item(id),
            },
    {
        let mut k: usize = 0;
        while k < self.items.len()
            invariant
                k <= self.items.len(),
                forall|i: int| 0 <= i < k ==> (#[trigger] self.items@[i]).id != id,
            decreases self.items.len() - k,
        {
            if self.items[k].id == id {
                return Some(k);
            }
            k = k + 1;
        }
        None
    }

    /// Removes the entity that carries `id` and says what it was. The
    /// identifier is never issued again.
    pub fn remove(&mut self, id: EntityId) -> (removed: Option<Role>)
        requires
            old(self).wf(),
        ensures
            final(self).wf(),
            final(self)@ == old(self)@.without(id),
            removed == old(self)@.role_of(id),
    {
        proof {
            lemma_filter_by_id(self@.items, id);
        }
        if let Some(p) = self.player {
            if p.id == id {
                self.player = None;
                return Some(Role::Player);
            }
        }
        match self.find_item(id) {
            Some(k) => {
                self.items.remove(k);
                Some(Role::Item)
            },
            None => None,
        }
    }

    /// The role of the entity that carries `id`, if one lives.
    pub fn role_of(&self, id: EntityId) -> (role: Option<Role>)
        ensures
            role == self@.role_of(id),
    {
        if let Some(p) = self.player {
            if p.id == id {
                return Some(Role::Player);
            }
        }
        match self.find_item(id) {
            Some(_) => Some(Role::Item),
            None => None,
        }
    }

    /// Whether an entity carries `id`.
    pub fn contains(&self, id: EntityId) -> (present: bool)
        ensures
            present == self@.role_of(id).is_some(),
    {
        self.role_of(id).is_some()
    }

    /// The position of the entity that carries `id`, if one lives.
    pub fn position_of(&self, id: EntityId) -> (position: Option<Position>)
        requires
            self.wf(),
        ensures
            position == self@.position_of(id),
    {
        if let Some(p) = self.player {
            if p.id == id {
                return Some(p.position);
            }
        }
        match self.find_item(id) {
            Some(k) => Some(self.items[k].position),
            None => None,
        }
    }

    /// The player's record, if a player lives.
    pub fn player(&self) -> (player: Option<Player>)
        ensures
            player == self@.player,
    {
        self.player
    }

    /// The items, in the order they are visited.
    pub fn items(&self) -> (items: &Vec<Item>)
        ensures
            items@ == self@.items,
    {
        &self.items
    }

    /// How many items live.
    pub fn item_count(&self) -> (count: usize)
        ensures
            count == self@.items.len(),
    {
        self.items.len()
    }

    /// How many identifiers have been issued.
    pub fn issued(&self) -> (issued: u64)
        ensures
            issued == self@.issued,
    {
        self.issued
    }

    /// Replaces the player's record, or removes the player.
    pub(crate) fn put_player(&mut self, player: Option<Player>)
        requires
            old(self).wf(),
            (World { player, items: old(self)@.items, issued: old(self)@.issued }).wf(),
        ensures
            final(self).wf(),
            final(self)@ == (World { player, items: old(self)@.items, issued: old(self)@.issued }),
    {
        self.player = player;
    }

    /// Replaces the items.
    pub(crate) fn put_items(&mut self, items: Vec<Item>)
        requires
            old(self).wf(),
            (World { player: old(self)@.player, items: items@, issued: old(self)@.issued }).wf(),
        ensures
            final(self).wf(),
            final(self)@ == (World {
                player: old(self)@.player,
                items: items@,
                issued: old(self)@.issued,
            }),
    {
        self.items = items;
    }
}

} // verus!
