//! Working off the level's queues, once per frame.
//!
//! The renderer owns the visuals; the level only decides what has to happen
//! to them. A pass has two halves with the renderer's work between them.
//! [`begin_pass`] takes the despawn step and then the spawn step, and returns
//! what to destroy and what to create. [`finish_pass`] registers the visuals
//! that the renderer created and then takes the texture step. Despawning
//! comes first, so that a cell emptied and filled again within one frame gets
//! a new visual instead of an update of the old one. The steps are also
//! there one by one: [`despawn_queued`], [`spawn_queued`],
//! [`register_spawned`], [`update_queued_textures`].

use crate::cell::Cell;
use crate::level::{column_of, lemma_remove_is_idempotent, row_of, EntityId, Level, LevelView};
use crate::tiles::{textured, Column, Material, Row};
use vstd::prelude::*;

verus! {

/// The edge length of a tile in world units.
pub const TILE_SIZE: i64 = 16;

/// A visual to destroy.
#[derive(Clone, Copy, Debug, PartialEq, Eq)]
pub struct DespawnOrder {
    pub cell: Cell,
    pub entity: EntityId,
}

/// A visual to create: the tile's texture and the world position of its
/// centre.
#[derive(Clone, Copy, Debug, PartialEq, Eq)]
pub struct SpawnOrder {
    pub cell: Cell,
    pub material: Material,
    pub row: Row,
    pub column: Column,
    pub world_x: i64,
    pub world_y: i64,
}

/// A visual whose texture is to be replaced.
#[derive(Clone, Copy, Debug, PartialEq, Eq)]
pub struct TextureOrder {
    pub cell: Cell,
    pub entity: EntityId,
    pub material: Material,
    pub row: Row,
    pub column: Column,
}

/// The world coordinate of the centre of the tiles at grid coordinate `v`.
pub open spec fn world_coordinate(v: i32) -> int {
    v * 16 + 8
}

impl LevelView {
    /// The cells whose visual the despawn step destroys.
    pub open spec fn despawn_cells(self) -> Set<Cell> {
        self.despawn_queue.intersect(self.entities.dom())
    }

    /// The level after the despawn step.
    pub open spec fn despawned(self) -> LevelView {
        LevelView {
            entities: self.entities.remove_keys(self.despawn_queue),
            despawn_queue: Set::empty(),
            ..self
        }
    }

    /// The cells for which the spawn step asks for a visual: those queued
    /// that still hold a material.
    pub open spec fn spawn_cells(self) -> Set<Cell> {
        self.spawn_queue.intersect(self.materials.dom())
    }

    /// The level after the spawn step, before any new visual is registered.
    pub open spec fn spawn_drained(self) -> LevelView {
        LevelView { spawn_queue: Set::empty(), ..self }
    }

    /// The level after `entity` was registered as the visual of `cell`.
    pub open spec fn registered(self, cell: Cell, entity: EntityId) -> LevelView {
        LevelView { entities: self.entities.insert(cell, entity), ..self }
    }

    /// The cells whose visual the texture step updates: those queued that
    /// hold a material and have a visual.
    pub open spec fn texture_cells(self) -> Set<Cell> {
        self.texture_update_queue.intersect(self.materials.dom()).intersect(self.entities.dom())
    }

    /// The level after the texture step.
    pub open spec fn textures_updated(self) -> LevelView {
        LevelView { texture_update_queue: Set::empty(), ..self }
    }

    /// The order to create the visual of `cell`.
    pub open spec fn spawn_order(self, cell: Cell) -> SpawnOrder {
        SpawnOrder {
            cell,
            material: self.materials[cell],
            row: row_of(self.materials, cell.0 as int, cell.1 as int),
            column: column_of(self.materials, cell.0 as int, cell.1 as int),
            world_x: world_coordinate(cell.0) as i64,
            world_y: world_coordinate(cell.1) as i64,
        }
    }

    /// The order to replace the texture of the visual of `cell`.
    pub open spec fn texture_order(self, cell: Cell) -> TextureOrder {
        TextureOrder {
            cell,
            entity: self.entities[cell],
            material: self.materials[cell],
            row: row_of(self.materials, cell.0 as int, cell.1 as int),
            column: column_of(self.materials, cell.0 as int, cell.1 as int),
        }
    }
}

/// The cells of a list of despawn orders.
pub open spec fn despawn_order_cells(orders: Seq<DespawnOrder>) -> Seq<Cell> {
    orders.map_values(|o: DespawnOrder| o.cell)
}

/// The cells of a list of spawn orders.
pub open spec fn spawn_order_cells(orders: Seq<SpawnOrder>) -> Seq<Cell> {
    orders.map_values(|o: SpawnOrder| o.cell)
}

/// The cells of a list of texture orders.
pub open spec fn texture_order_cells(orders: Seq<TextureOrder>) -> Seq<Cell> {
    orders.map_values(|o: TextureOrder| o.cell)
}

/// The first step of a pass. Empties the despawn queue and forgets the visual
/// of every cell in it. Returns one order for each of those cells that had a
/// visual; a queued cell without one is passed over.
pub fn despawn_queued(level: &mut Level) -> (orders: Vec<DespawnOrder>)
    ensures
        final(level)@ == old(level)@.despawned(),
        despawn_order_cells(orders@).no_duplicates(),
        despawn_order_cells(orders@).to_set() == old(level)@.despawn_cells(),
        forall|i: int|
            0 <= i < orders@.len() ==> (#[trigger] orders@[i]).entity == old(level)@.entities[orders@[i].cell],
{
    let queued = level.level_despawn_queue.cells();
    let live = level.entity_map.keys_among(&queued);
    let mut orders: Vec<DespawnOrder> = Vec::new();
    let mut i: usize = 0;
    while i < live.len()
        invariant
            i <= live.len(),
            orders@.len() == i,
            *level == *old(level),
            live@.to_set() == level@.despawn_cells(),
            forall|j: int|
                0 <= j < i ==> (#[trigger] orders@[j]).cell == live@[j] && orders@[j].entity
                    == level@.entities[live@[j]],
        decreases live.len() - i,
    {
        let cell = live[i];
        assert(live@.to_set().contains(live@[i as int]));
        match level.entity(cell) {
            Some(entity) => {
                orders.push(DespawnOrder { cell, entity });
            },
            None => {
                assert(false);
            },
        }
        i += 1;
    }
    assert(despawn_order_cells(orders@) =~= live@);
    level.entity_map.remove_all(&queued);
    level.level_despawn_queue.clear();
    orders
}

/// The second step of a pass. Empties the spawn queue and returns one order
/// for each cell in it that still holds a material; a cell that was emptied
/// again since it was queued is passed over. The caller creates the visuals
/// and hands each to [`register_spawned`].
pub fn spawn_queued(level: &mut Level) -> (orders: Vec<SpawnOrder>)
    ensures
        final(level)@ == old(level)@.spawn_drained(),
        spawn_order_cells(orders@).no_duplicates(),
        spawn_order_cells(orders@).to_set() == old(level)@.spawn_cells(),
        forall|i: int|
            0 <= i < orders@.len() ==> #[trigger] orders@[i] == old(level)@.spawn_order(
                orders@[i].cell,
            ),
        forall|i: int|
            0 <= i < orders@.len() ==> textured(
                (#[trigger] orders@[i]).material,
                orders@[i].row,
                orders@[i].column,
            ),
{
    let queued = level.level_spawn_queue.cells();
    let placed = level.material_map.keys_among(&queued);
    let mut orders: Vec<SpawnOrder> = Vec::new();
    let mut i: usize = 0;
    while i < placed.len()
        invariant
            i <= placed.len(),
            orders@.len() == i,
            *level == *old(level),
            placed@.to_set() == level@.spawn_cells(),
            forall|j: int|
                0 <= j < i ==> (#[trigger] orders@[j]).cell == placed@[j] && orders@[j]
                    == level@.spawn_order(placed@[j]),
            forall|j: int|
                0 <= j < i ==> textured(
                    (#[trigger] orders@[j]).material,
                    orders@[j].row,
                    orders@[j].column,
                ),
        decreases placed.len() - i,
    {
        let cell = placed[i];
        assert(placed@.to_set().contains(placed@[i as int]));
        match level.material(cell) {
            Some(material) => {
                let row = level.get_row(cell);
                let column = level.get_column(cell);
                orders.push(
                    SpawnOrder {
                        cell,
                        material,
                        row,
                        column,
                        world_x: cell.0 as i64 * TILE_SIZE + TILE_SIZE / 2,
                        world_y: cell.1 as i64 * TILE_SIZE + TILE_SIZE / 2,
                    },
                );
            },
            None => {
                assert(false);
            },
        }
        i += 1;
    }
    assert(spawn_order_cells(orders@) =~= placed@);
    level.level_spawn_queue.clear();
    orders
}

/// Records `entity` as the visual that now stands for `cell`.
pub fn register_spawned(level: &mut Level, cell: Cell, entity: EntityId)
    ensures
        final(level)@ == old(level)@.registered(cell, entity),
{
    level.entity_map.insert(cell, entity);
}

/// The third step of a pass. Empties the texture queue and returns one order
/// for each cell in it that holds a material and has a visual.
pub fn update_queued_textures(level: &mut Level) -> (orders: Vec<TextureOrder>)
    ensures
        final(level)@ == old(level)@.textures_updated(),
        texture_order_cells(orders@).no_duplicates(),
        texture_order_cells(orders@).to_set() == old(level)@.texture_cells(),
        forall|i: int|
            0 <= i < orders@.len() ==> #[trigger] orders@[i] == old(level)@.texture_order(
                orders@[i].cell,
            ),
        forall|i: int|
            0 <= i < orders@.len() ==> textured(
                (#[trigger] orders@[i]).material,
                orders@[i].row,
                orders@[i].column,
            ),
{
    let queued = level.texture_update_queue.cells();
    let placed = level.material_map.keys_among(&queued);
    let shown = level.entity_map.keys_among(&placed);
    let mut orders: Vec<TextureOrder> = Vec::new();
    let mut i: usize = 0;
    while i < shown.len()
        invariant
            i <= shown.len(),
            orders@.len() == i,
            *level == *old(level),
            shown@.to_set() == level@.texture_cells(),
            forall|j: int|
                0 <= j < i ==> (#[trigger] orders@[j]).cell == shown@[j] && orders@[j]
                    == level@.texture_order(shown@[j]),
            forall|j: int|
                0 <= j < i ==> textured(
                    (#[trigger] orders@[j]).material,
                    orders@[j].row,
                    orders@[j].column,
                ),
        decreases shown.len() - i,
    {
        let cell = shown[i];
        assert(shown@.to_set().contains(shown@[i as int]));
        match (level.material(cell), level.entity(cell)) {
            (Some(material), Some(entity)) => {
                let row = level.get_row(cell);
                let column = level.get_column(cell);
                orders.push(TextureOrder { cell, entity, material, row, column });
            },
            _ => {
                assert(false);
            },
        }
        i += 1;
    }
    assert(texture_order_cells(orders@) =~= shown@);
    level.texture_update_queue.clear();
    orders
}

/// The visuals of a list as a map from their cells. Where a cell occurs
/// twice in the list, the later visual counts.
pub open spec fn spawned_map(spawned: Seq<(Cell, EntityId)>) -> Map<Cell, EntityId>
    decreases spawned.len(),
{
    if spawned.len() == 0 {
        Map::empty()
    } else {
        spawned_map(spawned.drop_last()).insert(spawned.last().0, spawned.last().1)
    }
}

impl LevelView {
    /// The level after each visual of `spawned` was registered, in the order
    /// of the list.
    pub open spec fn registered_each(self, spawned: Seq<(Cell, EntityId)>) -> LevelView
        decreases spawned.len(),
    {
        if spawned.len() == 0 {
            self
        } else {
            self.registered_each(spawned.drop_last()).registered(
                spawned.last().0,
                spawned.last().1,
            )
        }
    }

    /// The level after a whole pass in which the renderer created the
    /// visuals `spawned`, one for each cell that the spawn step named.
    pub open spec fn after_pass(self, spawned: Map<Cell, EntityId>) -> LevelView {
        let drained = self.despawned().spawn_drained();
        LevelView {
            entities: drained.entities.union_prefer_right(spawned),
            ..drained
        }.textures_updated()
    }

    /// Whether no cell waits in any queue.
    pub open spec fn queues_empty(self) -> bool {
        &&& self.spawn_queue == Set::<Cell>::empty()
        &&& self.despawn_queue == Set::<Cell>::empty()
        &&& self.texture_update_queue == Set::<Cell>::empty()
    }
}

/// Registering the visuals of a list one after another changes nothing but
/// the visuals of the level, and adds those of the list to them all at once.
pub proof fn lemma_register_each(level: LevelView, spawned: Seq<(Cell, EntityId)>)
    ensures
        level.registered_each(spawned) == (LevelView {
            entities: level.entities.union_prefer_right(spawned_map(spawned)),
            ..level
        }),
    decreases spawned.len(),
{
    if spawned.len() == 0 {
        assert(level.entities.union_prefer_right(spawned_map(spawned)) =~= level.entities);
    } else {
        let rest = spawned.drop_last();
        lemma_register_each(level, rest);
        assert(level.entities.union_prefer_right(spawned_map(rest)).insert(
            spawned.last().0,
            spawned.last().1,
        ) =~= level.entities.union_prefer_right(spawned_map(spawned)));
    }
}

/// The steps taken in order make a pass: the despawn step, the spawn step,
/// one registration for each visual created, then the texture step.
pub proof fn lemma_pass_in_steps(level: LevelView, spawned: Seq<(Cell, EntityId)>)
    ensures
        level.despawned().spawn_drained().registered_each(spawned).textures_updated()
            == level.after_pass(spawned_map(spawned)),
{
    lemma_register_each(level.despawned().spawn_drained(), spawned);
}

/// The first half of a pass: the despawn step, then the spawn step. Returns
/// the visuals to destroy and the visuals to create. The caller creates
/// them and hands them to [`finish_pass`].
pub fn begin_pass(level: &mut Level) -> (orders: (Vec<DespawnOrder>, Vec<SpawnOrder>))
    ensures
        final(level)@ == old(level)@.despawned().spawn_drained(),
        despawn_order_cells(orders.0@).no_duplicates(),
        despawn_order_cells(orders.0@).to_set() == old(level)@.despawn_cells(),
        forall|i: int|
            0 <= i < orders.0@.len() ==> (#[trigger] orders.0@[i]).entity == old(
                level,
            )@.entities[orders.0@[i].cell],
        spawn_order_cells(orders.1@).no_duplicates(),
        spawn_order_cells(orders.1@).to_set() == old(level)@.spawn_cells(),
        forall|i: int|
            0 <= i < orders.1@.len() ==> #[trigger] orders.1@[i] == old(level)@.spawn_order(
                orders.1@[i].cell,
            ),
        forall|i: int|
            0 <= i < orders.1@.len() ==> textured(
                (#[trigger] orders.1@[i]).material,
                orders.1@[i].row,
                orders.1@[i].column,
            ),
{
    let despawns = despawn_queued(level);
    let spawns = spawn_queued(level);
    (despawns, spawns)
}

/// The second half of a pass: registers each visual of `spawned` as the one
/// that stands for its cell, in the order of the list, then takes the
/// texture step and returns its orders. After [`begin_pass`] this completes
/// the pass.
pub fn finish_pass(level: &mut Level, spawned: &Vec<(Cell, EntityId)>) -> (orders: Vec<
    TextureOrder,
>)
    ensures
        final(level)@ == old(level)@.registered_each(spawned@).textures_updated(),
        old(level)@.despawn_queue == Set::<Cell>::empty() && old(level)@.spawn_queue == Set::<
            Cell,
        >::empty() ==> final(level)@ == old(level)@.after_pass(spawned_map(spawned@)),
        texture_order_cells(orders@).no_duplicates(),
        texture_order_cells(orders@).to_set() == old(level)@.registered_each(
            spawned@,
        ).texture_cells(),
        forall|i: int|
            0 <= i < orders@.len() ==> #[trigger] orders@[i] == old(level)@.registered_each(
                spawned@,
            ).texture_order(orders@[i].cell),
        forall|i: int|
            0 <= i < orders@.len() ==> textured(
                (#[trigger] orders@[i]).material,
                orders@[i].row,
                orders@[i].column,
            ),
{
    let mut i: usize = 0;
    while i < spawned.len()
        invariant
            i <= spawned.len(),
            level@ == old(level)@.registered_each(spawned@.take(i as int)),
        decreases spawned.len() - i,
    {
        register_spawned(level, spawned[i].0, spawned[i].1);
        proof {
            assert(spawned@.take(i + 1).drop_last() =~= spawned@.take(i as int));
        }
        i += 1;
    }
    proof {
        assert(spawned@.take(spawned@.len() as int) =~= spawned@);
        let start = old(level)@;
        if start.despawn_queue == Set::<Cell>::empty() && start.spawn_queue == Set::<
            Cell,
        >::empty() {
            assert(start.entities.remove_keys(start.despawn_queue) =~= start.entities);
            assert(start.despawned().spawn_drained() == start);
            lemma_pass_in_steps(start, spawned@);
        }
    }
    update_queued_textures(level)
}

/// A pass leaves every queue empty and no material changed, whatever was
/// queued.
pub proof fn lemma_pass_drains_queues(level: LevelView, spawned: Map<Cell, EntityId>)
    ensures
        level.after_pass(spawned).queues_empty(),
        level.after_pass(spawned).materials == level.materials,
{
}

/// A cell emptied twice is drawn as a cell emptied once: the next pass
/// leaves the same level behind.
pub proof fn lemma_remove_twice_renders_alike(
    level: LevelView,
    cell: Cell,
    spawned: Map<Cell, EntityId>,
)
    ensures
        level.removed(cell).removed(cell).after_pass(spawned) == level.removed(cell).after_pass(
            spawned,
        ),
{
    lemma_remove_is_idempotent(level, cell);
}

/// A tile placed on an empty level has a visual after one pass. Once the
/// tile is removed again, the next pass takes the visual away and leaves
/// every queue empty.
pub proof fn lemma_place_then_clear(cell: Cell, material: Material, entity: EntityId)
    ensures
        ({
            let placed = LevelView::empty().inserted(cell, Some(material));
            let shown = placed.after_pass(map![cell => entity]);
            let cleared = shown.removed(cell);
            let end = cleared.after_pass(Map::empty());
            &&& placed.despawned().spawn_cells() == set![cell]
            &&& shown.entities.contains_key(cell)
            &&& shown.entities[cell] == entity
            &&& shown.queues_empty()
            &&& cleared.despawn_cells() == set![cell]
            &&& cleared.despawned().spawn_cells() == Set::<Cell>::empty()
            &&& !end.entities.contains_key(cell)
            &&& end.queues_empty()
        }),
{
    let placed = LevelView::empty().inserted(cell, Some(material));
    let shown = placed.after_pass(map![cell => entity]);
    let cleared = shown.removed(cell);
    assert(placed.despawned().spawn_cells() =~= set![cell]);
    assert(cleared.despawn_cells() =~= set![cell]);
    assert(cleared.despawned().spawn_cells() =~= Set::<Cell>::empty());
}

} // verus!
