//! The level: which material each cell holds, which visual stands for it, and
//! which cells wait for a visual change.

use crate::cell::{Cell, CellMap, CellSet};
use crate::tiles::{textured, Column, Material, Row};
use vstd::prelude::*;

verus! {

/// The handle of a spawned visual, as the renderer gave it.
pub type EntityId = u64;

/// Everything the level keeps at run time.
///
/// Edits change `material_map` at once and only queue the change of the
/// visuals; the queues are worked off later, once per frame.
pub struct Level {
    pub material_map: CellMap<Material>,
    pub entity_map: CellMap<EntityId>,
    pub level_spawn_queue: CellSet,
    pub level_despawn_queue: CellSet,
    pub texture_update_queue: CellSet,
}

/// The level as mathematical maps and sets.
pub struct LevelView {
    pub materials: Map<Cell, Material>,
    pub entities: Map<Cell, EntityId>,
    pub spawn_queue: Set<Cell>,
    pub despawn_queue: Set<Cell>,
    pub texture_update_queue: Set<Cell>,
}

impl View for Level {
    type V = LevelView;

    open spec fn view(&self) -> LevelView {
        LevelView {
            materials: self.material_map@,
            entities: self.entity_map@,
            spawn_queue: self.level_spawn_queue@,
            despawn_queue: self.level_despawn_queue@,
            texture_update_queue: self.texture_update_queue@,
        }
    }
}

impl LevelView {
    /// The level with nothing placed, spawned or queued.
    pub open spec fn empty() -> LevelView {
        LevelView {
            materials: Map::empty(),
            entities: Map::empty(),
            spawn_queue: Set::empty(),
            despawn_queue: Set::empty(),
            texture_update_queue: Set::empty(),
        }
    }

    /// The level after `cell` was emptied: its material is gone and its
    /// visual is queued for despawning.
    pub open spec fn removed(self, cell: Cell) -> LevelView {
        LevelView {
            materials: self.materials.remove(cell),
            despawn_queue: self.despawn_queue.insert(cell),
            ..self
        }
    }

    /// The level after `material` was written to `cell`. Writing `None`
    /// empties the cell. Otherwise the cell is queued for a texture update,
    /// and for spawning too where it has no visual yet.
    pub open spec fn inserted(self, cell: Cell, material: Option<Material>) -> LevelView {
        match material {
            None => self.removed(cell),
            Some(m) => LevelView {
                materials: self.materials.insert(cell, m),
                texture_update_queue: self.texture_update_queue.insert(cell),
                spawn_queue: if self.entities.contains_key(cell) {
                    self.spawn_queue
                } else {
                    self.spawn_queue.insert(cell)
                },
                ..self
            },
        }
    }

    /// The material of `cell`, `None` where the cell is empty.
    pub open spec fn material(self, cell: Cell) -> Option<Material> {
        if self.materials.contains_key(cell) {
            Some(self.materials[cell])
        } else {
            None
        }
    }
}

/// The material at `(x, y)`. Coordinates outside the grid hold nothing.
pub open spec fn material_at(grid: Map<Cell, Material>, x: int, y: int) -> Option<Material> {
    if i32::MIN <= x <= i32::MAX && i32::MIN <= y <= i32::MAX && grid.contains_key(
        (x as i32, y as i32),
    ) {
        Some(grid[(x as i32, y as i32)])
    } else {
        None
    }
}

/// The row of a tile from whether the tiles above and below it match: the
/// lower end of a run is `BOTTOM`, the upper end `TOP`, anything else `CENTER`.
pub open spec fn edge_row(above: bool, below: bool) -> Row {
    if above && !below {
        Row::BOTTOM
    } else if !above && below {
        Row::TOP
    } else {
        Row::CENTER
    }
}

/// The column of a tile from whether the tiles left and right of it match.
pub open spec fn edge_column(left: bool, right: bool) -> Column {
    if left && !right {
        Column::RIGHT
    } else if !left && right {
        Column::LEFT
    } else {
        Column::MIDDLE
    }
}

/// The row a small tile gets from the row of the cell above it.
pub open spec fn inverted_row(above: Row) -> Row {
    match above {
        Row::TOP => Row::BOTTOM,
        Row::BOTTOM => Row::TOP,
        Row::CENTER => Row::BOTTOM,
    }
}

/// The column a small tile gets from the column of the cell left of it.
pub open spec fn inverted_column(left: Column) -> Column {
    match left {
        Column::LEFT => Column::RIGHT,
        Column::RIGHT => Column::LEFT,
        Column::MIDDLE => Column::RIGHT,
    }
}

/// The row variant of the cell at `(x, y)`.
///
/// An empty cell is `TOP`. A tile gets its row from its matching neighbours.
/// A small tile whose row would not be `TOP` takes the inverted row of the
/// cell above it instead, whatever that cell holds.
pub open spec fn row_of(grid: Map<Cell, Material>, x: int, y: int) -> Row
    decreases i32::MAX + 1 - y,
{
    match material_at(grid, x, y) {
        None => Row::TOP,
        Some(m) => {
            let row = edge_row(
                material_at(grid, x, y + 1) == Some(m),
                material_at(grid, x, y - 1) == Some(m),
            );
            if !m.small() || row == Row::TOP {
                row
            } else {
                inverted_row(row_of(grid, x, y + 1))
            }
        },
    }
}

/// The column variant of the cell at `(x, y)`.
///
/// An empty cell is `LEFT`. A tile gets its column from its matching
/// neighbours. A small tile whose column would not be `LEFT` takes the
/// inverted column of the cell left of it instead, whatever that cell holds.
pub open spec fn column_of(grid: Map<Cell, Material>, x: int, y: int) -> Column
    decreases x - i32::MIN + 1,
{
    match material_at(grid, x, y) {
        None => Column::LEFT,
        Some(m) => {
            let column = edge_column(
                material_at(grid, x - 1, y) == Some(m),
                material_at(grid, x + 1, y) == Some(m),
            );
            if !m.small() || column == Column::LEFT {
                column
            } else {
                inverted_column(column_of(grid, x - 1, y))
            }
        },
    }
}

impl Level {
    /// A level with nothing placed, spawned or queued.
    pub fn new() -> (level: Self)
        ensures
            level@ == LevelView::empty(),
    {
        Level {
            material_map: CellMap::new(),
            entity_map: CellMap::new(),
            level_spawn_queue: CellSet::new(),
            level_despawn_queue: CellSet::new(),
            texture_update_queue: CellSet::new(),
        }
    }

    /// Adds or changes the material at `position`; `None` empties the cell.
    pub fn insert(&mut self, position: Cell, material: Option<Material>)
        ensures
            final(self)@ == old(self)@.inserted(position, material),
    {
        match material {
            None => {
                self.remove(position);
            },
            Some(m) => {
                self.material_map.insert(position, m);
                self.texture_update_queue.insert(position);
                if !self.entity_map.contains_key(position) {
                    self.level_spawn_queue.insert(position);
                }
            },
        }
    }

    /// Empties the cell at `position` and queues its visual for despawning.
    pub fn remove(&mut self, position: Cell)
        ensures
            final(self)@ == old(self)@.removed(position),
    {
        self.material_map.remove(position);
        self.level_despawn_queue.insert(position);
    }

    /// The material at `position`, `None` where the cell is empty.
    pub fn material(&self, position: Cell) -> (r: Option<Material>)
        ensures
            r == self@.material(position),
    {
        match self.material_map.get(position) {
            Some(m) => Some(*m),
            None => None,
        }
    }

    /// The visual that stands for `position`, `None` where none was spawned.
    pub fn entity(&self, position: Cell) -> (r: Option<EntityId>)
        ensures
            r == (if self@.entities.contains_key(position) {
                Some(self@.entities[position])
            } else {
                None
            }),
    {
        match self.entity_map.get(position) {
            Some(e) => Some(*e),
            None => None,
        }
    }

    fn holds(&self, x: i32, y: i32, material: Material) -> (r: bool)
        ensures
            r == (material_at(self@.materials, x as int, y as int) == Some(material)),
    {
        match self.material_map.get((x, y)) {
            Some(m) => *m == material,
            None => false,
        }
    }

    /// The row variant to draw the tile at `position` with.
    pub fn get_row(&self, position: Cell) -> (row: Row)
        ensures
            row == row_of(self@.materials, position.0 as int, position.1 as int),
            self@.material(position) matches Some(m) ==> (m.small() ==> row != Row::CENTER),
        decreases i32::MAX - position.1,
    {
        let x: i32 = position.0;
        let y: i32 = position.1;
        let material = match self.material_map.get(position) {
            None => {
                return Row::TOP;
            },
            Some(m) => *m,
        };
        let above = y < i32::MAX && self.holds(x, y + 1, material);
        let below = y > i32::MIN && self.holds(x, y - 1, material);
        let row = if above && !below {
            Row::BOTTOM
        } else if !above && below {
            Row::TOP
        } else {
            Row::CENTER
        };
        if !material.is_small() || row == Row::TOP {
            return row;
        }
        if y == i32::MAX {
            assert(material_at(self@.materials, x as int, y + 1) is None);
            assert(row_of(self@.materials, x as int, y + 1) == Row::TOP);
            return Row::BOTTOM;
        }
        match self.get_row((x, y + 1)) {
            Row::TOP => Row::BOTTOM,
            Row::BOTTOM => Row::TOP,
            Row::CENTER => Row::BOTTOM,
        }
    }

    /// The column variant to draw the tile at `position` with.
    pub fn get_column(&self, position: Cell) -> (column: Column)
        ensures
            column == column_of(self@.materials, position.0 as int, position.1 as int),
            self@.material(position) matches Some(m) ==> (m.small() ==> column != Column::MIDDLE),
        decreases position.0 - i32::MIN,
    {
        let x: i32 = position.0;
        let y: i32 = position.1;
        let material = match self.material_map.get(position) {
            None => {
                return Column::LEFT;
            },
            Some(m) => *m,
        };
        let left = x > i32::MIN && self.holds(x - 1, y, material);
        let right = x < i32::MAX && self.holds(x + 1, y, material);
        let column = if left && !right {
            Column::RIGHT
        } else if !left && right {
            Column::LEFT
        } else {
            Column::MIDDLE
        };
        if !material.is_small() || column == Column::LEFT {
            return column;
        }
        if x == i32::MIN {
            assert(material_at(self@.materials, x - 1, y as int) is None);
            assert(column_of(self@.materials, x - 1, y as int) == Column::LEFT);
            return Column::RIGHT;
        }
        match self.get_column((x - 1, y)) {
            Column::LEFT => Column::RIGHT,
            Column::RIGHT => Column::LEFT,
            Column::MIDDLE => Column::RIGHT,
        }
    }
}

/// Emptying a cell twice leaves the level as emptying it once does.
pub proof fn lemma_remove_is_idempotent(level: LevelView, cell: Cell)
    ensures
        level.removed(cell).removed(cell) == level.removed(cell),
{
    let once = level.removed(cell);
    let twice = once.removed(cell);
    assert(twice.materials =~= once.materials);
    assert(twice.despawn_queue =~= once.despawn_queue);
}

/// A cell that is filled and then emptied holds no material, and every
/// other cell holds what it held before.
pub proof fn lemma_insert_then_remove(level: LevelView, cell: Cell, material: Material)
    ensures
        level.inserted(cell, Some(material)).removed(cell).material(cell) is None,
        level.inserted(cell, Some(material)).removed(cell).materials == level.materials.remove(
            cell,
        ),
{
    let after = level.inserted(cell, Some(material)).removed(cell);
    assert(after.materials =~= level.materials.remove(cell));
}

/// A full-size tile with no tile of its own material above, below, left or
/// right of it is drawn as the centre row and the middle column.
pub proof fn lemma_isolated_tile(grid: Map<Cell, Material>, cell: Cell)
    requires
        grid.contains_key(cell),
        !grid[cell].small(),
        material_at(grid, cell.0 as int, cell.1 + 1) != Some(grid[cell]),
        material_at(grid, cell.0 as int, cell.1 - 1) != Some(grid[cell]),
        material_at(grid, cell.0 - 1, cell.1 as int) != Some(grid[cell]),
        material_at(grid, cell.0 + 1, cell.1 as int) != Some(grid[cell]),
    ensures
        row_of(grid, cell.0 as int, cell.1 as int) == Row::CENTER,
        column_of(grid, cell.0 as int, cell.1 as int) == Column::MIDDLE,
{
}

/// The variants of a full-size tile depend on its four neighbours alone.
pub proof fn lemma_full_size_variants(grid: Map<Cell, Material>, cell: Cell)
    requires
        grid.contains_key(cell),
        !grid[cell].small(),
    ensures
        row_of(grid, cell.0 as int, cell.1 as int) == edge_row(
            material_at(grid, cell.0 as int, cell.1 + 1) == Some(grid[cell]),
            material_at(grid, cell.0 as int, cell.1 - 1) == Some(grid[cell]),
        ),
        column_of(grid, cell.0 as int, cell.1 as int) == edge_column(
            material_at(grid, cell.0 - 1, cell.1 as int) == Some(grid[cell]),
            material_at(grid, cell.0 + 1, cell.1 as int) == Some(grid[cell]),
        ),
{
}

/// In a horizontal run of three full-size tiles of one material, with no
/// tile of that material next to the run on any side, the tiles are drawn as
/// the left, the middle and the right column of the centre row.
pub proof fn lemma_run_of_three(grid: Map<Cell, Material>, x: int, y: int, material: Material)
    requires
        !material.small(),
        material_at(grid, x, y) == Some(material),
        material_at(grid, x + 1, y) == Some(material),
        material_at(grid, x + 2, y) == Some(material),
        material_at(grid, x - 1, y) != Some(material),
        material_at(grid, x + 3, y) != Some(material),
        material_at(grid, x, y + 1) != Some(material),
        material_at(grid, x + 1, y + 1) != Some(material),
        material_at(grid, x + 2, y + 1) != Some(material),
        material_at(grid, x, y - 1) != Some(material),
        material_at(grid, x + 1, y - 1) != Some(material),
        material_at(grid, x + 2, y - 1) != Some(material),
    ensures
        column_of(grid, x, y) == Column::LEFT,
        column_of(grid, x + 1, y) == Column::MIDDLE,
        column_of(grid, x + 2, y) == Column::RIGHT,
        row_of(grid, x, y) == Row::CENTER,
        row_of(grid, x + 1, y) == Row::CENTER,
        row_of(grid, x + 2, y) == Row::CENTER,
{
}

/// Of two small tiles of one material stacked on each other, with no tile of
/// that material above or below the pair, the upper one is drawn as the top
/// row and the lower one as the bottom row.
pub proof fn lemma_small_pair(grid: Map<Cell, Material>, x: int, y: int, material: Material)
    requires
        material.small(),
        material_at(grid, x, y) == Some(material),
        material_at(grid, x, y + 1) == Some(material),
        material_at(grid, x, y + 2) != Some(material),
        material_at(grid, x, y - 1) != Some(material),
    ensures
        row_of(grid, x, y + 1) == Row::TOP,
        row_of(grid, x, y) == Row::BOTTOM,
{
    assert(row_of(grid, x, y + 1) == Row::TOP);
}

/// The texture table holds an image for the variants of every placed tile:
/// a small tile never resolves to the centre row or the middle column.
pub proof fn lemma_variants_are_textured(grid: Map<Cell, Material>, cell: Cell)
    requires
        grid.contains_key(cell),
    ensures
        textured(
            grid[cell],
            row_of(grid, cell.0 as int, cell.1 as int),
            column_of(grid, cell.0 as int, cell.1 as int),
        ),
{
}

} // verus!
