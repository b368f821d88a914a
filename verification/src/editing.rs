//! The edit session: which cell the cursor hovers over, which material is
//! armed, and what the hovered cell held before the preview was drawn on it.

use crate::cell::Cell;
use crate::level::{Level, LevelView};
use crate::persistence::{save_text, saved_text};
use crate::tiles::Material;
use vstd::prelude::*;

verus! {

/// What the program is doing: starting up, running the level, or editing it.
#[derive(Clone, Copy, Debug, PartialEq, Eq, Structural, Hash)]
pub enum AppState {
    Setup,
    Playing,
    Editing,
}

impl AppState {
    /// The state that follows this one when the mode is switched: editing
    /// follows playing, and playing follows everything else.
    pub open spec fn switched(self) -> AppState {
        match self {
            AppState::Playing => AppState::Editing,
            AppState::Editing => AppState::Playing,
            AppState::Setup => AppState::Playing,
        }
    }
}

/// The state to change to in this frame, `None` where the state stays: the
/// mode is switched exactly when the key for it was pressed.
pub fn state_transition(state: AppState, change_mode_pressed: bool) -> (next: Option<AppState>)
    ensures
        next == (if change_mode_pressed {
            Some(state.switched())
        } else {
            None
        }),
{
    if !change_mode_pressed {
        return None;
    }
    match state {
        AppState::Playing => Some(AppState::Editing),
        AppState::Editing => Some(AppState::Playing),
        AppState::Setup => Some(AppState::Playing),
    }
}

/// The state of an edit session.
///
/// While a cell is hovered it shows `selected_material` as a preview;
/// `original_material` is what it held before, and what it gets back when
/// the cursor leaves without a click.
#[derive(Clone, Copy, Debug, PartialEq, Eq)]
pub struct HoveringBlock {
    pub last_hovered: Cell,
    pub hovering: Cell,
    pub selected_material: Option<Material>,
    pub original_material: Option<Material>,
}

impl HoveringBlock {
    /// The session as it starts: at the origin, with green grass armed.
    pub open spec fn initial() -> HoveringBlock {
        HoveringBlock {
            last_hovered: (0, 0),
            hovering: (0, 0),
            selected_material: Some(Material::GRASS_GREEN),
            original_material: None,
        }
    }

    /// The session after the cursor was seen over `cell` on `level`.
    pub open spec fn moved(self, level: LevelView, cell: Cell) -> HoveringBlock {
        if cell == self.hovering {
            self
        } else {
            HoveringBlock {
                last_hovered: self.hovering,
                hovering: cell,
                original_material: level.inserted(self.hovering, self.original_material).material(
                    cell,
                ),
                ..self
            }
        }
    }

    /// The session after a left click.
    pub open spec fn placed(self) -> HoveringBlock {
        HoveringBlock { original_material: self.selected_material, ..self }
    }

    /// The session after a right click.
    pub open spec fn cycled(self) -> HoveringBlock {
        HoveringBlock { selected_material: Material::after(self.selected_material), ..self }
    }
}

impl LevelView {
    /// The level after the cursor of `block` was seen over `cell`: the cell
    /// hovered so far has its original material back, and `cell` shows the
    /// armed material.
    pub open spec fn hovered(self, block: HoveringBlock, cell: Cell) -> LevelView {
        if cell == block.hovering {
            self
        } else {
            self.inserted(block.hovering, block.original_material).inserted(
                cell,
                block.selected_material,
            )
        }
    }

    /// The level after a left click of `block`. The eraser places nothing.
    pub open spec fn clicked(self, block: HoveringBlock) -> LevelView {
        match block.selected_material {
            Some(m) => self.inserted(block.hovering, Some(m)),
            None => self,
        }
    }

    /// The level after the session of `block` ended: the hovered cell has
    /// its original material back.
    pub open spec fn restored(self, block: HoveringBlock) -> LevelView {
        self.inserted(block.hovering, block.original_material)
    }
}

impl Default for HoveringBlock {
    fn default() -> (block: Self)
        ensures
            block == HoveringBlock::initial(),
    {
        HoveringBlock {
            last_hovered: (0, 0),
            hovering: (0, 0),
            selected_material: Some(Material::GRASS_GREEN),
            original_material: None,
        }
    }
}

/// Follows the cursor. `cursor` is the cell under it, `None` while it is
/// outside the window, which counts as no movement. When the cursor has
/// reached a new cell, the cell left behind gets its original material back,
/// the new cell's material is remembered, and the armed material is drawn on
/// the new cell as a preview.
pub fn move_block_to_cursor(
    hovering_block: &mut HoveringBlock,
    level: &mut Level,
    cursor: Option<Cell>,
)
    ensures
        cursor is None ==> *final(hovering_block) == *old(hovering_block) && final(level)@ == old(
            level,
        )@,
        cursor matches Some(cell) ==> *final(hovering_block) == old(hovering_block).moved(
            old(level)@,
            cell,
        ) && final(level)@ == old(level)@.hovered(*old(hovering_block), cell),
{
    let grid_point = match cursor {
        Some(cell) => cell,
        None => {
            return ;
        },
    };
    if grid_point.0 != hovering_block.hovering.0 || grid_point.1 != hovering_block.hovering.1 {
        level.insert(hovering_block.hovering, hovering_block.original_material);
        hovering_block.last_hovered = hovering_block.hovering;
        hovering_block.hovering = grid_point;
        hovering_block.original_material = level.material(grid_point);
        level.insert(grid_point, hovering_block.selected_material);
    }
}

/// Handles a left click: the armed material is placed on the hovered cell for
/// good, so that the cell keeps it when the cursor leaves. With the eraser
/// armed nothing is placed, and the cell will stay empty.
pub fn place_block(left_clicked: bool, level: &mut Level, hovering_block: &mut HoveringBlock)
    ensures
        !left_clicked ==> *final(hovering_block) == *old(hovering_block) && final(level)@ == old(
            level,
        )@,
        left_clicked ==> *final(hovering_block) == old(hovering_block).placed() && final(level)@
            == old(level)@.clicked(*old(hovering_block)),
{
    if !left_clicked {
        return ;
    }
    match hovering_block.selected_material {
        Some(material) => {
            level.insert(hovering_block.hovering, Some(material));
        },
        None => {},
    }
    hovering_block.original_material = hovering_block.selected_material;
}

/// Handles a right click: arms the next material of the cycle and redraws the
/// preview on the hovered cell with it.
pub fn change_block_type(hovering_block: &mut HoveringBlock, right_clicked: bool, level: &mut Level)
    ensures
        !right_clicked ==> *final(hovering_block) == *old(hovering_block) && final(level)@ == old(
            level,
        )@,
        right_clicked ==> *final(hovering_block) == old(hovering_block).cycled() && final(level)@
            == old(level)@.inserted(
            old(hovering_block).hovering,
            Material::after(old(hovering_block).selected_material),
        ),
{
    if right_clicked {
        hovering_block.selected_material = Material::next(hovering_block.selected_material);
        level.insert(hovering_block.hovering, hovering_block.selected_material);
    }
}

/// Ends the session: the hovered cell gets its original material back, which
/// undoes a preview that was never placed, and the materials are written out
/// as the text to save.
pub fn exit_editing(hovering_block: &HoveringBlock, level: &mut Level) -> (text: String)
    ensures
        final(level)@ == old(level)@.restored(*hovering_block),
        text@ == saved_text(final(level)@.materials),
{
    level.insert(hovering_block.hovering, hovering_block.original_material);
    save_text(&level.material_map)
}

/// A cell that the cursor passes over without a click holds afterwards what
/// it held before, and so does every cell other than the one now hovered and
/// the one hovered at the start.
pub proof fn lemma_hover_restores(level: LevelView, block: HoveringBlock, onto: Cell, away: Cell)
    requires
        onto != block.hovering,
        away != onto,
    ensures
        ({
            let over = level.hovered(block, onto);
            let left = over.hovered(block.moved(level, onto), away);
            &&& left.material(onto) == level.material(onto)
            &&& forall|c: Cell|
                c != away && c != block.hovering ==> #[trigger] left.material(c) == level.material(
                    c,
                )
            &&& away != block.hovering ==> left.material(block.hovering) == block.original_material
        }),
{
}

/// A preview that was never placed is undone when the session ends: the
/// hovered cell holds what it held before the cursor came.
pub proof fn lemma_exit_restores(level: LevelView, block: HoveringBlock, onto: Cell)
    requires
        onto != block.hovering,
    ensures
        ({
            let over = level.hovered(block, onto);
            let end = over.restored(block.moved(level, onto));
            forall|c: Cell|
                c != block.hovering ==> #[trigger] end.material(c) == level.material(c)
        }),
{
}

/// After a left click the hovered cell keeps the armed material when the
/// cursor moves on, unless the eraser was armed.
pub proof fn lemma_placed_tile_stays(level: LevelView, block: HoveringBlock, away: Cell)
    requires
        away != block.hovering,
        block.selected_material is Some,
    ensures
        level.clicked(block).hovered(block.placed(), away).material(block.hovering)
            == block.selected_material,
{
}

} // verus!
