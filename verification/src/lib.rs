//! A sparse tile grid for a 2D level editor: placed materials, automatic
//! edge and corner tile variants, deferred visual changes, and the edit
//! session that drives them.

pub mod cell;
pub mod tiles;
pub mod level;
pub mod queues;
pub mod editing;
pub mod keys;
pub mod persistence;
