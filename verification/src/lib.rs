//! Tiled pane bookkeeping, pane frame rendering and setup helpers of a
//! terminal workspace, with their behaviour stated and proved in Verus.

pub mod geom;

pub mod pane;
pub mod assoc;
pub mod tiled_panes;
pub mod frame;
pub mod setup;
pub mod laws;
