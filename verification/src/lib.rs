use vstd::prelude::*;

pub mod color;
pub mod geometry;
pub mod input;
pub mod keys;
pub mod mode;
pub mod overlay;
pub mod palette;
pub mod pane;
pub mod prompt;
pub mod session;
pub mod statusbar;
pub mod tab;
pub mod text;
pub mod ui;
pub mod workspace;

verus! {

/// Identifier of a terminal session.
#[derive(Clone, Copy, Debug, PartialEq, Eq, Structural, Hash)]
pub struct SessionId(pub u64);

} // verus!
