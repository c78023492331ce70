//! Presentation modes of the terminal.

use vstd::prelude::*;

verus! {

/// How the terminal is presented.
#[derive(Clone, Copy, PartialEq, Eq, Structural, Debug)]
pub enum TerminalPresentationMode {
    /// A flat terminal that fills the window.
    Flat2d,
    /// A plane in space.
    Plane3d,
    /// A Mobius strip in space.
    Mobius3d,
}

/// Whether a mode shows the terminal in space.
pub open spec fn spatial(mode: TerminalPresentationMode) -> bool {
    mode != TerminalPresentationMode::Flat2d
}

/// The plane and the strip stand in space; the flat terminal does not.
pub proof fn planes_and_strips_are_spatial()
    ensures
        spatial(TerminalPresentationMode::Plane3d),
        spatial(TerminalPresentationMode::Mobius3d),
        !spatial(TerminalPresentationMode::Flat2d),
{
}

} // verus!
