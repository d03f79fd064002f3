//! The static description of a deck.

use vstd::prelude::*;

verus! {

/// The panel width a session assumes for a deck that reports no panel.
pub const DEFAULT_PANEL_WIDTH: usize = 90;

/// The panel height a session assumes for a deck that reports no panel.
pub const DEFAULT_PANEL_HEIGHT: usize = 90;

/// The size of a panel, in pixels.
#[derive(Clone, Copy, Debug, PartialEq, Eq, Structural)]
pub struct PanelSize {
    pub width: usize,
    pub height: usize,
}

/// What the hardware of one deck is: fixed when the session connects and
/// only read afterwards.
#[derive(Clone, Copy, Debug, PartialEq, Eq, Structural)]
pub struct DeckKind {
    /// The number of keys.
    pub key_count: u8,
    /// Whether the deck has dials.
    pub has_dials: bool,
    /// Whether the deck has a touch strip.
    pub has_touch_strip: bool,
    /// The size of the panel, where the deck has one.
    pub panel: Option<PanelSize>,
}

impl DeckKind {
    /// The panel size a session works with: the deck's own, or the default
    /// where it has none.
    pub open spec fn panel_or_default(self) -> PanelSize {
        match self.panel {
            Some(size) => size,
            None => PanelSize { width: DEFAULT_PANEL_WIDTH, height: DEFAULT_PANEL_HEIGHT },
        }
    }

    /// Returns the panel size a session works with: the deck's own, or the
    /// default of 90 by 90 where it has none.
    pub fn size(&self) -> (size: PanelSize)
        ensures
            size == self.panel_or_default(),
    {
        match self.panel {
            Some(size) => size,
            None => PanelSize { width: DEFAULT_PANEL_WIDTH, height: DEFAULT_PANEL_HEIGHT },
        }
    }
}

} // verus!
