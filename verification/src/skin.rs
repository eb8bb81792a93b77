//! The visual-state applier: maps each transition to the one highlight
//! layer it toggles.
//!
//! Hover transitions pick the "active" or the "inactive" hover skin by
//! whether the affected region's board equals the active register at the
//! time the transition is processed; activation transitions drive the
//! board's active-border layer.

use vstd::prelude::*;

use crate::event::Transition;
use crate::region::{BoardRef, CellRef};

verus! {

/// The two hover-skin variants every cell and board carries.
#[derive(Clone, Copy, Debug, PartialEq, Eq, Structural)]
pub enum SkinVariant {
    OnActiveBoard,
    OnInactiveBoard,
}

/// One highlight layer of a region.
#[derive(Clone, Copy, Debug, PartialEq, Eq, Structural)]
pub enum HighlightLayer {
    Hover(SkinVariant),
    ActiveBorder,
}

/// The region a toggle addresses.
#[derive(Clone, Copy, Debug, PartialEq, Eq, Structural)]
pub enum SkinTarget {
    Cell(CellRef),
    Board(BoardRef),
}

/// One visibility toggle: exactly one layer of one region.
#[derive(Clone, Copy, Debug, PartialEq, Eq, Structural)]
pub struct SkinAction {
    pub target: SkinTarget,
    pub layer: HighlightLayer,
    pub visible: bool,
}

/// Which hover-skin variant a board's regions show.
pub open spec fn variant_for(board_id: u64, active: u64) -> SkinVariant {
    if board_id == active {
        SkinVariant::OnActiveBoard
    } else {
        SkinVariant::OnInactiveBoard
    }
}

/// The single toggle a transition causes, given the active register at
/// processing time.
pub open spec fn spec_toggle(t: Transition, active: u64) -> SkinAction {
    match t {
        Transition::CellEntered(c) => SkinAction {
            target: SkinTarget::Cell(c),
            layer: HighlightLayer::Hover(variant_for(c.board_id, active)),
            visible: true,
        },
        Transition::CellExited(c) => SkinAction {
            target: SkinTarget::Cell(c),
            layer: HighlightLayer::Hover(variant_for(c.board_id, active)),
            visible: false,
        },
        Transition::BoardEntered(b) => SkinAction {
            target: SkinTarget::Board(b),
            layer: HighlightLayer::Hover(variant_for(b.board_id, active)),
            visible: true,
        },
        Transition::BoardExited(b) => SkinAction {
            target: SkinTarget::Board(b),
            layer: HighlightLayer::Hover(variant_for(b.board_id, active)),
            visible: false,
        },
        Transition::BoardActivated(b) => SkinAction {
            target: SkinTarget::Board(b),
            layer: HighlightLayer::ActiveBorder,
            visible: true,
        },
        Transition::BoardDeactivated(b) => SkinAction {
            target: SkinTarget::Board(b),
            layer: HighlightLayer::ActiveBorder,
            visible: false,
        },
    }
}

/// Decides the one layer toggle for a transition.
pub fn toggle_for(t: &Transition, active: u64) -> (a: SkinAction)
    ensures
        a == spec_toggle(*t, active),
{
    match *t {
        Transition::CellEntered(c) => SkinAction {
            target: SkinTarget::Cell(c),
            layer: HighlightLayer::Hover(variant_exec(c.board_id, active)),
            visible: true,
        },
        Transition::CellExited(c) => SkinAction {
            target: SkinTarget::Cell(c),
            layer: HighlightLayer::Hover(variant_exec(c.board_id, active)),
            visible: false,
        },
        Transition::BoardEntered(b) => SkinAction {
            target: SkinTarget::Board(b),
            layer: HighlightLayer::Hover(variant_exec(b.board_id, active)),
            visible: true,
        },
        Transition::BoardExited(b) => SkinAction {
            target: SkinTarget::Board(b),
            layer: HighlightLayer::Hover(variant_exec(b.board_id, active)),
            visible: false,
        },
        Transition::BoardActivated(b) => SkinAction {
            target: SkinTarget::Board(b),
            layer: HighlightLayer::ActiveBorder,
            visible: true,
        },
        Transition::BoardDeactivated(b) => SkinAction {
            target: SkinTarget::Board(b),
            layer: HighlightLayer::ActiveBorder,
            visible: false,
        },
    }
}

fn variant_exec(board_id: u64, active: u64) -> (v: SkinVariant)
    ensures
        v == variant_for(board_id, active),
{
    if board_id == active {
        SkinVariant::OnActiveBoard
    } else {
        SkinVariant::OnInactiveBoard
    }
}

/// Decides the toggles for a whole tick's transitions, in emission order.
pub fn toggles_for(evs: &Vec<Transition>, active: u64) -> (acts: Vec<SkinAction>)
    ensures
        acts@ == evs@.map(|i: int, t: Transition| spec_toggle(t, active)),
{
    let ghost m = evs@.map(|i: int, t: Transition| spec_toggle(t, active));
    let mut acts: Vec<SkinAction> = Vec::new();
    let mut i: usize = 0;
    while i < evs.len()
        invariant
            0 <= i <= evs@.len(),
            m == evs@.map(|i: int, t: Transition| spec_toggle(t, active)),
            acts@ =~= m.take(i as int),
        decreases evs@.len() - i,
    {
        let a = toggle_for(&evs[i], active);
        acts.push(a);
        proof {
            assert(acts@ =~= m.take(i + 1));
        }
        i = i + 1;
    }
    proof {
        assert(m.take(evs@.len() as int) =~= m);
    }
    acts
}

/// The visibility flags of one cell's highlight children.
#[derive(Clone, Copy, Debug, PartialEq, Eq, Structural)]
pub struct CellHighlights {
    pub hover_on_active: bool,
    pub hover_on_inactive: bool,
}

/// The visibility flags of one board's highlight children.
#[derive(Clone, Copy, Debug, PartialEq, Eq, Structural)]
pub struct BoardHighlights {
    pub hover_on_active: bool,
    pub hover_on_inactive: bool,
    pub active_border: bool,
}

impl CellHighlights {
    /// All layers start hidden.
    pub fn hidden() -> (h: CellHighlights)
        ensures
            !h.hover_on_active,
            !h.hover_on_inactive,
    {
        CellHighlights { hover_on_active: false, hover_on_inactive: false }
    }

    /// Applies a hover toggle to this cell's layers: the chosen skin
    /// variant takes the new visibility, the other is left untouched.
    pub fn apply(&mut self, variant: SkinVariant, visible: bool)
        ensures
            variant is OnActiveBoard ==> final(self).hover_on_active == visible
                && final(self).hover_on_inactive == old(self).hover_on_inactive,
            variant is OnInactiveBoard ==> final(self).hover_on_inactive == visible
                && final(self).hover_on_active == old(self).hover_on_active,
    {
        match variant {
            SkinVariant::OnActiveBoard => self.hover_on_active = visible,
            SkinVariant::OnInactiveBoard => self.hover_on_inactive = visible,
        }
    }
}

impl BoardHighlights {
    /// All layers start hidden.
    pub fn hidden() -> (h: BoardHighlights)
        ensures
            !h.hover_on_active,
            !h.hover_on_inactive,
            !h.active_border,
    {
        BoardHighlights { hover_on_active: false, hover_on_inactive: false, active_border: false }
    }

    /// Applies a toggle to this board's layers: exactly the addressed
    /// layer takes the new visibility, the others are left untouched.
    pub fn apply(&mut self, layer: HighlightLayer, visible: bool)
        ensures
            layer == HighlightLayer::Hover(SkinVariant::OnActiveBoard)
                ==> *final(self) == (BoardHighlights { hover_on_active: visible, ..*old(self) }),
            layer == HighlightLayer::Hover(SkinVariant::OnInactiveBoard)
                ==> *final(self) == (BoardHighlights { hover_on_inactive: visible, ..*old(self) }),
            layer is ActiveBorder
                ==> *final(self) == (BoardHighlights { active_border: visible, ..*old(self) }),
    {
        match layer {
            HighlightLayer::Hover(SkinVariant::OnActiveBoard) => self.hover_on_active = visible,
            HighlightLayer::Hover(SkinVariant::OnInactiveBoard) => self.hover_on_inactive = visible,
            HighlightLayer::ActiveBorder => self.active_border = visible,
        }
    }
}

/// A cell-entered transition on the active board shows that cell's
/// active-skin hover layer and touches no other layer; on any other board
/// it shows the inactive-skin layer instead.
pub proof fn lemma_skin_selection(c: CellRef, active: u64)
    ensures
        c.board_id == active ==> spec_toggle(Transition::CellEntered(c), active) == (SkinAction {
            target: SkinTarget::Cell(c),
            layer: HighlightLayer::Hover(SkinVariant::OnActiveBoard),
            visible: true,
        }),
        c.board_id != active ==> spec_toggle(Transition::CellEntered(c), active) == (SkinAction {
            target: SkinTarget::Cell(c),
            layer: HighlightLayer::Hover(SkinVariant::OnInactiveBoard),
            visible: true,
        }),
{
}

} // verus!
