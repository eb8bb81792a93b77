//! One update tick over the whole state machine: hit test, hover diff,
//! click navigation, in that order, over exclusively-owned state.

use vstd::prelude::*;

use crate::event::Transition;
use crate::geom::Point;
use crate::hit::{board_hit, first_cell_hit, hit_test};
use crate::hover::{hover_events, lemma_hover_idempotent, HoverState};
use crate::nav::{click_fires, nav_events, nav_target, post_active, ActiveBoard};
use crate::region::{CellRef, RegionRegistry};

verus! {

/// The hover/selection state machine: the static region registry, the
/// hover tracker's state, and the active-board register.
pub struct Session {
    pub registry: RegionRegistry,
    pub hover: HoverState,
    pub active: ActiveBoard,
}

/// Everything one tick emits: the hover diff against the hit result,
/// then the navigation transitions of a click, if one fired.
pub open spec fn tick_events(s: Session, p: Point, press_edge: bool) -> Seq<Transition> {
    let hc = first_cell_hit(s.registry.regions@, p);
    let hb = board_hit(s.registry.regions@, p);
    hover_events(s.hover, hc, hb) + (if click_fires(hc, press_edge, s.active.board_id) {
        nav_events(
            s.active.board_id,
            nav_target(s.active.board_id as int, hc->Some_0, s.registry.config),
        )
    } else {
        Seq::<Transition>::empty()
    })
}

/// Feeding the same pointer position twice in a row emits no transition
/// on the second tick: after any tick at `p` the hover state equals the
/// hit result at `p`, which is what this lemma requires, and a tick
/// without a fresh click adds no navigation transitions either.
pub proof fn lemma_tick_idempotent(s: Session, p: Point)
    requires
        s.hover.cell == first_cell_hit(s.registry.regions@, p),
        s.hover.board == board_hit(s.registry.regions@, p),
    ensures
        tick_events(s, p, false) == Seq::<Transition>::empty(),
{
    lemma_hover_idempotent(s.hover, s.hover.cell, s.hover.board);
    assert(tick_events(s, p, false) =~= Seq::<Transition>::empty());
}

impl Session {
    pub open spec fn wf(self) -> bool {
        &&& self.registry.wf()
        &&& self.hover.wf()
        &&& self.active.wf(self.registry.config)
    }

    /// A fresh session over a validated registry: nothing hovered, the
    /// structural midpoint board active.
    pub fn new(registry: RegionRegistry) -> (s: Session)
        requires
            registry.wf(),
        ensures
            s.wf(),
            s.registry == registry,
            s.hover.cell is None,
            s.hover.board is None,
            s.active.board_id == registry.config.spec_midpoint(),
    {
        let active = ActiveBoard::initial(&registry.config);
        Session { registry, hover: HoverState::new(), active }
    }

    /// One tick: reads the pointer sample and the press edge, emits the
    /// due transitions in order, and steps the hover state and the
    /// active register.
    pub fn tick(&mut self, pointer: &Point, press_edge: bool) -> (evs: Vec<Transition>)
        requires
            old(self).wf(),
        ensures
            final(self).wf(),
            final(self).registry == old(self).registry,
            final(self).hover.cell == first_cell_hit(old(self).registry.regions@, *pointer),
            final(self).hover.board == board_hit(old(self).registry.regions@, *pointer),
            final(self).active.board_id == post_active(
                old(self).active.board_id,
                first_cell_hit(old(self).registry.regions@, *pointer),
                press_edge,
                old(self).registry.config,
            ),
            evs@ == tick_events(*old(self), *pointer, press_edge),
    {
        let (cell, board) = hit_test(&self.registry, pointer);
        let mut evs = self.hover.update(cell, board);
        let mut nav_evs = self.active.handle_click(&cell, press_edge, &self.registry.config);
        evs.append(&mut nav_evs);
        proof {
            assert(evs@ =~= tick_events(*old(self), *pointer, press_edge));
        }
        evs
    }

    /// The id of the board currently accepting play input.
    pub fn active_board(&self) -> (id: u64)
        ensures
            id == self.active.board_id,
    {
        self.active.board_id
    }

    /// The cell reported hovered by the last tick, if any.
    pub fn hovered_cell(&self) -> (c: Option<CellRef>)
        ensures
            c == self.hover.cell,
    {
        self.hover.cell
    }
}

} // verus!
