//! The active-board register and the click navigator.
//!
//! A primary-click edge on a cell of the active board steps the active
//! board one grid position in the direction the cell lies from its
//! board's center, wrapping toroidally at the grid edges. Clicks on
//! foreign boards, and ticks without a fresh click, are inert.

use vstd::prelude::*;

use vstd::arithmetic::div_mod::{
    lemma_div_is_strictly_smaller, lemma_mod_bound, lemma_multiply_divide_lt,
};

use crate::event::Transition;
use crate::region::{BoardRef, CellRef, GridConfig};

verus! {

/// The direction a cell's coordinate points from its board's center:
/// `-1` below the center, `0` exactly at it (possible only for odd board
/// sizes), `+1` above it.
pub open spec fn dir_sign(coord: int, n: int) -> int {
    if 2 * coord < n - 1 {
        -1
    } else if 2 * coord == n - 1 {
        0
    } else {
        1
    }
}

/// Decomposition of a board id into outer-grid coordinates: boards are
/// numbered column by column, `game_rows` per column.
pub open spec fn active_x(active: int, config: GridConfig) -> int {
    active / (config.game_rows as int)
}

pub open spec fn active_y(active: int, config: GridConfig) -> int {
    active % (config.game_rows as int)
}

/// The board id the grid navigates to when a cell of the active board is
/// clicked: one wraparound step along each axis in the direction the cell
/// lies from its board's center.
pub open spec fn nav_target(active: int, cell: CellRef, config: GridConfig) -> int {
    let nx = (active_x(active, config) + dir_sign(cell.x as int, config.n as int)
        + config.games_per_row) % (config.games_per_row as int);
    let ny = (active_y(active, config) + dir_sign(cell.y as int, config.n as int)
        + config.game_rows) % (config.game_rows as int);
    (config.game_rows as int) * nx + ny
}

/// A navigation step lands on a valid board id.
pub proof fn lemma_nav_target_in_range(active: int, cell: CellRef, config: GridConfig)
    requires
        config.wf(),
        0 <= active < config.board_count(),
    ensures
        0 <= nav_target(active, cell, config) < config.board_count(),
{
    let rows = config.game_rows as int;
    let gpr = config.games_per_row as int;
    let nx = (active_x(active, config) + dir_sign(cell.x as int, config.n as int) + gpr) % gpr;
    let ny = (active_y(active, config) + dir_sign(cell.y as int, config.n as int) + rows) % rows;
    lemma_mod_bound(active_x(active, config) + dir_sign(cell.x as int, config.n as int) + gpr, gpr);
    lemma_mod_bound(active_y(active, config) + dir_sign(cell.y as int, config.n as int) + rows, rows);
    assert(rows * nx + ny < rows * gpr) by (nonlinear_arith)
        requires
            0 <= nx < gpr,
            0 <= ny < rows,
            rows >= 1,
    ;
    assert(rows * gpr == config.board_count()) by (nonlinear_arith)
        requires
            rows == config.game_rows as int,
            gpr == config.games_per_row as int,
    ;
}

/// One wraparound step along one axis: position `pos` of `extent` moves
/// by the direction of cell coordinate `coord` in a board of size `n`.
fn wrap_step(pos: u64, extent: u64, coord: u8, n: u8) -> (r: u64)
    requires
        1 <= extent <= u32::MAX,
        pos < extent,
        n >= 1,
    ensures
        r == (pos + dir_sign(coord as int, n as int) + extent) % (extent as int),
        r < extent,
{
    let doubled = 2 * (coord as u64);
    let center = (n - 1) as u64;
    let base = pos + extent;
    let shifted = if doubled < center {
        base - 1
    } else if doubled == center {
        base
    } else {
        base + 1
    };
    proof {
        assert(shifted == pos + dir_sign(coord as int, n as int) + extent);
        lemma_mod_bound(shifted as int, extent as int);
    }
    shifted % extent
}

/// The single currently-active board: exactly one board accepts play
/// input at all times.
pub struct ActiveBoard {
    pub board_id: u64,
}

/// Whether a click navigates at all: a fresh primary press while the
/// hovered cell belongs to the active board.
pub open spec fn click_fires(hovered: Option<CellRef>, press_edge: bool, active: u64) -> bool {
    press_edge && (hovered matches Some(c) && c.board_id == active)
}

/// The transitions a navigation step emits: nothing when it lands where
/// it started, else deactivate strictly before activate, so no two boards
/// ever render as active at once.
pub open spec fn nav_events(active: u64, target: int) -> Seq<Transition> {
    if target == active {
        seq![]
    } else {
        seq![
            Transition::BoardDeactivated(BoardRef { board_id: active }),
            Transition::BoardActivated(BoardRef { board_id: target as u64 }),
        ]
    }
}

/// The register after the tick: stepped only when the click fired.
pub open spec fn post_active(
    active: u64,
    hovered: Option<CellRef>,
    press_edge: bool,
    config: GridConfig,
) -> int {
    if click_fires(hovered, press_edge, active) {
        nav_target(active as int, hovered->Some_0, config)
    } else {
        active as int
    }
}

impl ActiveBoard {
    /// The register always names one of the grid's boards.
    pub open spec fn wf(self, config: GridConfig) -> bool {
        self.board_id < config.board_count()
    }

    /// At startup the grid's structural midpoint board is active.
    pub fn initial(config: &GridConfig) -> (a: ActiveBoard)
        requires
            config.wf(),
        ensures
            a.board_id == config.spec_midpoint(),
            a.wf(*config),
    {
        let a = ActiveBoard { board_id: config.midpoint() };
        proof {
            assert(config.board_count() >= 1) by (nonlinear_arith)
                requires
                    config.games_per_row >= 1,
                    config.game_rows >= 1,
            ;
            lemma_div_is_strictly_smaller(config.board_count(), 2);
        }
        a
    }

    /// One tick of the click navigator. Emits the due transitions and
    /// steps the register; inert unless a fresh primary click lands on a
    /// cell of the active board, and a step back onto the same board
    /// emits nothing.
    pub fn handle_click(
        &mut self,
        hovered: &Option<CellRef>,
        press_edge: bool,
        config: &GridConfig,
    ) -> (evs: Vec<Transition>)
        requires
            config.wf(),
            old(self).wf(*config),
        ensures
            final(self).board_id == post_active(old(self).board_id, *hovered, press_edge, *config),
            final(self).wf(*config),
            evs@ == if click_fires(*hovered, press_edge, old(self).board_id) {
                nav_events(
                    old(self).board_id,
                    nav_target(old(self).board_id as int, hovered->Some_0, *config),
                )
            } else {
                Seq::<Transition>::empty()
            },
            !click_fires(*hovered, press_edge, old(self).board_id)
                ==> *final(self) == *old(self) && evs@.len() == 0,
    {
        let mut evs: Vec<Transition> = Vec::new();
        if !press_edge {
            return evs;
        }
        let cell = match hovered {
            Some(c) => c,
            None => {
                return evs;
            },
        };
        if cell.board_id != self.board_id {
            return evs;
        }
        let target = self.nav_target_exec(cell, config);
        if target != self.board_id {
            evs.push(Transition::BoardDeactivated(BoardRef { board_id: self.board_id }));
            evs.push(Transition::BoardActivated(BoardRef { board_id: target }));
            self.board_id = target;
            proof {
                assert(evs@ =~= nav_events(
                    old(self).board_id,
                    nav_target(old(self).board_id as int, *cell, *config),
                ));
            }
        }
        evs
    }

    /// The wraparound navigation arithmetic on the live register.
    fn nav_target_exec(&self, cell: &CellRef, config: &GridConfig) -> (t: u64)
        requires
            config.wf(),
            self.wf(*config),
        ensures
            t == nav_target(self.board_id as int, *cell, *config),
            t < config.board_count(),
    {
        let rows = config.game_rows as u64;
        let gpr = config.games_per_row as u64;
        let active = self.board_id;
        proof {
            assert(gpr * rows == config.board_count()) by (nonlinear_arith)
                requires
                    rows == config.game_rows as int,
                    gpr == config.games_per_row as int,
            ;
            lemma_multiply_divide_lt(active as int, rows as int, gpr as int);
            assert(rows * (gpr as int) == gpr * (rows as int)) by (nonlinear_arith);
            lemma_mod_bound(active as int, rows as int);
        }
        let ax = active / rows;
        let ay = active % rows;
        let nx = wrap_step(ax, gpr, cell.x, config.n);
        let ny = wrap_step(ay, rows, cell.y, config.n);
        proof {
            lemma_nav_target_in_range(active as int, *cell, *config);
            assert(rows * nx + ny == nav_target(active as int, *cell, *config));
            assert(rows * gpr <= u64::MAX) by (nonlinear_arith)
                requires
                    1 <= rows <= u32::MAX,
                    1 <= gpr <= u32::MAX,
            ;
        }
        rows * nx + ny
    }
}

/// Stepping right off the last column re-enters at the first, and
/// stepping left off the first column re-enters at the last: the general
/// shape of wraparound at the grid edges.
pub proof fn lemma_wrap_at_edges(pos: int, extent: int)
    requires
        1 <= extent,
        0 <= pos < extent,
    ensures
        pos == extent - 1 ==> (pos + 1 + extent) % extent == 0,
        pos == 0 ==> (pos - 1 + extent) % extent == extent - 1,
{
    if pos == extent - 1 {
        assert((pos + 1 + extent) % extent == (2 * extent) % extent);
        assert((2 * extent) % extent == 0) by (nonlinear_arith)
            requires
                extent >= 1,
        ;
    }
    if pos == 0 {
        lemma_mod_bound(extent - 1, extent);
        assert((extent - 1) % extent == extent - 1) by (nonlinear_arith)
            requires
                extent >= 1,
        ;
    }
}

} // verus!
