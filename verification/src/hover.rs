//! The hover tracker: diffs the hit tester's result against the previous
//! tick's state and emits enter/exit transitions at both levels.
//!
//! One diff rule serves the cell level and the board level alike; within
//! each level an enter is emitted strictly before the matching exit, so a
//! consumer never observes "nothing hovered" during a same-tick hand-off
//! between adjacent regions.

use vstd::prelude::*;

use crate::event::Transition;
use crate::region::{BoardRef, CellRef};

verus! {

/// A region identity the hover diff can compare.
pub trait HoverKey: Sized + Copy {
    /// Structural equality, decided at run time.
    fn same(&self, other: &Self) -> (b: bool)
        ensures
            b == (*self == *other),
    ;
}

impl HoverKey for CellRef {
    fn same(&self, other: &Self) -> (b: bool)
        ensures
            b == (*self == *other),
    {
        self.x == other.x && self.y == other.y && self.board_id == other.board_id
    }
}

impl HoverKey for BoardRef {
    fn same(&self, other: &Self) -> (b: bool)
        ensures
            b == (*self == *other),
    {
        self.board_id == other.board_id
    }
}

/// The region entered this tick, if any: the current one, unless it was
/// already hovered.
pub open spec fn entered_of<T>(prev: Option<T>, curr: Option<T>) -> Option<T> {
    if curr is Some && prev != curr {
        curr
    } else {
        None
    }
}

/// The region exited this tick, if any: the previous one, unless it is
/// still hovered.
pub open spec fn exited_of<T>(prev: Option<T>, curr: Option<T>) -> Option<T> {
    if prev is Some && prev != curr {
        prev
    } else {
        None
    }
}

/// One level of the hover diff: what was entered and what was exited.
pub fn diff_level<T: HoverKey>(prev: &Option<T>, curr: &Option<T>) -> (r: (Option<T>, Option<T>))
    ensures
        r.0 == entered_of(*prev, *curr),
        r.1 == exited_of(*prev, *curr),
{
    match (prev, curr) {
        (None, None) => (None, None),
        (None, Some(c)) => (Some(*c), None),
        (Some(a), None) => (None, Some(*a)),
        (Some(a), Some(b)) => {
            if a.same(b) {
                (None, None)
            } else {
                (Some(*b), Some(*a))
            }
        },
    }
}

/// The board-level transitions of one tick, enter before exit.
pub open spec fn board_events(prev: Option<BoardRef>, curr: Option<BoardRef>) -> Seq<Transition> {
    let ent = match entered_of(prev, curr) {
        Some(b) => seq![Transition::BoardEntered(b)],
        None => seq![],
    };
    let ex = match exited_of(prev, curr) {
        Some(b) => seq![Transition::BoardExited(b)],
        None => seq![],
    };
    ent + ex
}

/// The cell-level transitions of one tick, enter before exit.
pub open spec fn cell_events(prev: Option<CellRef>, curr: Option<CellRef>) -> Seq<Transition> {
    let ent = match entered_of(prev, curr) {
        Some(c) => seq![Transition::CellEntered(c)],
        None => seq![],
    };
    let ex = match exited_of(prev, curr) {
        Some(c) => seq![Transition::CellExited(c)],
        None => seq![],
    };
    ent + ex
}

/// Everything one tick of the tracker emits: the board diff, then the
/// cell diff.
pub open spec fn hover_events(
    prev: HoverState,
    cell: Option<CellRef>,
    board: Option<BoardRef>,
) -> Seq<Transition> {
    board_events(prev.board, board) + cell_events(prev.cell, cell)
}

/// The previously-reported hovered cell and hovered board.
pub struct HoverState {
    pub cell: Option<CellRef>,
    pub board: Option<BoardRef>,
}

impl HoverState {
    /// A hovered cell always implies its owning board is hovered.
    pub open spec fn wf(self) -> bool {
        self.cell matches Some(c) ==> self.board matches Some(b) && b.board_id == c.board_id
    }

    /// Before the first tick nothing is hovered.
    pub fn new() -> (s: HoverState)
        ensures
            s.cell is None,
            s.board is None,
            s.wf(),
    {
        HoverState { cell: None, board: None }
    }

    /// One tick of the tracker: emits the transitions due for the new
    /// `(cell, board)` pair and overwrites the stored state with it.
    pub fn update(
        &mut self,
        cell: Option<CellRef>,
        board: Option<BoardRef>,
    ) -> (evs: Vec<Transition>)
        requires
            cell matches Some(c) ==> board matches Some(b) && b.board_id == c.board_id,
        ensures
            final(self).cell == cell,
            final(self).board == board,
            final(self).wf(),
            evs@ == hover_events(*old(self), cell, board),
    {
        let mut evs: Vec<Transition> = Vec::new();
        let (board_entered, board_exited) = diff_level(&self.board, &board);
        match board_entered {
            Some(b) => evs.push(Transition::BoardEntered(b)),
            None => {},
        }
        match board_exited {
            Some(b) => evs.push(Transition::BoardExited(b)),
            None => {},
        }
        let (cell_entered, cell_exited) = diff_level(&self.cell, &cell);
        match cell_entered {
            Some(c) => evs.push(Transition::CellEntered(c)),
            None => {},
        }
        match cell_exited {
            Some(c) => evs.push(Transition::CellExited(c)),
            None => {},
        }
        self.cell = cell;
        self.board = board;
        proof {
            assert(evs@ =~= hover_events(*old(self), cell, board));
        }
        evs
    }
}

/// Feeding the tracker the pair it already holds emits nothing: the diff
/// is idempotent across ticks that see the same pointer position.
pub proof fn lemma_hover_idempotent(
    prev: HoverState,
    cell: Option<CellRef>,
    board: Option<BoardRef>,
)
    requires
        prev.cell == cell,
        prev.board == board,
    ensures
        hover_events(prev, cell, board) == Seq::<Transition>::empty(),
{
    assert(hover_events(prev, cell, board) =~= Seq::<Transition>::empty());
}

/// Moving straight from one hovered cell to another emits the enter for
/// the new cell strictly before the exit for the old one.
pub proof fn lemma_cell_enter_before_exit(a: CellRef, b: CellRef)
    requires
        a != b,
    ensures
        cell_events(Some(a), Some(b)) == seq![
            Transition::CellEntered(b),
            Transition::CellExited(a),
        ],
{
    assert(cell_events(Some(a), Some(b)) =~= seq![
        Transition::CellEntered(b),
        Transition::CellExited(a),
    ]);
}

/// Crossing a board boundary likewise emits enter before exit.
pub proof fn lemma_board_enter_before_exit(a: BoardRef, b: BoardRef)
    requires
        a != b,
    ensures
        board_events(Some(a), Some(b)) == seq![
            Transition::BoardEntered(b),
            Transition::BoardExited(a),
        ],
{
    assert(board_events(Some(a), Some(b)) =~= seq![
        Transition::BoardEntered(b),
        Transition::BoardExited(a),
    ]);
}

} // verus!
