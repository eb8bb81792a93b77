//! Spatial hit-testing of the pointer against the region hierarchy.
//!
//! A cell match takes precedence over any board match, and implies its
//! owning board is hovered even where no board region matched on its own.
//! Among cells the first match in registry order wins; among board-only
//! matches the last one scanned wins, as later regions overwrite earlier
//! candidates.

use vstd::prelude::*;

use crate::geom::Point;
use crate::region::{BoardRef, CellRef, Region, RegionRegistry};

verus! {

/// The first cell region in `regions` order whose bounds contain `p`.
pub open spec fn first_cell_hit(regions: Seq<Region>, p: Point) -> Option<CellRef>
    decreases regions.len(),
{
    if regions.len() == 0 {
        None
    } else {
        match regions[0] {
            Region::Cell(c, r) => if r.spec_contains(p) {
                Some(c)
            } else {
                first_cell_hit(regions.drop_first(), p)
            },
            Region::Board(_, _) => first_cell_hit(regions.drop_first(), p),
        }
    }
}

/// The last board region in `regions` order whose bounds contain `p`.
pub open spec fn last_board_hit(regions: Seq<Region>, p: Point) -> Option<BoardRef>
    decreases regions.len(),
{
    if regions.len() == 0 {
        None
    } else {
        match regions.last() {
            Region::Board(b, r) => if r.spec_contains(p) {
                Some(b)
            } else {
                last_board_hit(regions.drop_last(), p)
            },
            Region::Cell(_, _) => last_board_hit(regions.drop_last(), p),
        }
    }
}

/// The hovered board: the board implied by the winning cell where a cell
/// matched, otherwise the direct board match if any.
pub open spec fn board_hit(regions: Seq<Region>, p: Point) -> Option<BoardRef> {
    match first_cell_hit(regions, p) {
        Some(c) => Some(BoardRef { board_id: c.board_id }),
        None => last_board_hit(regions, p),
    }
}

/// A winning cell is one of the regions, with bounds containing the point.
pub proof fn lemma_first_cell_hit_member(regions: Seq<Region>, p: Point)
    requires
        first_cell_hit(regions, p) matches Some(c),
    ensures
        exists|i: int| 0 <= i < regions.len()
            && ((#[trigger] regions[i]) matches Region::Cell(c, r)
                && Some(c) == first_cell_hit(regions, p) && r.spec_contains(p)),
    decreases regions.len(),
{
    let rest = regions.drop_first();
    let direct = regions[0] matches Region::Cell(c, r) && r.spec_contains(p);
    if direct {
        assert(regions[0] matches Region::Cell(c, r)
            && Some(c) == first_cell_hit(regions, p) && r.spec_contains(p));
    } else {
        lemma_first_cell_hit_member(rest, p);
        let j = choose|j: int| 0 <= j < rest.len()
            && ((#[trigger] rest[j]) matches Region::Cell(c, r)
                && Some(c) == first_cell_hit(rest, p) && r.spec_contains(p));
        assert(regions[j + 1] == rest[j]);
    }
}

/// A winning board without a cell match is likewise one of the regions.
pub proof fn lemma_last_board_hit_member(regions: Seq<Region>, p: Point)
    requires
        last_board_hit(regions, p) matches Some(b),
    ensures
        exists|i: int| 0 <= i < regions.len()
            && ((#[trigger] regions[i]) matches Region::Board(b, r)
                && Some(b) == last_board_hit(regions, p) && r.spec_contains(p)),
    decreases regions.len(),
{
    let prefix = regions.drop_last();
    let direct = regions.last() matches Region::Board(b, r) && r.spec_contains(p);
    if direct {
        assert(regions[regions.len() - 1] matches Region::Board(b, r)
            && Some(b) == last_board_hit(regions, p) && r.spec_contains(p));
    } else {
        lemma_last_board_hit_member(prefix, p);
        let j = choose|j: int| 0 <= j < prefix.len()
            && ((#[trigger] prefix[j]) matches Region::Board(b, r)
                && Some(b) == last_board_hit(prefix, p) && r.spec_contains(p));
        assert(regions[j] == prefix[j]);
    }
}

/// No cell region was hit: none of the cell bounds contain the point.
pub proof fn lemma_first_cell_hit_complete(regions: Seq<Region>, p: Point)
    requires
        first_cell_hit(regions, p) is None,
    ensures
        forall|i: int| 0 <= i < regions.len()
            ==> !((#[trigger] regions[i]) matches Region::Cell(c, r) && r.spec_contains(p)),
    decreases regions.len(),
{
    if regions.len() > 0 {
        lemma_first_cell_hit_complete(regions.drop_first(), p);
        assert forall|i: int| 1 <= i < regions.len()
            implies !((#[trigger] regions[i]) matches Region::Cell(c, r) && r.spec_contains(p)) by {
            assert(regions.drop_first()[i - 1] == regions[i]);
        }
    }
}

/// No board region was hit either: none of the board bounds contain the
/// point.
pub proof fn lemma_last_board_hit_complete(regions: Seq<Region>, p: Point)
    requires
        last_board_hit(regions, p) is None,
    ensures
        forall|i: int| 0 <= i < regions.len()
            ==> !((#[trigger] regions[i]) matches Region::Board(b, r) && r.spec_contains(p)),
    decreases regions.len(),
{
    if regions.len() > 0 {
        lemma_last_board_hit_complete(regions.drop_last(), p);
        assert forall|i: int| 0 <= i < regions.len() - 1
            implies !((#[trigger] regions[i]) matches Region::Board(b, r) && r.spec_contains(p)) by {
            assert(regions.drop_last()[i] == regions[i]);
        }
    }
}

/// Finds the most specific region under the pointer: the hovered cell, if
/// any, and the hovered board. A reported cell always comes with its
/// owning board; nothing is reported only where no bounds contain the
/// point at that level.
pub fn hit_test(registry: &RegionRegistry, p: &Point) -> (r: (Option<CellRef>, Option<BoardRef>))
    ensures
        r.0 == first_cell_hit(registry.regions@, *p),
        r.1 == board_hit(registry.regions@, *p),
        r.0 matches Some(c) ==> r.1 matches Some(b) && b.board_id == c.board_id,
        r.0 matches Some(c) ==> exists|i: int| 0 <= i < registry.regions@.len()
            && ((#[trigger] registry.regions@[i]) matches Region::Cell(cc, rect)
                && cc == c && rect.spec_contains(*p)),
        r.0 is None ==> (r.1 matches Some(b) ==> exists|i: int| 0 <= i < registry.regions@.len()
            && ((#[trigger] registry.regions@[i]) matches Region::Board(bb, rect)
                && bb == b && rect.spec_contains(*p))),
        r.0 is None ==> forall|i: int| 0 <= i < registry.regions@.len()
            ==> !((#[trigger] registry.regions@[i]) matches Region::Cell(c, rect)
                && rect.spec_contains(*p)),
        r.1 is None ==> forall|i: int| 0 <= i < registry.regions@.len()
            ==> !((#[trigger] registry.regions@[i]).bounds().spec_contains(*p)),
{
    let ghost s = registry.regions@;
    let mut board: Option<BoardRef> = None;
    let mut i: usize = 0;
    proof {
        assert(s.skip(0) =~= s);
        assert(s.take(0) =~= Seq::<Region>::empty());
    }
    while i < registry.regions.len()
        invariant
            0 <= i <= s.len(),
            s == registry.regions@,
            first_cell_hit(s, *p) == first_cell_hit(s.skip(i as int), *p),
            board == last_board_hit(s.take(i as int), *p),
        decreases registry.regions.len() - i,
    {
        let ghost pre = s.skip(i as int);
        match registry.regions[i] {
            Region::Cell(c, rect) => {
                if rect.contains(p) {
                    proof {
                        assert(pre[0] == s[i as int]);
                        assert(pre.len() > 0);
                        assert(first_cell_hit(pre, *p) == Some(c));
                        lemma_first_cell_hit_member(s, *p);
                    }
                    return (Some(c), Some(BoardRef { board_id: c.board_id }));
                }
                proof {
                    assert(pre[0] == s[i as int]);
                    assert(pre.drop_first() =~= s.skip(i + 1));
                    assert(s.take(i + 1).drop_last() =~= s.take(i as int));
                    assert(s.take(i + 1).last() == s[i as int]);
                }
            },
            Region::Board(b, rect) => {
                proof {
                    assert(pre[0] == s[i as int]);
                    assert(pre.drop_first() =~= s.skip(i + 1));
                    assert(s.take(i + 1).drop_last() =~= s.take(i as int));
                    assert(s.take(i + 1).last() == s[i as int]);
                }
                if rect.contains(p) {
                    board = Some(b);
                }
            },
        }
        i = i + 1;
    }
    proof {
        assert(s.skip(s.len() as int) =~= Seq::<Region>::empty());
        assert(s.take(s.len() as int) =~= s);
        lemma_first_cell_hit_complete(s, *p);
        if board is Some {
            lemma_last_board_hit_member(s, *p);
        }
        if board is None {
            lemma_last_board_hit_complete(s, *p);
            assert forall|k: int| 0 <= k < s.len()
                implies !((#[trigger] s[k]).bounds().spec_contains(*p)) by {
                match s[k] {
                    Region::Cell(c, r) => {
                        assert(!(s[k] matches Region::Cell(c, r) && r.spec_contains(*p)));
                    },
                    Region::Board(b, r) => {
                        assert(!(s[k] matches Region::Board(b, r) && r.spec_contains(*p)));
                    },
                }
            }
        }
    }
    (None, board)
}

} // verus!
