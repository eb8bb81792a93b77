//! The static hierarchy of interactive regions: cells nested in boards,
//! plus the grid configuration, validated once at construction.

use vstd::prelude::*;

use crate::geom::Rect;

verus! {

/// Identity of one playable cell: local coordinates within its board,
/// plus the id of the owning board.
#[derive(Clone, Copy, Debug, PartialEq, Eq, Structural)]
pub struct CellRef {
    pub x: u8,
    pub y: u8,
    pub board_id: u64,
}

/// Identity of one board.
#[derive(Clone, Copy, Debug, PartialEq, Eq, Structural)]
pub struct BoardRef {
    pub board_id: u64,
}

/// One interactive region: a cell or a board, with its hit bounds.
#[derive(Clone, Copy, Debug, PartialEq, Eq, Structural)]
pub enum Region {
    Cell(CellRef, Rect),
    Board(BoardRef, Rect),
}

/// The fixed extents of the outer grid and of each board.
#[derive(Clone, Copy, Debug, PartialEq, Eq, Structural)]
pub struct GridConfig {
    /// Boards per grid row (columns of the outer grid).
    pub games_per_row: u32,
    /// Rows of the outer grid.
    pub game_rows: u32,
    /// Each board holds `n x n` cells.
    pub n: u8,
}

impl GridConfig {
    pub open spec fn wf(self) -> bool {
        self.games_per_row >= 1 && self.game_rows >= 1 && self.n >= 1
    }

    /// How many boards the grid holds.
    pub open spec fn board_count(self) -> int {
        self.games_per_row * self.game_rows
    }

    /// The structural midpoint index, where the active register starts.
    pub open spec fn spec_midpoint(self) -> int {
        self.board_count() / 2
    }

    pub fn board_count_exec(&self) -> (c: u64)
        ensures
            c == self.board_count(),
    {
        proof {
            assert((self.games_per_row as int) * (self.game_rows as int) <= u32::MAX * u32::MAX)
                by (nonlinear_arith)
                requires
                    self.games_per_row <= u32::MAX,
                    self.game_rows <= u32::MAX,
            ;
        }
        (self.games_per_row as u64) * (self.game_rows as u64)
    }

    pub fn midpoint(&self) -> (m: u64)
        ensures
            m == self.spec_midpoint(),
    {
        self.board_count_exec() / 2
    }
}

impl Region {
    /// The bounds of the region, whichever variant it is.
    pub open spec fn bounds(self) -> Rect {
        match self {
            Region::Cell(_, r) => r,
            Region::Board(_, r) => r,
        }
    }

    /// The id of the board the region belongs to: a cell belongs to its
    /// owning board, a board to itself.
    pub open spec fn region_board_id(self) -> u64 {
        match self {
            Region::Cell(c, _) => c.board_id,
            Region::Board(b, _) => b.board_id,
        }
    }
}

/// Whether some region of `regions` is the board region with id `id`.
pub open spec fn has_board_region(regions: Seq<Region>, id: u64) -> bool {
    exists|i: int| 0 <= i < regions.len() && ((#[trigger] regions[i]) matches Region::Board(b, _) && b.board_id == id)
}

/// Every region of a well-formed registry satisfies this with its grid:
/// ids stay below the board count, cell coordinates stay inside a board,
/// and a cell's owning board has a region of its own.
pub open spec fn region_wf(regions: Seq<Region>, i: int, config: GridConfig) -> bool {
    match regions[i] {
        Region::Cell(c, _) => {
            &&& c.x < config.n
            &&& c.y < config.n
            &&& c.board_id < config.board_count()
            &&& has_board_region(regions, c.board_id)
        },
        Region::Board(b, _) => b.board_id < config.board_count(),
    }
}

pub open spec fn regions_wf(regions: Seq<Region>, config: GridConfig) -> bool {
    forall|i: int| 0 <= i < regions.len() ==> region_wf(regions, i, config)
}

/// A configuration or integrity fault found while building the registry.
/// Both indicate a bug in the collaborator that laid the grid out, so a
/// caller must abort loudly rather than degrade.
#[derive(Clone, Copy, Debug, PartialEq, Eq, Structural)]
pub enum RegistryError {
    /// The grid has no columns, no rows, or boards of no cells.
    EmptyGrid,
    /// A region names a board id at or above the board count.
    BoardIdOutOfRange(u64),
    /// A cell's local coordinates lie outside its board.
    CellOutOfBoard(CellRef),
    /// A cell's owning board has no region in the registry.
    MissingBoardRegion(u64),
}

/// The immutable set of interactive regions, read-only after construction.
pub struct RegionRegistry {
    pub regions: Vec<Region>,
    pub config: GridConfig,
}

impl RegionRegistry {
    pub open spec fn wf(self) -> bool {
        self.config.wf() && regions_wf(self.regions@, self.config)
    }

    /// Validates the layout collaborator's output and takes ownership of it.
    ///
    /// Succeeds exactly when the grid extents are positive and every region
    /// is internally consistent; each error names the violation found.
    pub fn new(regions: Vec<Region>, config: GridConfig) -> (r: Result<RegionRegistry, RegistryError>)
        ensures
            r matches Ok(reg) ==> reg.wf() && reg.regions == regions && reg.config == config,
            r is Ok <==> config.wf() && regions_wf(regions@, config),
            r == Err::<RegionRegistry, RegistryError>(RegistryError::EmptyGrid) <==> !config.wf(),
            r matches Err(e) ==> match e {
                RegistryError::EmptyGrid => !config.wf(),
                RegistryError::BoardIdOutOfRange(id) => exists|i: int|
                    0 <= i < regions@.len() && #[trigger] regions@[i].region_board_id() == id
                        && id >= config.board_count(),
                RegistryError::CellOutOfBoard(c) => exists|i: int|
                    0 <= i < regions@.len() && ((#[trigger] regions@[i]) matches Region::Cell(cc, _)
                        && cc == c && (c.x >= config.n || c.y >= config.n)),
                RegistryError::MissingBoardRegion(id) => (exists|i: int|
                    0 <= i < regions@.len() && ((#[trigger] regions@[i]) matches Region::Cell(c, _)
                        && c.board_id == id)) && !has_board_region(regions@, id),
            },
    {
        if config.games_per_row < 1 || config.game_rows < 1 || config.n < 1 {
            return Err(RegistryError::EmptyGrid);
        }
        let board_count = config.board_count_exec();
        let mut i: usize = 0;
        while i < regions.len()
            invariant
                0 <= i <= regions.len(),
                config.wf(),
                board_count == config.board_count(),
                forall|k: int| 0 <= k < i ==> region_wf(regions@, k, config),
            decreases regions.len() - i,
        {
            match regions[i] {
                Region::Cell(c, _) => {
                    if c.board_id >= board_count {
                        proof {
                            assert(regions@[i as int].region_board_id() == c.board_id);
                            assert(!region_wf(regions@, i as int, config));
                        }
                        return Err(RegistryError::BoardIdOutOfRange(c.board_id));
                    }
                    if c.x >= config.n || c.y >= config.n {
                        proof {
                            assert(!region_wf(regions@, i as int, config));
                        }
                        return Err(RegistryError::CellOutOfBoard(c));
                    }
                    if !find_board_region(&regions, c.board_id) {
                        proof {
                            assert(!region_wf(regions@, i as int, config));
                        }
                        return Err(RegistryError::MissingBoardRegion(c.board_id));
                    }
                },
                Region::Board(b, _) => {
                    if b.board_id >= board_count {
                        proof {
                            assert(regions@[i as int].region_board_id() == b.board_id);
                            assert(!region_wf(regions@, i as int, config));
                        }
                        return Err(RegistryError::BoardIdOutOfRange(b.board_id));
                    }
                },
            }
            i = i + 1;
        }
        Ok(RegionRegistry { regions, config })
    }

    /// How many boards the registry's grid holds.
    pub fn board_count(&self) -> (c: u64)
        ensures
            c == self.config.board_count(),
    {
        self.config.board_count_exec()
    }
}

/// Whether the registry holds a board region with the given id.
fn find_board_region(regions: &Vec<Region>, id: u64) -> (found: bool)
    ensures
        found == has_board_region(regions@, id),
{
    let mut j: usize = 0;
    while j < regions.len()
        invariant
            0 <= j <= regions.len(),
            forall|k: int| 0 <= k < j ==> !((#[trigger] regions@[k]) matches Region::Board(b, _) && b.board_id == id),
        decreases regions.len() - j,
    {
        match regions[j] {
            Region::Board(b, _) => {
                if b.board_id == id {
                    return true;
                }
            },
            Region::Cell(_, _) => {},
        }
        j = j + 1;
    }
    false
}

} // verus!
