use vstd::prelude::*;
use crate::procedural::cell::{copy_positions, SPCell};
use crate::procedural::direction::{CellLocation, Direction};
use crate::procedural::error::{ConstructionError, PossibilityError};

verus! {

/// The model of a grid: the domain of every cell, indexed `[y][x]`.
pub type Domains<T> = Seq<Seq<Seq<T>>>;

/// Whether `gv` is a rectangle of domains with at least one row and column.
pub open spec fn is_grid<T>(gv: Domains<T>) -> bool {
    &&& gv.len() > 0
    &&& gv[0].len() > 0
    &&& forall|y: int| 0 <= y < gv.len() ==> (#[trigger] gv[y]).len() == gv[0].len()
}

/// Whether row `y`, column `x` lies inside `gv`.
pub open spec fn in_grid<T>(gv: Domains<T>, y: int, x: int) -> bool {
    0 <= y < gv.len() && 0 <= x < gv[0].len()
}

/// Every cell has exactly one value left.
pub open spec fn resolved<T>(gv: Domains<T>) -> bool {
    forall|y: int, x: int| in_grid(gv, y, x) ==> (#[trigger] gv[y][x]).len() == 1
}

/// Some cell has no value left.
pub open spec fn contradicted<T>(gv: Domains<T>) -> bool {
    exists|y: int, x: int| in_grid(gv, y, x) && (#[trigger] gv[y][x]).len() == 0
}

/// `gv` with the domain at row `y`, column `x` replaced.
pub open spec fn with_domain<T>(gv: Domains<T>, y: int, x: int, domain: Seq<T>) -> Domains<T> {
    gv.update(y, gv[y].update(x, domain))
}

/// The one value of each cell of a resolved grid, indexed `[y][x]`.
pub open spec fn rendered<T>(gv: Domains<T>) -> Seq<Seq<T>> {
    Seq::new(gv.len(), |y: int| Seq::new(gv[y].len(), |x: int| gv[y][x][0]))
}

/// The rows of a nested vector as sequences.
pub open spec fn rows_of<T>(m: Vec<Vec<T>>) -> Seq<Seq<T>> {
    Seq::new(m@.len(), |y: int| m@[y]@)
}

/// Where one step from row `y`, column `x` in direction `dir` leads, if that
/// is inside `gv`. There is no wraparound.
pub open spec fn neighbor_of<T>(gv: Domains<T>, y: int, x: int, dir: Direction) -> Option<
    (int, int),
> {
    let ny = y + dir.spec_unit().1;
    let nx = x + dir.spec_unit().0;
    if in_grid(gv, ny, nx) {
        Some((ny, nx))
    } else {
        None
    }
}

/// A rectangular grid of cells, each holding the values it may still take.
pub struct SuperPositionGrid<T> {
    rows: Vec<Vec<SPCell<T>>>,
}

impl<T> View for SuperPositionGrid<T> {
    type V = Domains<T>;

    closed spec fn view(&self) -> Domains<T> {
        Seq::new(
            self.rows@.len(),
            |y: int| Seq::new(self.rows@[y]@.len(), |x: int| self.rows@[y]@[x].positions@),
        )
    }
}

impl<T: Copy> SuperPositionGrid<T> {
    /// The grid is a non-empty rectangle and every cell knows its place.
    pub closed spec fn wf(&self) -> bool {
        &&& self.rows@.len() > 0
        &&& self.rows@[0]@.len() > 0
        &&& forall|y: int|
            0 <= y < self.rows@.len() ==> (#[trigger] self.rows@[y])@.len() == self.rows@[0]@.len()
        &&& forall|y: int, x: int|
            0 <= y < self.rows@.len() && 0 <= x < self.rows@[0]@.len() ==> {
                &&& (#[trigger] self.rows@[y]@[x]).location.x == x
                &&& self.rows@[y]@[x].location.y == y
            }
    }

    /// The cell stored at row `y`, column `x`.
    pub closed spec fn cell_at(&self, y: int, x: int) -> SPCell<T> {
        self.rows@[y]@[x]
    }

    /// What `wf` means in terms of the grid's model.
    pub proof fn lemma_wf(&self)
        requires
            self.wf(),
        ensures
            is_grid(self@),
            forall|y: int, x: int|
                in_grid(self@, y, x) ==> {
                    &&& (#[trigger] self.cell_at(y, x)).positions@ == self@[y][x]
                    &&& self.cell_at(y, x).location.x == x
                    &&& self.cell_at(y, x).location.y == y
                },
    {
    }

    /// A grid of `height` rows and `width` columns in which every cell may
    /// take any of `initial`.
    pub fn new(height: usize, width: usize, initial: &Vec<T>) -> (grid: Self)
        requires
            height > 0,
            width > 0,
            initial@.len() > 0,
        ensures
            grid.wf(),
            grid@ == Seq::new(height as nat, |y: int| Seq::new(width as nat, |x: int| initial@)),
    {
        let mut rows: Vec<Vec<SPCell<T>>> = Vec::new();
        let mut y: usize = 0;
        while y < height
            invariant
                y <= height,
                width > 0,
                rows@.len() == y,
                forall|j: int| 0 <= j < y ==> (#[trigger] rows@[j])@.len() == width,
                forall|j: int, i: int|
                    0 <= j < y && 0 <= i < width ==> {
                        &&& (#[trigger] rows@[j]@[i]).positions@ == initial@
                        &&& rows@[j]@[i].location.x == i
                        &&& rows@[j]@[i].location.y == j
                    },
            decreases height - y,
        {
            let mut row: Vec<SPCell<T>> = Vec::new();
            let mut x: usize = 0;
            while x < width
                invariant
                    x <= width,
                    row@.len() == x,
                    forall|i: int|
                        0 <= i < x ==> {
                            &&& (#[trigger] row@[i]).positions@ == initial@
                            &&& row@[i].location.x == i
                            &&& row@[i].location.y == y
                        },
                decreases width - x,
            {
                row.push(
                    SPCell { positions: copy_positions(initial), location: CellLocation { x, y } },
                );
                x += 1;
            }
            rows.push(row);
            y += 1;
        }
        let grid = SuperPositionGrid { rows };
        assert(grid@ =~~= Seq::new(
            height as nat,
            |y: int| Seq::new(width as nat, |x: int| initial@),
        ));
        grid
    }

    /// A grid of `height` rows and `width` columns in which every cell may
    /// take any of `initial`, or the reason why there is no such grid.
    pub fn try_new(height: usize, width: usize, initial: &Vec<T>) -> (built: Result<
        Self,
        ConstructionError,
    >)
        ensures
            height == 0 ==> built == Err::<Self, ConstructionError>(ConstructionError::NoRows),
            height > 0 && width == 0 ==> built == Err::<Self, ConstructionError>(
                ConstructionError::NoColumns,
            ),
            height > 0 && width > 0 && initial@.len() == 0 ==> built == Err::<
                Self,
                ConstructionError,
            >(ConstructionError::NoCandidates),
            height > 0 && width > 0 && initial@.len() > 0 ==> (built matches Ok(grid) && grid.wf()
                && grid@ == Seq::new(
                height as nat,
                |y: int| Seq::new(width as nat, |x: int| initial@),
            )),
    {
        if height == 0 {
            Err(ConstructionError::NoRows)
        } else if width == 0 {
            Err(ConstructionError::NoColumns)
        } else if initial.len() == 0 {
            Err(ConstructionError::NoCandidates)
        } else {
            Ok(SuperPositionGrid::new(height, width, initial))
        }
    }

    /// The grid made of `rows`, which must form a rectangle of cells that
    /// know their place.
    pub(crate) fn from_rows(rows: Vec<Vec<SPCell<T>>>) -> (grid: Self)
        requires
            rows@.len() > 0,
            rows@[0]@.len() > 0,
            forall|y: int| 0 <= y < rows@.len() ==> (#[trigger] rows@[y])@.len() == rows@[0]@.len(),
            forall|y: int, x: int|
                0 <= y < rows@.len() && 0 <= x < rows@[0]@.len() ==> {
                    &&& (#[trigger] rows@[y]@[x]).location.x == x
                    &&& rows@[y]@[x].location.y == y
                },
        ensures
            grid.wf(),
            grid@.len() == rows@.len(),
            grid@[0].len() == rows@[0]@.len(),
            forall|y: int, x: int|
                0 <= y < rows@.len() && 0 <= x < rows@[0]@.len() ==> #[trigger] grid.cell_at(y, x)
                    == rows@[y]@[x],
    {
        SuperPositionGrid { rows }
    }

    /// The cell at row `y`, column `x`, which must be inside the grid.
    pub(crate) fn at(&self, y: usize, x: usize) -> (cell: &SPCell<T>)
        requires
            self.wf(),
            in_grid(self@, y as int, x as int),
        ensures
            *cell == self.cell_at(y as int, x as int),
            cell.positions@ == self@[y as int][x as int],
            cell.location.x == x,
            cell.location.y == y,
    {
        &self.rows[y][x]
    }

    /// The number of rows.
    pub fn height(&self) -> (h: usize)
        requires
            self.wf(),
        ensures
            h == self@.len(),
            h > 0,
    {
        self.rows.len()
    }

    /// The number of columns.
    pub fn width(&self) -> (w: usize)
        requires
            self.wf(),
        ensures
            w == self@[0].len(),
            w > 0,
    {
        self.rows[0].len()
    }

    /// The cell at `location`, if that is inside the grid.
    pub fn cell(&self, location: CellLocation) -> (found: Option<&SPCell<T>>)
        requires
            self.wf(),
        ensures
            in_grid(self@, location.y as int, location.x as int) ==> found == Some(
                &self.cell_at(location.y as int, location.x as int),
            ),
            !in_grid(self@, location.y as int, location.x as int) ==> found is None,
    {
        if location.y < self.rows.len() && location.x < self.rows[0].len() {
            Some(&self.rows[location.y][location.x])
        } else {
            None
        }
    }

    /// The cell one step from `cell` in direction `dir`, or `None` where
    /// that step leaves the grid.
    pub fn neighbor(&self, cell: &SPCell<T>, dir: Direction) -> (found: Option<&SPCell<T>>)
        requires
            self.wf(),
        ensures
            match neighbor_of(self@, cell.location.y as int, cell.location.x as int, dir) {
                Some((ny, nx)) => found == Some(&self.cell_at(ny, nx)),
                None => found is None,
            },
    {
        let x = cell.location.x;
        let y = cell.location.y;
        let height = self.rows.len();
        let width = self.rows[0].len();
        match dir {
            Direction::North => {
                if x < width && y < height - 1 {
                    Some(&self.rows[y + 1][x])
                } else {
                    None
                }
            },
            Direction::South => {
                if x < width && 1 <= y && y <= height {
                    Some(&self.rows[y - 1][x])
                } else {
                    None
                }
            },
            Direction::East => {
                if y < height && x < width - 1 {
                    Some(&self.rows[y][x + 1])
                } else {
                    None
                }
            },
            Direction::West => {
                if y < height && 1 <= x && x <= width {
                    Some(&self.rows[y][x - 1])
                } else {
                    None
                }
            },
        }
    }

    /// Forces the domain of the cell at `location`, to seed a known feature
    /// before solving. A location outside the grid changes nothing.
    pub fn override_positions(&mut self, location: CellLocation, positions: Vec<T>)
        requires
            old(self).wf(),
        ensures
            final(self).wf(),
            in_grid(old(self)@, location.y as int, location.x as int) ==> final(self)@
                == with_domain(old(self)@, location.y as int, location.x as int, positions@),
            !in_grid(old(self)@, location.y as int, location.x as int) ==> final(self)@ == old(
                self,
            )@,
    {
        if location.y < self.rows.len() && location.x < self.rows[0].len() {
            self.rows[location.y][location.x].positions = positions;
            assert(self@ =~~= with_domain(
                old(self)@,
                location.y as int,
                location.x as int,
                positions@,
            ));
        }
    }

    /// The finished layout: the one value of every cell, indexed `[y][x]`.
    /// Fails unless every cell has exactly one value left.
    pub fn render(&self) -> (out: Result<Vec<Vec<T>>, PossibilityError>)
        requires
            self.wf(),
        ensures
            out is Ok <==> resolved(self@),
            out matches Ok(m) ==> rows_of(m) == rendered(self@),
    {
        let mut out: Vec<Vec<T>> = Vec::new();
        let mut y: usize = 0;
        while y < self.rows.len()
            invariant
                self.wf(),
                y <= self.rows@.len(),
                out@.len() == y,
                forall|j: int, i: int|
                    0 <= j < y && 0 <= i < self.rows@[0]@.len() ==> (
                    #[trigger] self.rows@[j]@[i]).positions@.len() == 1,
                forall|j: int| 0 <= j < y ==> (#[trigger] out@[j])@ == rendered(self@)[j],
            decreases self.rows@.len() - y,
        {
            let mut row: Vec<T> = Vec::new();
            let mut x: usize = 0;
            while x < self.rows[y].len()
                invariant
                    self.wf(),
                    y < self.rows@.len(),
                    x <= self.rows@[y as int]@.len(),
                    row@.len() == x,
                    forall|i: int|
                        0 <= i < x ==> (#[trigger] self.rows@[y as int]@[i]).positions@.len() == 1,
                    forall|i: int|
                        0 <= i < x ==> #[trigger] row@[i] == rendered(self@)[y as int][i],
                decreases self.rows@[y as int]@.len() - x,
            {
                if self.rows[y][x].positions.len() != 1 {
                    assert(in_grid(self@, y as int, x as int));
                    assert(self@[y as int][x as int].len() != 1);
                    return Err(PossibilityError);
                }
                row.push(self.rows[y][x].positions[0]);
                x += 1;
            }
            assert(row@ =~= rendered(self@)[y as int]);
            out.push(row);
            y += 1;
        }
        assert(rows_of(out) =~= rendered(self@));
        assert forall|y: int, x: int| in_grid(self@, y, x) implies (#[trigger] self@[y][x]).len()
            == 1 by {
            assert(self.rows@[y]@[x].positions@.len() == 1);
        }
        Ok(out)
    }

    /// A copy of every cell as it stands, resolved or not, indexed `[y][x]`.
    pub fn peek_render(&self) -> (out: Vec<Vec<SPCell<T>>>)
        requires
            self.wf(),
        ensures
            out@.len() == self@.len(),
            forall|y: int| 0 <= y < out@.len() ==> (#[trigger] out@[y])@.len() == self@[y].len(),
            forall|y: int, x: int|
                in_grid(self@, y, x) ==> {
                    &&& (#[trigger] out@[y]@[x]).positions@ == self@[y][x]
                    &&& out@[y]@[x].location.x == x
                    &&& out@[y]@[x].location.y == y
                },
    {
        let mut out: Vec<Vec<SPCell<T>>> = Vec::new();
        let mut y: usize = 0;
        while y < self.rows.len()
            invariant
                self.wf(),
                y <= self.rows@.len(),
                out@.len() == y,
                forall|j: int| 0 <= j < y ==> (#[trigger] out@[j])@.len() == self.rows@[0]@.len(),
                forall|j: int, i: int|
                    0 <= j < y && 0 <= i < self.rows@[0]@.len() ==> {
                        &&& (#[trigger] out@[j]@[i]).positions@ == self.rows@[j]@[i].positions@
                        &&& out@[j]@[i].location == self.rows@[j]@[i].location
                    },
            decreases self.rows@.len() - y,
        {
            let mut row: Vec<SPCell<T>> = Vec::new();
            let mut x: usize = 0;
            while x < self.rows[y].len()
                invariant
                    self.wf(),
                    y < self.rows@.len(),
                    x <= self.rows@[y as int]@.len(),
                    row@.len() == x,
                    forall|i: int|
                        0 <= i < x ==> {
                            &&& (#[trigger] row@[i]).positions@
                                == self.rows@[y as int]@[i].positions@
                            &&& row@[i].location == self.rows@[y as int]@[i].location
                        },
                decreases self.rows@[y as int]@.len() - x,
            {
                row.push(self.rows[y][x].duplicate());
                x += 1;
            }
            out.push(row);
            y += 1;
        }
        out
    }
}

} // verus!
