//! Dense 2-D grids of fixed-point scalars, backed by `ndarray`.
//!
//! The storage is an `ndarray::Array2<i64>` held behind a small trusted
//! surface: two names for what the array holds (`grid_cells`, row-major, and
//! `grid_shape`) and one wrapper per array operation the library uses. The
//! `Grid` type and everything above it is verified against those contracts.

use vstd::prelude::*;

verus! {

/// Owns one `ndarray::Array2<i64>`. Verus sees the array only through
/// `grid_cells` / `grid_shape` and the wrappers below.
#[verifier::external_body]
pub struct GridStore {
    inner: ndarray::Array2<i64>,
}

/// The cells of the array in row-major order (the layout `Array2::zeros`
/// creates and element writes keep).
pub uninterp spec fn grid_cells(g: GridStore) -> Seq<i64>;

/// The shape of the array: (rows, columns) as passed to `Array2::zeros`.
pub uninterp spec fn grid_shape(g: GridStore) -> (nat, nat);

/// Largest cell count a grid may be created with.
pub const GRID_CELL_CAP: usize = 16777216;

/// Relies on ndarray::Array2::zeros: a (nx, ny) array of zeros in standard
/// (row-major) layout.
#[verifier::external_body]
fn store_zeros(nx: usize, ny: usize) -> (g: GridStore)
    requires
        1 <= nx,
        1 <= ny,
        nx * ny <= GRID_CELL_CAP,
    ensures
        grid_shape(g) == (nx as nat, ny as nat),
        grid_cells(g).len() == nx * ny,
        forall|k: int| 0 <= k < grid_cells(g).len() ==> grid_cells(g)[k] == 0i64,
{
    GridStore { inner: ndarray::Array2::zeros((nx, ny)) }
}

/// Relies on ndarray indexing (`Index` for `ArrayBase`): `a[[i, j]]` is the
/// element at row i, column j, which in standard layout is cell i*ncols + j.
#[verifier::external_body]
fn store_get(g: &GridStore, i: usize, j: usize) -> (v: i64)
    requires
        (i as nat) < grid_shape(*g).0,
        (j as nat) < grid_shape(*g).1,
    ensures
        v == grid_cells(*g)[i as int * grid_shape(*g).1 as int + j as int],
{
    g.inner[[i, j]]
}

/// Relies on ndarray indexing (`IndexMut` for `ArrayBase`): writing `a[[i, j]]`
/// replaces that element and nothing else.
#[verifier::external_body]
fn store_set(g: &mut GridStore, i: usize, j: usize, v: i64)
    requires
        (i as nat) < grid_shape(*old(g)).0,
        (j as nat) < grid_shape(*old(g)).1,
    ensures
        grid_shape(*final(g)) == grid_shape(*old(g)),
        grid_cells(*final(g)) == grid_cells(*old(g)).update(
            i as int * grid_shape(*old(g)).1 as int + j as int,
            v,
        ),
{
    g.inner[[i, j]] = v;
}

/// Relies on ndarray::ArrayBase::fill: every element is replaced by `v`.
#[verifier::external_body]
fn store_fill(g: &mut GridStore, v: i64)
    ensures
        grid_shape(*final(g)) == grid_shape(*old(g)),
        grid_cells(*final(g)).len() == grid_cells(*old(g)).len(),
        forall|k: int| 0 <= k < grid_cells(*final(g)).len() ==> grid_cells(*final(g))[k] == v,
{
    g.inner.fill(v);
}

/// Relies on Clone for ndarray::ArrayBase: the clone has the same shape and
/// elements.
#[verifier::external_body]
fn store_clone(g: &GridStore) -> (c: GridStore)
    ensures
        grid_shape(c) == grid_shape(*g),
        grid_cells(c) == grid_cells(*g),
{
    GridStore { inner: g.inner.clone() }
}

/// The mathematical content of a [`Grid`]: its extent and its cells in
/// row-major order.
pub struct GridView {
    pub nx: nat,
    pub ny: nat,
    pub cells: Seq<i64>,
}

impl GridView {
    /// The cell at row i, column j, as a mathematical integer.
    pub open spec fn at(self, i: int, j: int) -> int {
        self.cells[i * self.ny as int + j] as int
    }

    /// True when the view has shape (nx, ny) with every index in range.
    pub open spec fn wf(self) -> bool {
        &&& 1 <= self.nx <= GRID_CELL_CAP
        &&& 1 <= self.ny <= GRID_CELL_CAP
        &&& self.nx * self.ny <= GRID_CELL_CAP
        &&& self.cells.len() == self.nx * self.ny
    }
}

/// A dense nx-by-ny field of fixed-point scalars.
pub struct Grid {
    store: GridStore,
    nx: usize,
    ny: usize,
}

impl View for Grid {
    type V = GridView;

    closed spec fn view(&self) -> GridView {
        GridView { nx: self.nx as nat, ny: self.ny as nat, cells: grid_cells(self.store) }
    }
}

impl Grid {
    /// The stored array has the cached extent.
    pub closed spec fn store_ok(self) -> bool {
        grid_shape(self.store) == (self.nx as nat, self.ny as nat)
    }

    /// True when the cached extent agrees with the stored array.
    pub open spec fn wf(self) -> bool {
        &&& self.store_ok()
        &&& self@.wf()
    }

    /// A new grid of the given extent, all cells zero.
    pub fn new(nx: usize, ny: usize) -> (g: Grid)
        requires
            1 <= nx <= GRID_CELL_CAP,
            1 <= ny <= GRID_CELL_CAP,
            nx * ny <= GRID_CELL_CAP,
        ensures
            g.wf(),
            g@.nx == nx,
            g@.ny == ny,
            forall|k: int| 0 <= k < g@.cells.len() ==> g@.cells[k] == 0i64,
    {
        Grid { store: store_zeros(nx, ny), nx, ny }
    }

    /// The number of rows.
    pub fn nx(&self) -> (n: usize)
        ensures
            n == self@.nx,
    {
        self.nx
    }

    /// The number of columns.
    pub fn ny(&self) -> (n: usize)
        ensures
            n == self@.ny,
    {
        self.ny
    }

    /// The cell at row i, column j.
    pub fn get(&self, i: usize, j: usize) -> (v: i64)
        requires
            self.wf(),
            i < self@.nx,
            j < self@.ny,
        ensures
            v == self@.cells[i as int * self@.ny as int + j as int],
            v == self@.at(i as int, j as int),
    {
        proof {
            index_in_range(self@, i as int, j as int);
        }
        store_get(&self.store, i, j)
    }

    /// Replace the cell at row i, column j.
    pub fn set(&mut self, i: usize, j: usize, v: i64)
        requires
            old(self).wf(),
            i < old(self)@.nx,
            j < old(self)@.ny,
        ensures
            final(self).wf(),
            final(self)@.nx == old(self)@.nx,
            final(self)@.ny == old(self)@.ny,
            final(self)@.cells == old(self)@.cells.update(
                i as int * old(self)@.ny as int + j as int,
                v,
            ),
    {
        proof {
            index_in_range(self@, i as int, j as int);
        }
        store_set(&mut self.store, i, j, v);
    }

    /// Replace every cell by `v`.
    pub fn fill(&mut self, v: i64)
        requires
            old(self).wf(),
        ensures
            final(self).wf(),
            final(self)@.nx == old(self)@.nx,
            final(self)@.ny == old(self)@.ny,
            forall|k: int| 0 <= k < final(self)@.cells.len() ==> final(self)@.cells[k] == v,
    {
        store_fill(&mut self.store, v);
    }

    /// An independent copy with the same extent and cells.
    pub fn duplicate(&self) -> (g: Grid)
        requires
            self.wf(),
        ensures
            g.wf(),
            g@ == self@,
    {
        let g = Grid { store: store_clone(&self.store), nx: self.nx, ny: self.ny };
        proof {
            assert(g@ == self@);
        }
        g
    }

    /// The cells in row-major order as a plain vector.
    pub fn export(&self) -> (v: Vec<i64>)
        requires
            self.wf(),
        ensures
            v@ == self@.cells,
    {
        let mut out: Vec<i64> = Vec::new();
        let mut i: usize = 0;
        while i < self.nx
            invariant
                self.wf(),
                i <= self@.nx,
                out@ == self@.cells.subrange(0, i as int * self@.ny as int),
            decreases self@.nx - i,
        {
            let mut j: usize = 0;
            while j < self.ny
                invariant
                    self.wf(),
                    i < self@.nx,
                    j <= self@.ny,
                    out@ == self@.cells.subrange(0, i as int * self@.ny as int + j as int),
                decreases self@.ny - j,
            {
                proof {
                    index_in_range(self@, i as int, j as int);
                }
                out.push(self.get(i, j));
                proof {
                    assert(out@ =~= self@.cells.subrange(
                        0,
                        i as int * self@.ny as int + (j + 1),
                    ));
                }
                j += 1;
            }
            proof {
                assert(i as int * self@.ny as int + self@.ny as int == (i + 1) * self@.ny as int)
                    by (nonlinear_arith);
            }
            i += 1;
        }
        proof {
            assert(i as int * self@.ny as int == self@.cells.len() as int) by (nonlinear_arith)
                requires
                    i == self@.nx,
                    self@.cells.len() == self@.nx * self@.ny,
            ;
            assert(out@ =~= self@.cells);
        }
        out
    }

    /// A grid of the given extent whose row-major cells are `data`.
    pub fn from_vec(nx: usize, ny: usize, data: &Vec<i64>) -> (g: Grid)
        requires
            1 <= nx <= GRID_CELL_CAP,
            1 <= ny <= GRID_CELL_CAP,
            nx * ny <= GRID_CELL_CAP,
            data@.len() == nx * ny,
        ensures
            g.wf(),
            g@.nx == nx,
            g@.ny == ny,
            g@.cells == data@,
    {
        let mut g = Grid::new(nx, ny);
        let mut i: usize = 0;
        while i < nx
            invariant
                g.wf(),
                g@.nx == nx,
                g@.ny == ny,
                1 <= nx,
                1 <= ny,
                data@.len() == nx * ny,
                i <= nx,
                forall|k: int| 0 <= k < i as int * ny as int ==> g@.cells[k] == data@[k],
            decreases nx - i,
        {
            let mut j: usize = 0;
            while j < ny
                invariant
                    g.wf(),
                    g@.nx == nx,
                    g@.ny == ny,
                    1 <= nx,
                    1 <= ny,
                    data@.len() == nx * ny,
                    i < nx,
                    j <= ny,
                    forall|k: int| 0 <= k < i as int * ny as int + j as int ==> g@.cells[k]
                        == data@[k],
                decreases ny - j,
            {
                proof {
                    index_in_range(g@, i as int, j as int);
                }
                g.set(i, j, data[i * ny + j]);
                j += 1;
            }
            proof {
                assert(i as int * ny as int + ny as int == (i + 1) * ny as int)
                    by (nonlinear_arith);
            }
            i += 1;
        }
        proof {
            assert(i as int * ny as int == nx as int * ny as int) by (nonlinear_arith)
                requires
                    i == nx,
            ;
            assert(g@.cells =~= data@);
        }
        g
    }
}

/// A linear cell index t < nx * ny decomposes into row t / ny and column
/// t % ny.
pub proof fn row_col_of_linear(t: int, nx: int, ny: int)
    requires
        0 <= t,
        0 < nx,
        0 < ny,
        t < nx * ny,
    ensures
        0 <= t / ny < nx,
        0 <= t % ny < ny,
        (t / ny) * ny + t % ny == t,
{
    assert(t < ny * nx) by (nonlinear_arith)
        requires
            t < nx * ny,
    ;
    vstd::arithmetic::div_mod::lemma_multiply_divide_lt(t, ny, nx);
    vstd::arithmetic::div_mod::lemma_mod_division_less_than_divisor(t, ny);
    vstd::arithmetic::div_mod::lemma_fundamental_div_mod(t, ny);
    vstd::arithmetic::div_mod::lemma_div_pos_is_pos(t, ny);
    assert((t / ny) * ny == ny * (t / ny)) by (nonlinear_arith);
}

/// A cell index (i, j) with i < nx and j < ny lies inside the row-major cells.
pub proof fn index_in_range(v: GridView, i: int, j: int)
    requires
        v.wf(),
        0 <= i < v.nx,
        0 <= j < v.ny,
    ensures
        0 <= i * v.ny as int + j < v.cells.len(),
        i * v.ny as int + j < v.nx * v.ny,
{
    assert(0 <= i * v.ny as int + j < v.nx * v.ny) by (nonlinear_arith)
        requires
            0 <= i < v.nx,
            0 <= j < v.ny,
    ;
}

} // verus!
