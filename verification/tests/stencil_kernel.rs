//! The softening kernel and the finite-difference gradients.

use maxwell::fx::FX_ONE;
use maxwell::geometry::Geometry;
use maxwell::grid::Grid;
use maxwell::stencil::{fx_pow, DifferenceType, StencilType, Stencils, SOFTEN_BASE};

fn standard_geometry() -> Geometry {
    Geometry { x_max: 10 * FX_ONE, y_max: 10 * FX_ONE, nx: 64, ny: 64, nboundary: 8 }
}

fn small_geometry() -> Geometry {
    Geometry { x_max: 8 * FX_ONE, y_max: 8 * FX_ONE, nx: 8, ny: 8, nboundary: 1 }
}

#[test]
fn kernel_base_powers() {
    assert_eq!(fx_pow(SOFTEN_BASE, 0), FX_ONE);
    assert_eq!(fx_pow(SOFTEN_BASE, 1), SOFTEN_BASE);
    assert_eq!(fx_pow(SOFTEN_BASE, 2), 3344923892);
    assert_eq!(fx_pow(SOFTEN_BASE, 10000), 0);
}

#[test]
fn kernel_normalization_of_the_standard_grid() {
    let s = Stencils::new(standard_geometry());
    assert_eq!(s.soften_norm, 107944299384);
}

#[test]
fn deposit_spreads_a_symmetric_normalized_kernel() {
    let s = Stencils::new(standard_geometry());
    let mut grid = Grid::new(64, 64);
    s.add_softened_point(&mut grid, 32, 32, FX_ONE);
    assert_eq!(grid.get(32, 32), 170891322);
    assert_eq!(grid.get(33, 32), 150811062);
    assert_eq!(grid.get(31, 32), 150811062);
    assert_eq!(grid.get(32, 31), 150811062);
    assert_eq!(grid.get(33, 33), 133090295);
    // outside the 8-cell window nothing is deposited
    assert_eq!(grid.get(32, 44), 0);
}

#[test]
fn deposit_wraps_toroidally_at_the_grid_edge() {
    let s = Stencils::new(standard_geometry());
    let mut grid = Grid::new(64, 64);
    s.add_softened_point(&mut grid, 0, 0, FX_ONE);
    assert_eq!(grid.get(0, 0), 170891322);
    assert_eq!(grid.get(63, 0), 150811062);
    assert_eq!(grid.get(1, 0), 150811062);
    assert_eq!(grid.get(0, 63), 150811062);
}

#[test]
fn gradients_difference_neighbors_with_periodic_wrap() {
    let g = small_geometry();
    let s = Stencils::new(g);
    let mut cells: Vec<i64> = vec![0; 64];
    cells[3 * 8 + 3] = 3 * FX_ONE;
    cells[4 * 8 + 3] = 7 * FX_ONE;
    cells[2 * 8 + 3] = 3 * FX_ONE;
    cells[7 * 8 + 3] = 11 * FX_ONE;
    let grid = Grid::from_vec(8, 8, &cells);
    let fwd = s.evaluate(&grid, 3, 3, &StencilType::GradX, &DifferenceType::Forward);
    assert_eq!(fwd, 12884901888);
    let bwd = s.evaluate(&grid, 3, 3, &StencilType::GradX, &DifferenceType::Backward);
    assert_eq!(bwd, 0);
    let ctr = s.evaluate(&grid, 3, 3, &StencilType::GradX, &DifferenceType::Central);
    assert_eq!(ctr, 6442450944);
    // wrap: forward at the last column reads column 0
    let wrap = s.evaluate(&grid, 7, 3, &StencilType::GradX, &DifferenceType::Forward);
    assert_eq!(wrap, -3221225472 * 11);
}

#[test]
fn apply_writes_the_gradient_everywhere() {
    let g = small_geometry();
    let s = Stencils::new(g);
    let mut cells: Vec<i64> = vec![0; 64];
    for i in 0..8usize {
        for j in 0..8usize {
            cells[i * 8 + j] = (i as i64) * FX_ONE;
        }
    }
    let grid = Grid::from_vec(8, 8, &cells);
    let expected = s.evaluate(&grid, 2, 5, &StencilType::GradX, &DifferenceType::Forward);
    let mut work = Grid::from_vec(8, 8, &cells);
    s.apply(&mut work, StencilType::GradX, DifferenceType::Forward);
    assert_eq!(work.get(2, 5), expected);
    assert_eq!(work.get(2, 5), 3221225472);
    let mut out = Grid::new(8, 8);
    s.apply_grad(&grid, &mut out, StencilType::GradY, DifferenceType::Forward);
    assert_eq!(out.get(2, 5), 0);
}

#[test]
fn soften_stencil_is_the_normalized_kernel() {
    let s = Stencils::new(standard_geometry());
    let (kernel, norm) = s.make_soften_stencil();
    assert_eq!(norm, 107944299384);
    assert_eq!(kernel.get(0, 0), 170891322);
    assert_eq!(kernel.get(1, 0), kernel.get(63, 0));
    assert_eq!(kernel.get(0, 1), kernel.get(0, 63));
}
