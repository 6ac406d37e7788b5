//! The absorbing boundary profile: zero in the interior, ramping to one at
//! the edges, walking every cell.

use maxwell::fx::FX_ONE;
use maxwell::geometry::Geometry;
use maxwell::pml::{pml_iterator_from_geometry, sigma_at};

#[test]
fn sigma_vanishes_on_the_interior() {
    for i in 8..56 {
        assert_eq!(sigma_at(i, 64, 8), 0);
    }
}

#[test]
fn sigma_is_one_at_the_edges_and_ramps_linearly() {
    assert_eq!(sigma_at(0, 64, 8), FX_ONE);
    assert_eq!(sigma_at(63, 64, 8), FX_ONE);
    assert_eq!(sigma_at(1, 64, 8), 3758096384);
    assert_eq!(sigma_at(7, 64, 8), 536870912);
    assert_eq!(sigma_at(56, 64, 8), 536870912);
}

#[test]
fn sigma_strictly_increases_toward_each_edge() {
    for i in 1..8 {
        assert!(sigma_at(i - 1, 64, 8) > sigma_at(i, 64, 8));
    }
    for i in 56..63 {
        assert!(sigma_at(i + 1, 64, 8) > sigma_at(i, 64, 8));
    }
}

#[test]
fn iterator_walks_every_cell_once() {
    let g = Geometry { x_max: 10 * FX_ONE, y_max: 10 * FX_ONE, nx: 64, ny: 64, nboundary: 8 };
    let mut it = pml_iterator_from_geometry(&g);
    let first = it.next().unwrap();
    assert_eq!((first.0, first.1), (0, 0));
    assert_eq!(first.2, FX_ONE);
    assert_eq!(first.3, FX_ONE);
    let mut count = 1;
    while let Some(_) = it.next() {
        count += 1;
    }
    assert_eq!(count, 64 * 64);
    assert!(it.next().is_none());
}
