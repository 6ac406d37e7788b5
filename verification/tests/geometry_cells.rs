//! Geometry: coordinate-to-cell mapping, centroids, corners, and the padded
//! extent, plus the grid storage itself.

use maxwell::fx::FX_ONE;
use maxwell::geometry::Geometry;
use maxwell::grid::Grid;

fn standard_geometry() -> Geometry {
    Geometry { x_max: 10 * FX_ONE, y_max: 10 * FX_ONE, nx: 64, ny: 64, nboundary: 8 }
}

#[test]
fn cell_size_is_extent_over_interior_cells() {
    let g = standard_geometry();
    assert_eq!(g.delta_x(), 894784853);
    assert_eq!(g.delta_y(), 894784853);
}

#[test]
fn center_of_domain_maps_to_center_cell() {
    let g = standard_geometry();
    assert_eq!(g.position_to_cell(5 * FX_ONE, 5 * FX_ONE), Some((32, 32)));
    assert_eq!(g.position_to_cell_unclamped(-10 * FX_ONE, 0), (-40, 8));
    assert_eq!(g.position_to_cell(-10 * FX_ONE, 0), None);
}

#[test]
fn centroid_and_corners_have_exact_coordinates() {
    let g = standard_geometry();
    let (cx, cy) = g.cell_to_centroid(32, 32);
    assert_eq!(cx, 21922228898);
    assert_eq!(cy, 21922228898);
    let corners = g.cell_to_corners(8, 8);
    assert_eq!(corners[0], (0, 0));
    assert_eq!(corners[1], (894784853, 0));
    assert_eq!(corners[2], (0, 894784853));
    assert_eq!(corners[3], (894784853, 894784853));
}

#[test]
fn padded_extent_and_membership() {
    let g = standard_geometry();
    assert_eq!(g.x_extent_including_boundary(), 57266230592);
    assert!(g.in_padding_region(0, 0));
    let min_x = -8i64 * 894784853;
    assert!(g.in_padding_region(min_x, 0));
    assert!(!g.in_padding_region(min_x - 1, 0));
    assert!(!g.in_padding_region(0, 60 * FX_ONE));
}

#[test]
fn surrounding_cells_clamp_to_the_grid() {
    let g = standard_geometry();
    let center = g.position_to_surrounding_cells(5 * FX_ONE, 5 * FX_ONE);
    assert_eq!(center.len(), 9);
    assert!(center.contains(&(31, 31)));
    assert!(center.contains(&(33, 33)));
    let outside = g.position_to_surrounding_cells(-10 * FX_ONE, -10 * FX_ONE);
    assert_eq!(outside.len(), 0);
}

#[test]
fn centroids_map_back_to_their_cells() {
    let g = standard_geometry();
    for i in 8..64usize {
        for j in 8..64usize {
            let (x, y) = g.cell_to_centroid(i, j);
            assert_eq!(g.position_to_cell(x, y), Some((i, j)));
        }
    }
}

#[test]
fn grid_stores_and_returns_cells() {
    let mut g = Grid::new(4, 3);
    assert_eq!(g.nx(), 4);
    assert_eq!(g.ny(), 3);
    assert_eq!(g.get(2, 1), 0);
    g.set(2, 1, 77);
    assert_eq!(g.get(2, 1), 77);
    assert_eq!(g.get(1, 2), 0);
    let v = g.export();
    assert_eq!(v.len(), 12);
    assert_eq!(v[2 * 3 + 1], 77);
    let h = Grid::from_vec(4, 3, &v);
    assert_eq!(h.get(2, 1), 77);
    let mut d = g.duplicate();
    d.fill(5);
    assert_eq!(d.get(0, 0), 5);
    assert_eq!(g.get(0, 0), 0);
}
