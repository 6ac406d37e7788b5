//! The constrained initialization, checked against a spectral solve of the
//! inverse Laplacian: the discrete divergence of the initialized electric
//! field reproduces the deposited charge density (less its mean, which the
//! periodic solve projects out), and the field of a centered positive charge
//! points radially outward.

use fft2d::slice::{fft_2d, ifft_2d};
use num_complex::Complex;

use maxwell::charge::Charge;
use maxwell::diag::DiagSink;
use maxwell::field::FieldConfiguration;
use maxwell::fx::FX_ONE;
use maxwell::grid::Grid;

const S: f64 = 4294967296.0;

/// Solve `laplacian(phi) = rho` on the configuration's grid with the
/// spectral inverse of the 5-point stencil, exactly as the host runtime does.
fn solve_inverse_laplacian(c: &FieldConfiguration) -> Grid {
    let nx = c.geometry.nx;
    let ny = c.geometry.ny;
    let dx = c.geometry.delta_x() as f64 / S;
    let dy = c.geometry.delta_y() as f64 / S;
    let mut lap: Vec<Complex<f64>> = vec![Complex::new(0.0, 0.0); nx * ny];
    let dx2i = 1.0 / (dx * dx);
    let dy2i = 1.0 / (dy * dy);
    lap[0] = Complex::new(-2.0 * dx2i - 2.0 * dy2i, 0.0);
    lap[(nx - 1) * ny] = Complex::new(dx2i, 0.0);
    lap[ny] = Complex::new(dx2i, 0.0);
    lap[ny - 1] = Complex::new(dy2i, 0.0);
    lap[1] = Complex::new(dy2i, 0.0);
    fft_2d(nx, ny, &mut lap);
    let max_norm = lap.iter().map(|z| z.norm()).fold(0.0, f64::max);
    for z in lap.iter_mut() {
        *z = if z.norm() > max_norm * 1e-8 {
            Complex::new(1.0, 0.0) / *z
        } else {
            Complex::new(0.0, 0.0)
        };
    }
    let renorm = (nx * ny) as f64;
    for z in lap.iter_mut() {
        *z = *z / renorm;
    }
    let density = c.cic_grid.as_ref().unwrap().export();
    let mut rho: Vec<Complex<f64>> = density
        .iter()
        .map(|&v| Complex::new(v as f64 / S, 0.0))
        .collect();
    fft_2d(nx, ny, &mut rho);
    for k in 0..nx * ny {
        rho[k] = rho[k] * lap[k];
    }
    ifft_2d(nx, ny, &mut rho);
    let phi: Vec<i64> = rho.iter().map(|z| (z.re * S).round() as i64).collect();
    Grid::from_vec(nx, ny, &phi)
}

#[test]
fn divergence_of_the_initialized_field_matches_the_density() {
    let mut c = FieldConfiguration::new(10 * FX_ONE, 10 * FX_ONE, 64, 64);
    let mut sink = DiagSink::new();
    c.set_charges(vec![Charge::new(5 * FX_ONE, 5 * FX_ONE, FX_ONE)]);
    c.make_cic_grid(&mut sink);
    let phi = solve_inverse_laplacian(&c);
    assert!(c.initialize_on_constraints(&phi, &mut sink));

    let nx = 64usize;
    let ny = 64usize;
    let dx = c.geometry.delta_x() as f64 / S;
    let dy = c.geometry.delta_y() as f64 / S;
    let rho: Vec<f64> = c.cic_grid.as_ref().unwrap().export().iter().map(|&v| v as f64 / S).collect();
    let ex: Vec<f64> = c.elec_x.as_ref().unwrap().export().iter().map(|&v| v as f64 / S).collect();
    let ey: Vec<f64> = c.elec_y.as_ref().unwrap().export().iter().map(|&v| v as f64 / S).collect();
    let mean_rho: f64 = rho.iter().sum::<f64>() / (nx * ny) as f64;
    let max_rho = rho.iter().cloned().fold(0.0, f64::max);
    assert!(max_rho > 1.0, "the deposition should have produced density");

    let mut max_err: f64 = 0.0;
    for i in 0..nx {
        for j in 0..ny {
            let im = if i > 0 { i - 1 } else { nx - 1 };
            let jm = if j > 0 { j - 1 } else { ny - 1 };
            let div = (ex[i * ny + j] - ex[im * ny + j]) / dx
                + (ey[i * ny + j] - ey[i * ny + jm]) / dy;
            let err = (div - (rho[i * ny + j] - mean_rho)).abs();
            if err > max_err {
                max_err = err;
            }
        }
    }
    assert!(
        max_err < 0.01 * max_rho,
        "divergence deviates from the density by {} (density peak {})",
        max_err,
        max_rho
    );
}

#[test]
fn field_of_a_centered_charge_points_radially_outward() {
    let mut c = FieldConfiguration::new(10 * FX_ONE, 10 * FX_ONE, 64, 64);
    let mut sink = DiagSink::new();
    c.set_charges(vec![Charge::new(5 * FX_ONE, 5 * FX_ONE, FX_ONE)]);
    c.make_cic_grid(&mut sink);
    let phi = solve_inverse_laplacian(&c);
    assert!(c.initialize_on_constraints(&phi, &mut sink));

    let ex = c.elec_x.as_ref().unwrap();
    let ey = c.elec_y.as_ref().unwrap();
    // sample a ring of cells around the center cell (32, 32)
    let samples: [(usize, usize); 8] = [
        (37, 32),
        (27, 32),
        (32, 37),
        (32, 27),
        (36, 36),
        (28, 28),
        (36, 28),
        (28, 36),
    ];
    for &(i, j) in samples.iter() {
        let rx = i as f64 - 32.0;
        let ry = j as f64 - 32.0;
        let u = ex.get(i, j) as f64 / S;
        let v = ey.get(i, j) as f64 / S;
        let dot = rx * u + ry * v;
        assert!(dot > 0.0, "field at ({}, {}) does not point outward", i, j);
    }
}
