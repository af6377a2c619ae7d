use rype::doc::Glyph;

#[test]
fn circle_of_radius_002_on_500_by_500_is_20_by_20() {
    // radius 0.02 of the page, page grid 500 x 500: ceil(2 * 0.02 * 500) = 20
    let g = Glyph::circle(20_000_000_000, 500, 500);
    assert_eq!(g.gx(), 20);
    assert_eq!(g.gy(), 20);
    // cells are offset from the grid's center: cell (i, j) is filled iff
    // (2i-19)^2 + (2j-19)^2 < (2 * 0.02 * 500)^2 = 1600 / 4 ... i.e. < 400.
    // the four central cells are filled (offset 1 each way)
    assert!(g.filled(10, 10));
    assert!(g.filled(9, 9));
    // the inequality is strict at the rim: (16, 17) has 13^2 + 15^2 = 394
    // < 400 and is filled, (16, 18) has 13^2 + 17^2 = 458 >= 400 and is not
    assert!(g.filled(16, 17));
    assert!(!g.filled(16, 18));
}

#[test]
fn circle_rotation_symmetry_covers_even_grids_entirely() {
    let g = Glyph::circle(20_000_000_000, 500, 500);
    let gx = g.gx();
    let gy = g.gy();
    assert_eq!(gx, 20);
    for i in 0..gx {
        for j in 0..gy {
            assert_eq!(g.filled(i, j), g.filled(gx - 1 - i, gy - 1 - j));
        }
    }
}

#[test]
fn circle_rotation_symmetry_covers_odd_grids_entirely() {
    // radius 0.021 on 500 x 500: ceil(2 * 0.021 * 500) = 21, an odd size
    let g = Glyph::circle(21_000_000_000, 500, 500);
    let gx = g.gx();
    let gy = g.gy();
    assert_eq!(gx, 21);
    assert_eq!(gy, 21);
    for i in 0..gx {
        for j in 0..gy {
            assert_eq!(g.filled(i, j), g.filled(gx - 1 - i, gy - 1 - j));
        }
    }
}

#[test]
fn tiny_circle_yields_a_single_filled_cell() {
    let g = Glyph::circle(1, 500, 500);
    assert_eq!(g.gx(), 1);
    assert_eq!(g.gy(), 1);
    assert!(g.filled(0, 0));
}

#[test]
fn small_circle_fills_a_plus_pattern() {
    // radius 0.0025 on 500 x 500: a 3 x 3 raster with doubled offsets in
    // {-2, 0, 2}; filled iff offset^2 sum < (2 * 0.0025 * 500)^2 = 6.25,
    // so the edge centers (4) are in and the corners (8) are out
    let g = Glyph::circle(2_500_000_000, 500, 500);
    assert_eq!(g.gx(), 3);
    assert_eq!(g.gy(), 3);
    for i in 0..3 {
        for j in 0..3 {
            let corner = (i != 1) && (j != 1);
            assert_eq!(g.filled(i, j), !corner);
        }
    }
}

#[test]
fn circle_on_anisotropic_grid_straddles_the_boundary() {
    // on a 2 x 3 page every cell of the 2 x 2 raster has the same squared
    // offset 13 (in units where the bound is 4 * (radius * 2 * 3)^2 / 1.0);
    // radius 0.31 gives bound 13.8384 and fills all cells, radius 0.30
    // gives bound 12.96 and fills none: the comparison is strict and exact
    let big = Glyph::circle(310_000_000_000, 2, 3);
    assert_eq!(big.gx(), 2);
    assert_eq!(big.gy(), 2);
    let small = Glyph::circle(300_000_000_000, 2, 3);
    assert_eq!(small.gx(), 2);
    assert_eq!(small.gy(), 2);
    for i in 0..2 {
        for j in 0..2 {
            assert!(big.filled(i, j));
            assert!(!small.filled(i, j));
        }
    }
}
