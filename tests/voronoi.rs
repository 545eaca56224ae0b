use noise_rs::voronoi::{next, Voronoi};

#[test]
fn mixing_step() {
    assert_eq!(next(1234, 5), -5830236372342483640);
    assert_eq!(next(-1, 0), 7806831264735756412);
    assert_eq!(next(0, 42), 1442695040888963449);
}

#[test]
fn fuzzy_positions_of_seed_1234() {
    let mut voronoi = Voronoi::new(1234);
    assert_eq!(voronoi.get_fuzzy_positions(0, 0, 0), (0, 0, -1));
    assert_eq!(voronoi.get_fuzzy_positions(1, 2, 3), (-1, 1, 1));
    assert_eq!(voronoi.get_fuzzy_positions(-5, 7, -9), (-1, 2, -2));
    assert_eq!(voronoi.get_fuzzy_positions(100, -64, 37), (24, -17, 8));
    assert_eq!(voronoi.get_fuzzy_positions(i32::MAX, i32::MIN, 0), (536870912, -536870913, -1));
}

#[test]
fn fuzzy_positions_stay_among_the_candidates() {
    let mut voronoi = Voronoi::new(-8842);
    for x in -9..9 {
        for y in -9..9 {
            for z in -9..9 {
                let (fx, fy, fz) = voronoi.get_fuzzy_positions(x, y, z);
                let (rx, ry, rz) = ((x - 2) >> 2, (y - 2) >> 2, (z - 2) >> 2);
                assert!(fx == rx || fx == rx + 1);
                assert!(fy == ry || fy == ry + 1);
                assert!(fz == rz || fz == rz + 1);
            }
        }
    }
}

#[test]
fn repeated_queries_agree() {
    let mut voronoi = Voronoi::new(1234);
    let mut fresh = Voronoi::new(1234);
    for (x, y, z) in [(-5, 7, -9), (0, 0, 0), (-100, -100, -100), (-5, 7, -9)] {
        let first = voronoi.get_fuzzy_positions(x, y, z);
        let second = voronoi.get_fuzzy_positions(x, y, z);
        assert_eq!(first, second);
        assert_eq!(first, fresh.get_fuzzy_positions(x, y, z));
    }
}
