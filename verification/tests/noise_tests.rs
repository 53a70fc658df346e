use star_raster::noise::{
    cellular_noise, hash, lattice_noise, simplex_noise, turbulence, NoiseKind, SCALE, TURB_LIMIT,
};

#[test]
fn hash_matches_known_values() {
    assert_eq!(hash(0, 0, 0), 0);
    assert_eq!(hash(1, 2, 3), 90);
    assert_eq!(hash(-5, 7, 100), 125);
    assert_eq!(hash(123, -456, 789), 192);
}

#[test]
fn hash_is_deterministic_and_in_range() {
    for &(x, y, z) in &[(0, 0, 0), (1, -1, 2), (i32::MAX, i32::MIN, 77), (-99999, 123456, -7)] {
        let a = hash(x, y, z);
        let b = hash(x, y, z);
        assert_eq!(a, b);
        assert!((0..=255).contains(&a));
    }
}

#[test]
fn lattice_noise_matches_known_values() {
    assert_eq!(lattice_noise(0, 0, 0), 32768);
    assert_eq!(lattice_noise(40000, -70000, 123456), 32961);
    assert_eq!(lattice_noise(99999, 88888, 77777), 43907);
}

#[test]
fn lattice_noise_is_deterministic_and_within_unit_range() {
    let coords = [
        (0i64, 0i64, 0i64),
        (40000, -70000, 123456),
        (0x4000_0000, -0x4000_0000, 0x3FFF_FFFF),
        (-1, 1, -65536),
        (7_777_777, -3_333_333, 123_456_789),
    ];
    for &(x, y, z) in &coords {
        let a = lattice_noise(x, y, z);
        let b = lattice_noise(x, y, z);
        assert_eq!(a, b);
        assert!(0 <= a && a <= SCALE);
    }
}

#[test]
fn simplex_noise_matches_known_value_and_range() {
    assert_eq!(simplex_noise(40000, -70000, 123456), 35026);
    for &(x, y, z) in &[(0i64, 0i64, 0i64), (-500000, 400000, 300000)] {
        let n = simplex_noise(x, y, z);
        assert!(0 <= n && n <= SCALE);
    }
}

#[test]
fn turbulence_matches_known_values() {
    assert_eq!(turbulence(NoiseKind::Lattice, 40000, 50000, 60000, 5), 59627);
    assert_eq!(turbulence(NoiseKind::SimplexLike, -30000, 20000, 10000, 3), 43439);
}

#[test]
fn turbulence_of_zero_octaves_is_zero_and_sums_stay_bounded() {
    assert_eq!(turbulence(NoiseKind::Lattice, 12345, -54321, 999, 0), 0);
    let n = turbulence(NoiseKind::Lattice, TURB_LIMIT, -TURB_LIMIT, TURB_LIMIT, 8);
    assert!(0 <= n && n <= 8 * SCALE);
}

#[test]
fn cellular_noise_is_one_minus_distance_to_the_nearest_feature() {
    let x = 500_000i64;
    let y = -200_000i64;
    let z = 70_000i64;
    // No feature anywhere: the field is zero.
    assert_eq!(cellular_noise(x, y, z, &vec![]), 0);
    // A feature right at the sample: the field peaks.
    assert_eq!(cellular_noise(x, y, z, &vec![(x, y, z)]), SCALE);
    // Half a unit away on one axis.
    assert_eq!(cellular_noise(x, y, z, &vec![(x - 32768, y, z)]), 32768);
    // A 3-4-5 triangle: distance 50000 of 65536.
    assert_eq!(cellular_noise(x, y, z, &vec![(x - 30000, y + 40000, z)]), 15536);
    // A full unit or more away: the field is zero.
    assert_eq!(cellular_noise(x, y, z, &vec![(x + 70000, y, z)]), 0);
    // The nearest of several features wins.
    let features = vec![(x - 60000, y, z), (x, y - 10000, z), (x, y, z + 65000)];
    assert_eq!(cellular_noise(x, y, z, &features), SCALE - 10000);
    // Non-square distances round down: sqrt(3) of a tiny offset is 1.
    assert_eq!(cellular_noise(x, y, z, &vec![(x - 1, y - 1, z - 1)]), SCALE - 1);
}

#[test]
fn cellular_noise_stays_within_unit_range() {
    let features = vec![(0i64, 0i64, 0i64), (100_000, -50_000, 30_000)];
    for &(x, y, z) in &[(0i64, 0i64, 0i64), (80_000i64, -40_000i64, 20_000i64)] {
        let n = cellular_noise(x, y, z, &features);
        assert!(0 <= n && n <= SCALE);
    }
}

#[test]
fn nearby_coordinates_vary_the_field() {
    // Not a contract, just a sanity check that the field is not constant.
    let a = lattice_noise(10000, 20000, 30000);
    let b = lattice_noise(200000, -300000, 50000);
    let c = lattice_noise(999999, 123, -456789);
    assert!(a != b || b != c);
}
