use noise_rs::rng::JavaRandom;
use noise_rs::create_range;
use noise_rs::math::{floor_mod, gradient, sha2long, u64_from_le_prefix};
use noise_rs::noise::Noise;
use noise_rs::simplex_noise::{corner_offsets_3d, SimplexNoise};

fn offset_of(bits: u64) -> f64 {
    bits as f64 / 35184372088832.0
}

#[test]
fn test_sha() {
    assert_eq!(sha2long(1551515151585454), 4053242177535254290)
}

#[test]
fn sha_of_zero_seed() {
    assert_eq!(sha2long(0), 8794265229978523055);
}

#[test]
fn le_prefix_reads_first_eight_bytes() {
    let digest: Vec<u8> = vec![1, 2, 3, 4, 5, 6, 7, 8, 9, 10];
    assert_eq!(u64_from_le_prefix(&digest), 0x0807060504030201);
    let top: Vec<u8> = vec![255; 8];
    assert_eq!(u64_from_le_prefix(&top), u64::MAX);
}

#[test]
fn simplex_noise_test_coordinates() {
    let random: JavaRandom = JavaRandom::with_seed(12);
    let simplex_noise: SimplexNoise = SimplexNoise::init(random);
    let n = &simplex_noise.noise;
    assert_eq!(
        (offset_of(n.x0), offset_of(n.y0), offset_of(n.z0)),
        (186.85255836421052f64, 70.41770637313917f64, 123.13254179103222f64)
    );
}

#[test]
fn double_bits_from_seed() {
    let mut random = JavaRandom::with_seed(12);
    assert_eq!(random.next_double_bits(), 6574289939236581);
    assert_eq!(random.next_double_bits(), 2477602782674645);
}

#[test]
fn permutation_is_a_bijection() {
    for seed in [0u64, 1, 12, 987654321, u64::MAX] {
        let noise = Noise::new(&mut JavaRandom::with_seed(seed));
        assert_eq!(noise.permutations.len(), 256);
        let mut seen = [false; 256];
        for &b in noise.permutations.iter() {
            assert!(!seen[b as usize]);
            seen[b as usize] = true;
        }
        assert!(seen.iter().all(|&s| s));
    }
}

#[test]
fn permutation_of_seed_one() {
    let noise = Noise::new(&mut JavaRandom::with_seed(1));
    assert_eq!(&noise.permutations[..8], &[85, 92, 42, 62, 65, 212, 73, 40]);
}

#[test]
fn lookup_masks_index() {
    let noise = Noise::new(&mut JavaRandom::with_seed(1));
    assert_eq!(noise.lookup(0), 85);
    assert_eq!(noise.lookup(-256), 85);
    assert_eq!(noise.lookup(257), 92);
    assert_eq!(noise.lookup(-1), noise.permutations[255]);
}

#[test]
fn corner_hashes_of_seed_one() {
    let noise = Noise::new(&mut JavaRandom::with_seed(1));
    assert_eq!(noise.corner_hashes(3, -7, 1000), vec![195, 232, 124, 83, 161, 157, 29, 23]);
}

#[test]
fn same_seed_same_kernel() {
    let a = Noise::new(&mut JavaRandom::with_seed(42));
    let b = Noise::new(&mut JavaRandom::with_seed(42));
    assert_eq!((a.x0, a.y0, a.z0), (b.x0, b.y0, b.z0));
    assert_eq!(a.permutations, b.permutations);
}

#[test]
fn gradient_table_repeats_its_last_four() {
    assert_eq!(gradient(0), (1, 1, 0));
    assert_eq!(gradient(7), (-1, 0, -1));
    assert_eq!(gradient(11), (0, -1, -1));
    assert_eq!(gradient(12), (1, 1, 0));
    assert_eq!(gradient(13), (0, -1, 1));
    assert_eq!(gradient(14), (-1, 1, 0));
    assert_eq!(gradient(15), (0, -1, -1));
    assert_eq!(gradient(29), (0, -1, 1));
}

#[test]
fn simplex_gradient_indices() {
    let simplex = SimplexNoise::init(JavaRandom::with_seed(12));
    assert_eq!(simplex.gradient_index_2d(7, 100, 0, 0), 6);
    assert_eq!(simplex.gradient_index_2d(7, 100, 1, 0), 6);
    assert_eq!(simplex.gradient_index_2d(7, 100, 1, 1), 1);
    assert_eq!(simplex.gradient_index_3d(-3, 9, 250, 0, 0, 0), 5);
    assert_eq!(simplex.gradient_index_3d(-3, 9, 250, 1, 1, 1), 4);
    assert_eq!(simplex.gradient_index_3d(-3, 9, 250, 0, 1, 0), 8);
}

#[test]
fn simplex_corner_order() {
    assert_eq!(corner_offsets_3d(true, true, true), ((1, 0, 0), (1, 1, 0)));
    assert_eq!(corner_offsets_3d(true, false, true), ((1, 0, 0), (1, 0, 1)));
    assert_eq!(corner_offsets_3d(true, false, false), ((0, 0, 1), (1, 0, 1)));
    assert_eq!(corner_offsets_3d(false, false, false), ((0, 0, 1), (0, 1, 1)));
    assert_eq!(corner_offsets_3d(false, true, false), ((0, 1, 0), (0, 1, 1)));
    assert_eq!(corner_offsets_3d(false, true, true), ((0, 1, 0), (1, 1, 0)));
}

#[test]
fn floor_mod_takes_sign_of_divisor() {
    assert_eq!(floor_mod(-7, 3), 2);
    assert_eq!(floor_mod(7, -3), -2);
    assert_eq!(floor_mod(-7, -3), -1);
    assert_eq!(floor_mod(7, 3), 1);
    assert_eq!(floor_mod(6, -3), 0);
    assert_eq!(floor_mod(-5120, 1024), 0);
    assert_eq!(floor_mod(i64::MIN, 1024), 0);
    assert_eq!(floor_mod(i64::MAX, i64::MIN), -1);
}

#[test]
fn ranges() {
    assert_eq!(create_range(1, 2), vec![1, 2]);
    assert_eq!(create_range(-7, -6), vec![-7, -6]);
    assert_eq!(create_range(-1, 1), vec![-1, 0, 1]);
    assert_eq!(create_range(3, 2), Vec::<i32>::new());
    assert_eq!(create_range(i32::MAX, i32::MAX), vec![i32::MAX]);
}

#[test]
fn zero_draws_keep_the_identity() {
    let draws: Vec<i32> = vec![0; 256];
    let noise = Noise::from_draws(1, 2, 3, &draws);
    assert_eq!((noise.x0, noise.y0, noise.z0), (1, 2, 3));
    let identity: Vec<u8> = (0..=255u8).collect();
    assert_eq!(noise.permutations, identity);
}

#[test]
fn last_index_draws_rotate_the_table() {
    let draws: Vec<i32> = (0..256).map(|k| 255 - k).collect();
    let noise = Noise::from_draws(0, 0, 0, &draws);
    assert_eq!(&noise.permutations[..6], &[255, 0, 1, 2, 3, 4]);
    assert_eq!(&noise.permutations[253..], &[252, 253, 254]);
}

#[test]
fn kernel_is_the_shuffle_of_its_draws() {
    let mut random = java_random::Random::with_seed(1);
    let mut numerator = || {
        let hi = random.next(26) as u64;
        (hi << 27) + random.next(27) as u64
    };
    let x0 = numerator();
    let y0 = numerator();
    let z0 = numerator();
    let draws: Vec<i32> = (0..256).map(|k| random.next_int_n(256 - k)).collect();
    let built = Noise::from_draws(x0, y0, z0, &draws);
    let drawn = Noise::new(&mut JavaRandom::with_seed(1));
    assert_eq!((built.x0, built.y0, built.z0), (drawn.x0, drawn.y0, drawn.z0));
    assert_eq!(built.permutations, drawn.permutations);
}
