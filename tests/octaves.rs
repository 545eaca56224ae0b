use noise_rs::rng::JavaRandom;
use noise_rs::create_range;
use noise_rs::double_perlin_noise::DoublePerlinNoise;
use noise_rs::noise::Noise;
use noise_rs::perlin_noise::{build_plan, BuildStep, OctaveError, PerlinNoise};

// The octave-0 kernel of a generator seeded with 1, sampled at the origin and
// scaled by 2^63.
const ORIGIN_SEED_OF_SEED_ONE: i64 = 987736413555367680;

fn head(slot: &Option<Noise>) -> Option<Vec<u8>> {
    slot.as_ref().map(|n| n.permutations[..4].to_vec())
}

#[test]
fn perlin_layout_for_one_and_two() {
    let seed = |_n: &Noise| ORIGIN_SEED_OF_SEED_ONE;
    let perlin = PerlinNoise::new(&mut JavaRandom::with_seed(1), create_range(1, 2), &seed).unwrap();
    assert_eq!(perlin.max_octave(), 2);
    let slots = perlin.noise_octaves();
    assert_eq!(slots.len(), 2);
    assert_eq!(head(&slots[0]), Some(vec![48, 153, 79, 66]));
    assert_eq!(head(&slots[1]), Some(vec![181, 45, 76, 47]));
}

#[test]
fn perlin_layout_with_gaps() {
    let seed = |_n: &Noise| ORIGIN_SEED_OF_SEED_ONE;
    let perlin = PerlinNoise::new(&mut JavaRandom::with_seed(1), vec![0, 3], &seed).unwrap();
    assert_eq!(perlin.max_octave(), 3);
    let slots = perlin.noise_octaves();
    assert_eq!(slots.len(), 4);
    assert_eq!(head(&slots[0]), Some(vec![141, 239, 63, 206]));
    assert!(slots[1].is_none());
    assert!(slots[2].is_none());
    assert_eq!(head(&slots[3]), Some(vec![85, 92, 42, 62]));
}

#[test]
fn perlin_layout_for_negative_octaves() {
    let seed = |_n: &Noise| -> i64 { panic!("no reseed below octave 1") };
    let perlin = PerlinNoise::new(&mut JavaRandom::with_seed(1), create_range(-7, -6), &seed).unwrap();
    assert_eq!(perlin.max_octave(), -6);
    let slots = perlin.noise_octaves();
    assert_eq!(slots.len(), 2);
    assert_eq!(head(&slots[0]), Some(vec![204, 193, 197, 228]));
    assert_eq!(head(&slots[1]), Some(vec![20, 21, 242, 58]));
}

#[test]
fn perlin_uses_smallest_and_largest_octave() {
    let seed = |_n: &Noise| 5i64;
    let perlin = PerlinNoise::new(&mut JavaRandom::with_seed(3), vec![2, -1, 1, 2], &seed).unwrap();
    assert_eq!(perlin.max_octave(), 2);
    let present: Vec<bool> = perlin.noise_octaves().iter().map(|s| s.is_some()).collect();
    assert_eq!(present, vec![true, true, false, true]);
}

#[test]
fn perlin_rejects_empty_octaves() {
    let seed = |_n: &Noise| 0i64;
    let r = PerlinNoise::new(&mut JavaRandom::with_seed(1), Vec::new(), &seed);
    assert!(matches!(r, Err(OctaveError::Empty)));
}

#[test]
fn perlin_same_seed_same_kernels() {
    let seed = |n: &Noise| n.x0 as i64;
    let a = PerlinNoise::new(&mut JavaRandom::with_seed(77), vec![-2, 0, 3], &seed).unwrap();
    let b = PerlinNoise::new(&mut JavaRandom::with_seed(77), vec![-2, 0, 3], &seed).unwrap();
    let pa: Vec<Option<Vec<u8>>> = a.noise_octaves().iter().map(|s| s.as_ref().map(|n| n.permutations.clone())).collect();
    let pb: Vec<Option<Vec<u8>>> = b.noise_octaves().iter().map(|s| s.as_ref().map(|n| n.permutations.clone())).collect();
    assert_eq!(pa, pb);
}

#[test]
fn double_perlin_span_and_layers() {
    let seed = |_n: &Noise| ORIGIN_SEED_OF_SEED_ONE;
    let double = DoublePerlinNoise::new(&mut JavaRandom::with_seed(1), create_range(1, 2), &seed).unwrap();
    assert_eq!(double.octave_span(), 1);
    assert_eq!(head(&double.first_perlin().noise_octaves()[0]), Some(vec![48, 153, 79, 66]));
    assert_eq!(double.second_perlin().noise_octaves().len(), 2);
    let wide = DoublePerlinNoise::new(&mut JavaRandom::with_seed(1), vec![-3, 5, 0], &seed).unwrap();
    assert_eq!(wide.octave_span(), 8);
}

#[test]
fn double_perlin_rejects_empty_octaves() {
    let seed = |_n: &Noise| 0i64;
    let r = DoublePerlinNoise::new(&mut JavaRandom::with_seed(1), Vec::new(), &seed);
    assert!(matches!(r, Err(OctaveError::Empty)));
}

#[test]
fn plan_for_positive_octaves() {
    assert_eq!(build_plan(&vec![1, 2]).unwrap(), vec![BuildStep::Center, BuildStep::Reseed, BuildStep::Kernel(1), BuildStep::Kernel(0)]);
    assert_eq!(build_plan(&vec![0, 3]).unwrap(), vec![BuildStep::Center, BuildStep::Reseed, BuildStep::Skip, BuildStep::Skip, BuildStep::Kernel(0)]);
    assert_eq!(build_plan(&vec![5]).unwrap(), vec![BuildStep::Center, BuildStep::Reseed, BuildStep::Skip, BuildStep::Skip, BuildStep::Skip, BuildStep::Skip, BuildStep::Kernel(0)]);
}

#[test]
fn plan_for_negative_octaves() {
    assert_eq!(
        build_plan(&vec![-7, -6]).unwrap(),
        vec![BuildStep::Center, BuildStep::Skip, BuildStep::Skip, BuildStep::Skip, BuildStep::Skip, BuildStep::Skip, BuildStep::Kernel(0), BuildStep::Kernel(1)]
    );
    assert_eq!(build_plan(&vec![0]).unwrap(), vec![BuildStep::Center]);
}

#[test]
fn plan_walks_up_then_reseeds_and_walks_down() {
    assert_eq!(
        build_plan(&vec![-2, 0, 3]).unwrap(),
        vec![BuildStep::Center, BuildStep::Skip, BuildStep::Kernel(5), BuildStep::Reseed, BuildStep::Skip, BuildStep::Skip, BuildStep::Kernel(0)]
    );
}

#[test]
fn plan_rejects_empty_octaves() {
    assert_eq!(build_plan(&Vec::new()), Err(OctaveError::Empty));
}
