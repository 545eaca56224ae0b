use vstd::prelude::*;
use crate::noise::Noise;
use crate::perlin_noise::{built_from, max_octave, min_octave, slot_count, OctaveError, PerlinNoise};
use crate::rng::JavaRandom;

verus! {

/// Two octave Perlin noises over the same octaves, drawn one after the other
/// from one generator, and the span of those octaves, which sets the
/// amplitude `(1/6) / (0.1 * (1 + 1 / (span + 1)))`.
pub struct DoublePerlinNoise {
    octave_span: i64,
    first_perlin: PerlinNoise,
    second_perlin: PerlinNoise,
}

impl DoublePerlinNoise {
    /// The span from the smallest to the largest octave.
    pub closed spec fn span(&self) -> int {
        self.octave_span as int
    }

    /// The layer sampled at the query itself.
    pub closed spec fn first(&self) -> PerlinNoise {
        self.first_perlin
    }

    /// The layer sampled at the skewed query.
    pub closed spec fn second(&self) -> PerlinNoise {
        self.second_perlin
    }

    /// Builds the first layer, then the second from the state that the
    /// first left.
    pub fn new<F: Fn(&Noise) -> i64>(random: &mut JavaRandom, octaves: Vec<i32>, origin_seed: &F) -> (r: Result<DoublePerlinNoise, OctaveError>)
        requires
            octaves@.len() > 0 ==> slot_count(octaves@) <= usize::MAX,
            forall|n: &Noise| n.wf() ==> origin_seed.requires((n,)),
        ensures
            r == Err::<DoublePerlinNoise, OctaveError>(OctaveError::Empty) <==> octaves@.len() == 0,
            r matches Ok(d) ==> {
                &&& d.span() == max_octave(octaves@) - min_octave(octaves@)
                &&& d.first().wf() && d.first().has_layout(octaves@)
                &&& d.second().wf() && d.second().has_layout(octaves@)
                &&& exists|mid: nat|
                    built_from(d.first(), octaves@, old(random).state(), mid, origin_seed)
                    && #[trigger] built_from(d.second(), octaves@, mid, final(random).state(), origin_seed)
            },
    {
        let span = if octaves.len() == 0 {
            0
        } else {
            let (low, high) = crate::perlin_noise::octave_range(&octaves);
            proof {
                crate::perlin_noise::lemma_bounds(octaves@);
            }
            high - low
        };
        let ghost s0 = random.state();
        let first_perlin = match PerlinNoise::new(random, octaves.clone(), origin_seed) {
            Ok(p) => p,
            Err(e) => return Err(e),
        };
        let ghost mid = random.state();
        let second_perlin = match PerlinNoise::new(random, octaves.clone(), origin_seed) {
            Ok(p) => p,
            Err(e) => return Err(e),
        };
        let r = DoublePerlinNoise { octave_span: span, first_perlin, second_perlin };
        assert(built_from(r.first(), octaves@, s0, mid, origin_seed));
        assert(built_from(r.second(), octaves@, mid, random.state(), origin_seed));
        Ok(r)
    }

    /// The span from the smallest to the largest octave.
    pub fn octave_span(&self) -> (r: i64)
        ensures
            r == self.span(),
    {
        self.octave_span
    }

    /// The layer sampled at the query itself.
    pub fn first_perlin(&self) -> (r: &PerlinNoise)
        ensures
            *r == self.first(),
    {
        &self.first_perlin
    }

    /// The layer sampled at the skewed query.
    pub fn second_perlin(&self) -> (r: &PerlinNoise)
        ensures
            *r == self.second(),
    {
        &self.second_perlin
    }
}

} // verus!
