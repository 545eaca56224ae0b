use vstd::prelude::*;
use crate::noise::{is_permutation, kernel_spec, KernelView, Noise};
use crate::rng::{combine_java, lcg_skip, scrambled, JavaRandom};

verus! {

/// The generator steps that a skipped kernel stands for: six for the three
/// offsets and one for each of the 256 shuffle draws, as when no bounded
/// draw is rejected.
pub const KERNEL_STEPS: u64 = 262;

/// Why an octave list cannot make a noise.
#[derive(PartialEq, Eq, Structural, Debug, Clone, Copy)]
pub enum OctaveError {
    /// The list names no octave.
    Empty,
}

/// The smallest octave of a non-empty list.
pub open spec fn min_octave(octaves: Seq<i32>) -> int
    decreases octaves.len(),
{
    if octaves.len() <= 1 {
        octaves[0] as int
    } else {
        let m = min_octave(octaves.drop_last());
        if (octaves.last() as int) < m { octaves.last() as int } else { m }
    }
}

/// The largest octave of a non-empty list.
pub open spec fn max_octave(octaves: Seq<i32>) -> int
    decreases octaves.len(),
{
    if octaves.len() <= 1 {
        octaves[0] as int
    } else {
        let m = max_octave(octaves.drop_last());
        if (octaves.last() as int) > m { octaves.last() as int } else { m }
    }
}

/// The number of octave slots: one per octave from the smallest to the largest.
pub open spec fn slot_count(octaves: Seq<i32>) -> int {
    max_octave(octaves) - min_octave(octaves) + 1
}

/// The list names octave `o`.
pub open spec fn requested(octaves: Seq<i32>, o: int) -> bool {
    exists|k: int| 0 <= k < octaves.len() && octaves[k] as int == o
}

/// Every octave of the list lies between its smallest and its largest, and
/// both are in the list.
pub(crate) proof fn lemma_bounds(octaves: Seq<i32>)
    requires
        octaves.len() > 0,
    ensures
        forall|k: int| 0 <= k < octaves.len() ==> min_octave(octaves) <= #[trigger] octaves[k] <= max_octave(octaves),
        requested(octaves, min_octave(octaves)),
        requested(octaves, max_octave(octaves)),
        i32::MIN <= min_octave(octaves) <= max_octave(octaves) <= i32::MAX,
    decreases octaves.len(),
{
    if octaves.len() > 1 {
        let init = octaves.drop_last();
        lemma_bounds(init);
        assert forall|k: int| 0 <= k < octaves.len() implies min_octave(octaves) <= #[trigger] octaves[k] <= max_octave(octaves) by {
            if k < octaves.len() - 1 {
                assert(octaves[k] == init[k]);
            }
        }
        let kmin = choose|k: int| 0 <= k < init.len() && init[k] as int == min_octave(init);
        let kmax = choose|k: int| 0 <= k < init.len() && init[k] as int == max_octave(init);
        assert(octaves[kmin] == init[kmin]);
        assert(octaves[kmax] == init[kmax]);
        assert(octaves[octaves.len() - 1] == octaves.last());
    }
}

pub(crate) fn octave_range(octaves: &Vec<i32>) -> (r: (i64, i64))
    requires
        octaves@.len() > 0,
    ensures
        r.0 == min_octave(octaves@),
        r.1 == max_octave(octaves@),
{
    let mut low: i64 = octaves[0] as i64;
    let mut high: i64 = octaves[0] as i64;
    let mut k: usize = 1;
    while k < octaves.len()
        invariant
            1 <= k <= octaves@.len(),
            low == min_octave(octaves@.take(k as int)),
            high == max_octave(octaves@.take(k as int)),
        decreases octaves@.len() - k,
    {
        assert(octaves@.take(k as int + 1).drop_last() =~= octaves@.take(k as int));
        let v = octaves[k] as i64;
        if v < low {
            low = v;
        }
        if v > high {
            high = v;
        }
        k = k + 1;
    }
    assert(octaves@.take(k as int) =~= octaves@);
    (low, high)
}

fn contains_octave(octaves: &Vec<i32>, o: i64) -> (r: bool)
    ensures
        r == requested(octaves@, o as int),
{
    let mut k: usize = 0;
    while k < octaves.len()
        invariant
            k <= octaves@.len(),
            forall|j: int| 0 <= j < k ==> octaves@[j] as int != o,
        decreases octaves@.len() - k,
    {
        if octaves[k] as i64 == o {
            return true;
        }
        k = k + 1;
    }
    false
}

/// One step of building an octave Perlin noise from the generator.
#[derive(PartialEq, Eq, Structural, Debug, Clone, Copy)]
pub enum BuildStep {
    /// Draw the octave-0 kernel, which fills the slot of octave 0 when that
    /// octave is requested.
    Center,
    /// Draw a kernel into the given slot.
    Kernel(usize),
    /// Advance the generator by one kernel's worth of steps without drawing.
    Skip,
    /// Reseed the generator from the octave-0 kernel's value at the origin.
    Reseed,
}

/// The number of slot positions above the largest octave's, walked upwards
/// from `max_octave + 1` to the last slot.
pub open spec fn upper_count(octaves: Seq<i32>) -> int {
    if slot_count(octaves) > max_octave(octaves) + 1 {
        slot_count(octaves) - max_octave(octaves) - 1
    } else {
        0
    }
}

/// The step for slot position `i` above the largest octave's: a kernel when
/// `i` is a slot whose octave is requested, a skip otherwise.
pub open spec fn upper_step(octaves: Seq<i32>, i: int) -> BuildStep {
    if i >= 0 && requested(octaves, max_octave(octaves) - i) {
        BuildStep::Kernel(i as usize)
    } else {
        BuildStep::Skip
    }
}

/// The step for slot position `i` below the largest octave's: a kernel when
/// `i` is a slot whose octave is requested, a skip otherwise.
pub open spec fn lower_step(octaves: Seq<i32>, i: int) -> BuildStep {
    if i < slot_count(octaves) && requested(octaves, max_octave(octaves) - i) {
        BuildStep::Kernel(i as usize)
    } else {
        BuildStep::Skip
    }
}

/// Step `m` of the build: the octave-0 kernel first; then the positions
/// above the largest octave's in ascending order; then, when the largest
/// octave is positive, a reseed and the positions from `max_octave - 1`
/// down to 0.
pub open spec fn plan_step(octaves: Seq<i32>, m: int) -> BuildStep {
    let u = upper_count(octaves);
    if m == 0 {
        BuildStep::Center
    } else if m <= u {
        upper_step(octaves, max_octave(octaves) + m)
    } else if m == u + 1 {
        BuildStep::Reseed
    } else {
        lower_step(octaves, max_octave(octaves) + u + 1 - m)
    }
}

/// All the steps of the build, in order.
pub open spec fn build_plan_spec(octaves: Seq<i32>) -> Seq<BuildStep> {
    let n = 1 + upper_count(octaves) + if max_octave(octaves) > 0 { 1 + max_octave(octaves) } else { 0 };
    Seq::new(n as nat, |m: int| plan_step(octaves, m))
}

/// The steps that build an octave Perlin noise for `octaves`, in the order
/// in which they use the generator.
pub fn build_plan(octaves: &Vec<i32>) -> (r: Result<Vec<BuildStep>, OctaveError>)
    requires
        octaves@.len() > 0 ==> slot_count(octaves@) <= usize::MAX,
    ensures
        r == Err::<Vec<BuildStep>, OctaveError>(OctaveError::Empty) <==> octaves@.len() == 0,
        r matches Ok(plan) ==> plan@ == build_plan_spec(octaves@),
{
    if octaves.len() == 0 {
        return Err(OctaveError::Empty);
    }
    let (low, high) = octave_range(octaves);
    proof {
        lemma_bounds(octaves@);
    }
    let ghost o = octaves@;
    let ghost target = build_plan_spec(o);
    let length: i64 = high - low + 1;
    let mut plan: Vec<BuildStep> = Vec::new();
    plan.push(BuildStep::Center);
    let mut i: i64 = high + 1;
    while i < length
        invariant
            o == octaves@,
            target == build_plan_spec(o),
            length == slot_count(o),
            high == max_octave(o),
            i32::MIN <= high <= i32::MAX,
            length <= usize::MAX,
            length <= 0x1_0000_0000,
            high + 1 <= i,
            i <= length || i == high + 1,
            plan@.len() == i - high,
            forall|m: int| 0 <= m < plan@.len() ==> plan@[m] == #[trigger] target[m],
        decreases length - i,
    {
        let step = if i >= 0 && contains_octave(octaves, high - i) {
            BuildStep::Kernel(i as usize)
        } else {
            BuildStep::Skip
        };
        plan.push(step);
        i = i + 1;
    }
    if high > 0 {
        plan.push(BuildStep::Reseed);
        let mut i: i64 = high;
        while i > 0
            invariant
                o == octaves@,
                target == build_plan_spec(o),
                length == slot_count(o),
                high == max_octave(o),
                high > 0,
                high <= i32::MAX,
                length <= usize::MAX,
                0 <= i <= high,
                plan@.len() == upper_count(o) + 2 + high - i,
                forall|m: int| 0 <= m < plan@.len() ==> plan@[m] == #[trigger] target[m],
            decreases i,
        {
            i = i - 1;
            let step = if i < length && contains_octave(octaves, high - i) {
                BuildStep::Kernel(i as usize)
            } else {
                BuildStep::Skip
            };
            plan.push(step);
        }
    }
    assert(plan@ =~= target);
    Ok(plan)
}

/// What the slots hold, kernel by kernel.
pub open spec fn slot_views(slots: Seq<Option<Noise>>) -> Seq<Option<KernelView>> {
    Seq::new(
        slots.len(),
        |i: int|
            match slots[i] {
                Some(n) => Some(n@),
                None => None,
            },
    )
}

/// The slots and the generator state after steps `1..k` of `plan`, carried
/// out from slots `sl` and state `s`: a kernel step draws a kernel into its
/// slot, a skip moves the state `KERNEL_STEPS` steps, and the reseed sets it
/// to `reseeded`.
pub open spec fn run_steps(plan: Seq<BuildStep>, sl: Seq<Option<KernelView>>, s: nat, reseeded: nat, k: nat) -> (Seq<Option<KernelView>>, nat)
    decreases k,
{
    if k <= 1 {
        (sl, s)
    } else {
        let (sl2, t) = run_steps(plan, sl, s, reseeded, (k - 1) as nat);
        match plan[k - 1] {
            BuildStep::Kernel(i) => {
                let (kv, u) = kernel_spec(t);
                (sl2.update(i as int, Some(kv)), u)
            },
            BuildStep::Skip => (sl2, lcg_skip(t, KERNEL_STEPS as nat)),
            BuildStep::Reseed => (sl2, reseeded),
            BuildStep::Center => (sl2, t),
        }
    }
}

/// The slots and the final state of building for `octaves` from state `s`,
/// the reseed setting the state to `reseeded`: the octave-0 kernel is drawn
/// first and fills its slot when octave 0 is requested, then the plan runs.
pub open spec fn perlin_spec(octaves: Seq<i32>, s: nat, reseeded: nat) -> (Seq<Option<KernelView>>, nat) {
    let (center, s1) = kernel_spec(s);
    let plan = build_plan_spec(octaves);
    let empty = Seq::new(slot_count(octaves) as nat, |i: int| None::<KernelView>);
    let (sl, t) = run_steps(plan, empty, s1, reseeded, plan.len());
    (if requested(octaves, 0) { sl.update(max_octave(octaves), Some(center)) } else { sl }, t)
}

/// `p` is what building for `octaves` from state `before` gives, leaving
/// state `after`, when the reseed uses a value that `origin_seed` returns
/// for the octave-0 kernel.
pub open spec fn built_from<F: Fn(&Noise) -> i64>(p: PerlinNoise, octaves: Seq<i32>, before: nat, after: nat, origin_seed: &F) -> bool {
    exists|c: Noise, v: i64|
        #![trigger c@, scrambled(v as u64)]
        c@ == kernel_spec(before).0
        && (max_octave(octaves) > 0 ==> origin_seed.ensures((&c,), v))
        && perlin_spec(octaves, before, scrambled(v as u64)) == (slot_views(p.slots()), after)
}

/// Building is deterministic: two octave Perlin noises built for the same
/// octaves from the same generator state hold the same kernels and leave the
/// same state, when the origin seed depends on the kernel alone.
pub proof fn lemma_same_state_same_kernels<F: Fn(&Noise) -> i64>(
    p1: PerlinNoise,
    p2: PerlinNoise,
    octaves: Seq<i32>,
    before: nat,
    after1: nat,
    after2: nat,
    origin_seed: &F,
)
    requires
        octaves.len() > 0,
        built_from(p1, octaves, before, after1, origin_seed),
        built_from(p2, octaves, before, after2, origin_seed),
        forall|n1: &Noise, n2: &Noise, v1: i64, v2: i64|
            n1@ == n2@ && origin_seed.ensures((n1,), v1) && origin_seed.ensures((n2,), v2) ==> v1 == v2,
    ensures
        slot_views(p1.slots()) == slot_views(p2.slots()),
        after1 == after2,
{
    let (c1, v1) = choose|c: Noise, v: i64|
        #![trigger c@, scrambled(v as u64)]
        c@ == kernel_spec(before).0
        && (max_octave(octaves) > 0 ==> origin_seed.ensures((&c,), v))
        && perlin_spec(octaves, before, scrambled(v as u64)) == (slot_views(p1.slots()), after1);
    let (c2, v2) = choose|c: Noise, v: i64|
        #![trigger c@, scrambled(v as u64)]
        c@ == kernel_spec(before).0
        && (max_octave(octaves) > 0 ==> origin_seed.ensures((&c,), v))
        && perlin_spec(octaves, before, scrambled(v as u64)) == (slot_views(p2.slots()), after2);
    if max_octave(octaves) <= 0 {
        let plan = build_plan_spec(octaves);
        assert forall|m: int| 1 <= m < plan.len() implies plan[m] != BuildStep::Reseed by {
            if plan[m] == BuildStep::Reseed {
                lemma_reseed_once(octaves, m);
            }
        }
        let (center, s1) = kernel_spec(before);
        let empty = Seq::new(slot_count(octaves) as nat, |i: int| None::<KernelView>);
        lemma_run_before_reseed(plan, empty, s1, scrambled(v1 as u64), scrambled(v2 as u64), plan.len());
    }
}

proof fn lemma_reseed_once(octaves: Seq<i32>, m: int)
    requires
        0 <= m < build_plan_spec(octaves).len(),
        build_plan_spec(octaves)[m] == BuildStep::Reseed,
    ensures
        m == upper_count(octaves) + 1,
        max_octave(octaves) > 0,
{
}

proof fn lemma_run_before_reseed(plan: Seq<BuildStep>, sl: Seq<Option<KernelView>>, s: nat, r1: nat, r2: nat, k: nat)
    requires
        k <= plan.len(),
        forall|m: int| 1 <= m < k ==> plan[m] != BuildStep::Reseed,
    ensures
        run_steps(plan, sl, s, r1, k) == run_steps(plan, sl, s, r2, k),
    decreases k,
{
    if k > 1 {
        lemma_run_before_reseed(plan, sl, s, r1, r2, (k - 1) as nat);
    }
}

/// Some step before step `k`, past the first, draws a kernel into slot `i`.
pub open spec fn drawn_before(plan: Seq<BuildStep>, i: int, k: int) -> bool {
    exists|m: int| 1 <= m < k && plan[m] == BuildStep::Kernel(i as usize)
}

proof fn lemma_drawn_step(plan: Seq<BuildStep>, i: int, k: int)
    requires
        1 <= k < plan.len(),
        0 <= i,
        plan[k] != BuildStep::Kernel(i as usize),
    ensures
        drawn_before(plan, i, k + 1) == drawn_before(plan, i, k),
{
    if drawn_before(plan, i, k + 1) {
        let m = choose|m: int| 1 <= m < k + 1 && plan[m] == BuildStep::Kernel(i as usize);
        assert(m < k);
    }
}

/// The kernel steps of the plan: each names a slot other than octave 0's,
/// and the slots named are exactly those whose octave is requested.
proof fn lemma_plan_kernels(octaves: Seq<i32>)
    requires
        octaves.len() > 0,
        slot_count(octaves) <= usize::MAX,
    ensures
        build_plan_spec(octaves).len() >= 1,
        forall|m: int, i: usize| 0 <= m < build_plan_spec(octaves).len() && build_plan_spec(octaves)[m] == BuildStep::Kernel(i)
            ==> 1 <= m && i < slot_count(octaves) && i != max_octave(octaves) && requested(octaves, max_octave(octaves) - i),
        forall|i: int| 0 <= i < slot_count(octaves) ==> (drawn_before(build_plan_spec(octaves), i, build_plan_spec(octaves).len() as int)
            <==> (i != max_octave(octaves) && requested(octaves, max_octave(octaves) - i))),
{
    lemma_bounds(octaves);
    let plan = build_plan_spec(octaves);
    let max = max_octave(octaves);
    let len = slot_count(octaves);
    let u = upper_count(octaves);
    assert forall|m: int, i: usize| 0 <= m < plan.len() && plan[m] == BuildStep::Kernel(i)
        implies 1 <= m && i < len && i != max && requested(octaves, max - i) by {
        if 1 <= m <= u {
            assert(plan[m] == upper_step(octaves, max + m));
        } else if m > u + 1 {
            assert(plan[m] == lower_step(octaves, max + u + 1 - m));
        }
    }
    assert forall|i: int| 0 <= i < len implies (drawn_before(plan, i, plan.len() as int)
        <==> (i != max && requested(octaves, max - i))) by {
        if drawn_before(plan, i, plan.len() as int) {
            let m = choose|m: int| 1 <= m < plan.len() && plan[m] == BuildStep::Kernel(i as usize);
            assert(plan[m] == BuildStep::Kernel(i as usize));
        }
        if i != max && requested(octaves, max - i) {
            if i > max {
                let m = i - max;
                assert(plan[m] == upper_step(octaves, i));
                assert(plan[m] == BuildStep::Kernel(i as usize));
            } else {
                let m = max + u + 1 - i;
                assert(plan[m] == lower_step(octaves, i));
                assert(plan[m] == BuildStep::Kernel(i as usize));
            }
        }
    }
}

/// Octave Perlin noise: one gradient-noise kernel per requested octave.
///
/// Slot `i` stands for octave `max_octave - i`. Sampling weighs slot `i` by
/// `2^(max_octave - i)` in coordinates and by `2^i / (2^slot_count - 1)` in
/// value.
pub struct PerlinNoise {
    max_octave: i32,
    noise_octaves: Vec<Option<Noise>>,
}

impl PerlinNoise {
    /// The largest requested octave.
    pub closed spec fn top_octave(&self) -> int {
        self.max_octave as int
    }

    /// The kernel slots.
    pub closed spec fn slots(&self) -> Seq<Option<Noise>> {
        self.noise_octaves@
    }

    /// Every present kernel is well formed.
    pub open spec fn wf(&self) -> bool {
        forall|i: int| 0 <= i < self.slots().len() && #[trigger] self.slots()[i] is Some
            ==> self.slots()[i].unwrap().wf()
    }

    /// The slot layout for `octaves`: one slot per octave from the largest
    /// down to the smallest, holding a kernel exactly where the octave is
    /// requested.
    pub open spec fn has_layout(&self, octaves: Seq<i32>) -> bool {
        &&& self.top_octave() == max_octave(octaves)
        &&& self.slots().len() == slot_count(octaves)
        &&& forall|i: int| 0 <= i < self.slots().len()
            ==> (#[trigger] self.slots()[i] is Some <==> requested(octaves, max_octave(octaves) - i))
    }

    /// Builds the kernels for `octaves` by carrying out `build_plan` on
    /// `random`: the octave-0 kernel first, then each step in turn, a kernel
    /// step drawing a kernel into its slot, a skip advancing the generator by
    /// `KERNEL_STEPS`, and the reseed setting the seed to `origin_seed` of
    /// the octave-0 kernel. `origin_seed` stands for sampling that kernel at
    /// the origin and scaling by `2^63`. The octave-0 kernel fills its slot
    /// when octave 0 is requested.
    pub fn new<F: Fn(&Noise) -> i64>(random: &mut JavaRandom, octaves: Vec<i32>, origin_seed: &F) -> (r: Result<PerlinNoise, OctaveError>)
        requires
            octaves@.len() > 0 ==> slot_count(octaves@) <= usize::MAX,
            forall|n: &Noise| n.wf() ==> origin_seed.requires((n,)),
        ensures
            r == Err::<PerlinNoise, OctaveError>(OctaveError::Empty) <==> octaves@.len() == 0,
            octaves@.len() == 0 ==> final(random).state() == old(random).state(),
            r matches Ok(p) ==> {
                &&& p.wf()
                &&& forall|i: int| 0 <= i < p.slots().len() && #[trigger] p.slots()[i] is Some
                    ==> is_permutation(p.slots()[i].unwrap().permutations@)
                &&& p.has_layout(octaves@)
                &&& built_from(p, octaves@, old(random).state(), final(random).state(), origin_seed)
            },
    {
        let plan = match build_plan(&octaves) {
            Ok(plan) => plan,
            Err(e) => return Err(e),
        };
        let (low, high) = octave_range(&octaves);
        proof {
            lemma_bounds(octaves@);
            lemma_plan_kernels(octaves@);
        }
        let ghost o = octaves@;
        let ghost s0 = random.state();
        let length: i64 = high - low + 1;
        let center = Noise::new(random);
        let ghost s1 = random.state();
        let ghost empty = Seq::new(length as nat, |i: int| None::<KernelView>);
        let ghost mut v: i64 = 0;
        let mut slots: Vec<Option<Noise>> = Vec::new();
        let mut k: usize = 0;
        while k < length as usize
            invariant
                k <= length,
                length <= usize::MAX,
                slots@.len() == k,
                forall|j: int| 0 <= j < k ==> #[trigger] slots@[j] is None,
            decreases length - k,
        {
            slots.push(None);
            k = k + 1;
        }
        assert(slot_views(slots@) =~= empty);
        let skip = combine_java(KERNEL_STEPS);
        let mut k: usize = 1;
        while k < plan.len()
            invariant
                o == octaves@,
                plan@ == build_plan_spec(o),
                1 <= k <= plan@.len(),
                length == slot_count(o),
                length <= usize::MAX,
                slots@.len() == length,
                center.wf(),
                center@ == kernel_spec(s0).0,
                s1 == kernel_spec(s0).1,
                empty == Seq::new(length as nat, |i: int| None::<KernelView>),
                skip.steps() == KERNEL_STEPS,
                (slot_views(slots@), random.state()) == run_steps(plan@, empty, s1, scrambled(v as u64), k as nat),
                forall|m: int| 1 <= m < k && plan@[m] == BuildStep::Reseed ==> origin_seed.ensures((&center,), v),
                forall|n: &Noise| n.wf() ==> origin_seed.requires((n,)),
                forall|m: int, i: usize| 0 <= m < plan@.len() && plan@[m] == BuildStep::Kernel(i) ==> i < length,
                forall|i: int| 0 <= i < length ==> (#[trigger] slots@[i] is Some <==> drawn_before(plan@, i, k as int)),
                forall|i: int| 0 <= i < length && #[trigger] slots@[i] is Some ==> slots@[i].unwrap().wf(),
            decreases plan@.len() - k,
        {
            let ghost before = slots@;
            match plan[k] {
                BuildStep::Kernel(i) => {
                    let ghost sl = slot_views(slots@);
                    slots.set(i, Some(Noise::new(random)));
                    proof {
                        assert(slot_views(slots@) =~= sl.update(i as int, Some(slots@[i as int].unwrap()@)));
                        assert forall|j: int| 0 <= j < length implies (#[trigger] slots@[j] is Some <==> drawn_before(plan@, j, k + 1)) by {
                            if j == i {
                                assert(plan@[k as int] == BuildStep::Kernel(j as usize));
                            } else {
                                lemma_drawn_step(plan@, j, k as int);
                            }
                        }
                    }
                },
                BuildStep::Skip => {
                    random.advance(&skip);
                    proof {
                        assert forall|j: int| 0 <= j < length implies (#[trigger] slots@[j] is Some <==> drawn_before(plan@, j, k + 1)) by {
                            lemma_drawn_step(plan@, j, k as int);
                        }
                    }
                },
                BuildStep::Reseed => {
                    let seed = origin_seed(&center);
                    proof {
                        assert forall|m: int| 1 <= m < k implies plan@[m] != BuildStep::Reseed by {
                            if plan@[m] == BuildStep::Reseed {
                                lemma_reseed_once(o, m);
                                lemma_reseed_once(o, k as int);
                            }
                        }
                        lemma_run_before_reseed(plan@, empty, s1, scrambled(v as u64), scrambled(seed as u64), k as nat);
                        v = seed;
                        assert forall|m: int| 1 <= m < k + 1 && plan@[m] == BuildStep::Reseed implies origin_seed.ensures((&center,), v) by {}
                    }
                    random.set_seed(seed as u64);
                    proof {
                        assert forall|j: int| 0 <= j < length implies (#[trigger] slots@[j] is Some <==> drawn_before(plan@, j, k + 1)) by {
                            lemma_drawn_step(plan@, j, k as int);
                        }
                    }
                },
                BuildStep::Center => {
                    proof {
                        assert forall|j: int| 0 <= j < length implies (#[trigger] slots@[j] is Some <==> drawn_before(plan@, j, k + 1)) by {
                            lemma_drawn_step(plan@, j, k as int);
                        }
                    }
                },
            }
            k = k + 1;
        }
        let ghost ran = slot_views(slots@);
        let has_zero = contains_octave(&octaves, 0);
        if has_zero {
            proof {
                let kk = choose|kk: int| 0 <= kk < octaves@.len() && octaves@[kk] as int == 0;
                assert(low <= octaves@[kk] <= high);
            }
            slots.set(high as usize, Some(center.copy()));
            assert(slot_views(slots@) =~= ran.update(high as int, Some(center@)));
        }
        let r = PerlinNoise { max_octave: high as i32, noise_octaves: slots };
        proof {
            if high > 0 {
                let m = upper_count(o) + 1;
                assert(build_plan_spec(o)[m] == BuildStep::Reseed);
            }
            assert(perlin_spec(o, s0, scrambled(v as u64)) == (slot_views(r.slots()), random.state()));
        }
        assert forall|j: int| 0 <= j < r.slots().len() implies (#[trigger] r.slots()[j] is Some <==> requested(octaves@, max_octave(octaves@) - j)) by {
            if j == high {
                assert(high - j == 0);
            }
        }
        Ok(r)
    }

    /// The largest requested octave: sampling scales coordinates by
    /// `2^max_octave` in the first slot.
    pub fn max_octave(&self) -> (r: i32)
        ensures
            r == self.top_octave(),
    {
        self.max_octave
    }

    /// The kernel slots, slot `i` standing for octave `max_octave - i`.
    pub fn noise_octaves(&self) -> (r: &Vec<Option<Noise>>)
        ensures
            r@ == self.slots(),
    {
        &self.noise_octaves
    }
}

} // verus!
