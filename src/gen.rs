use vstd::prelude::*;

use crate::ranges::{Choose, One};
use crate::rng::{
    agree, draw_in_range, lawful, pure_fn, pure_fn2, runs_in_order, seeded_full_draw,
    seeded_range_draw, total, PropRng, RandomState,
};

verus! {

/// A generator: a sequencer from a random state to a value and the next state.
#[derive(Clone)]
pub struct Gen<F> {
    pub sample: F,
}

/// `g` can be run on every state and gives one outcome for each.
pub open spec fn lawful_gen<A, F: Fn(RandomState) -> (A, RandomState)>(g: Gen<F>) -> bool {
    lawful(g.sample)
}

/// Running `g` on `s` can give the value and state `o`.
pub open spec fn produces<A, F: Fn(RandomState) -> (A, RandomState)>(
    g: Gen<F>,
    s: RandomState,
    o: (A, RandomState),
) -> bool {
    call_ensures(g.sample, (s,), o)
}

/// `g` returns `x` and leaves the state as it found it.
pub open spec fn is_pure<A, F: Fn(RandomState) -> (A, RandomState)>(g: Gen<F>, x: A) -> bool {
    forall|s: RandomState, o: (A, RandomState)| #[trigger] call_ensures(g.sample, (s,), o) ==> o == (x, s)
}

/// Any outcome of `g1` on a state equals any outcome of `g2` on that same state.
pub open spec fn agree_gen<A, F, G>(g1: Gen<F>, g2: Gen<G>) -> bool
    where
        F: Fn(RandomState) -> (A, RandomState),
        G: Fn(RandomState) -> (A, RandomState),
{
    agree(g1.sample, g2.sample)
}

/// `f` can be applied to every value, gives a lawful generator, and the generators it
/// gives for one value behave alike.
pub open spec fn gen_fn<A, G, H: Fn(RandomState) -> (B, RandomState), B>(f: G) -> bool
    where
        G: Fn(A) -> Gen<H>,
{
    &&& forall|a: A| call_requires(f, (a,))
    &&& forall|a: A, g: Gen<H>| #[trigger] call_ensures(f, (a,), g) ==> lawful_gen(g)
    &&& forall|a: A, g1: Gen<H>, g2: Gen<H>|
        #[trigger] call_ensures(f, (a,), g1) && #[trigger] call_ensures(f, (a,), g2) ==> agree_gen(g1, g2)
}

/// `f` can be applied to every value and gives a generator that can be run on every state.
pub open spec fn gen_fn_total<A, G, H: Fn(RandomState) -> (B, RandomState), B>(f: G) -> bool
    where
        G: Fn(A) -> Gen<H>,
{
    &&& forall|a: A| call_requires(f, (a,))
    &&& forall|a: A, g: Gen<H>| #[trigger] call_ensures(f, (a,), g) ==> total(g.sample)
}

/// Every outcome of `r` is one of `g`, whose value `f` maps to a generator that
/// then runs on the state that `g` left.
pub open spec fn is_flat_map<A, B, F, G, H, R>(r: Gen<R>, g: Gen<F>, f: G) -> bool
    where
        F: Fn(RandomState) -> (A, RandomState),
        G: Fn(A) -> Gen<H>,
        H: Fn(RandomState) -> (B, RandomState),
        R: Fn(RandomState) -> (B, RandomState),
{
    forall|st: RandomState, o: (B, RandomState)| produces(r, st, o) ==>
        exists|a: A, t: RandomState, h: Gen<H>|
            #[trigger] call_ensures(g.sample, (st,), (a, t)) && #[trigger] call_ensures(f, (a,), h)
                && produces(h, t, o)
}

impl<F> Gen<F> {
    /// Wraps a sequencer.
    pub fn new(sample: F) -> (r: Gen<F>)
        ensures
            r.sample == sample,
    {
        Gen { sample }
    }

    /// Runs the generator on `rng`, giving a value and the next state.
    pub fn run<A>(self, rng: RandomState) -> (r: (A, RandomState))
        where
            F: Fn(RandomState) -> (A, RandomState),
        requires
            total(self.sample),
        ensures
            produces(self, rng, r),
    {
        (self.sample)(rng)
    }

    /// A generator whose value is `f` of this one's value; the state advances as this one's does.
    pub fn map<A, B, G>(self, f: G) -> (r: Gen<impl Fn(RandomState) -> (B, RandomState)>)
        where
            F: Fn(RandomState) -> (A, RandomState),
            G: Fn(A) -> B,
        requires
            total(self.sample),
            forall|a: A| call_requires(f, (a,)),
        ensures
            total(r.sample),
            lawful_gen(self) && pure_fn(f) ==> lawful_gen(r),
            forall|st: RandomState, o: (B, RandomState)| produces(r, st, o) ==>
                exists|a: A, t: RandomState| #[trigger] call_ensures(self.sample, (st,), (a, t)) && o.1 == t
                    && call_ensures(f, (a,), o.0),
    {
        Gen { sample: PropRng::map(self.sample, f) }
    }

    /// Runs this generator, then `g` on the state that this one left, and combines their values with `f`.
    pub fn and_then<A, B, C, H, G>(self, g: Gen<H>, f: G) -> (r: Gen<impl Fn(RandomState) -> (C, RandomState)>)
        where
            F: Fn(RandomState) -> (A, RandomState),
            H: Fn(RandomState) -> (B, RandomState),
            G: Fn(A, B) -> C,
        requires
            total(self.sample),
            total(g.sample),
            forall|a: A, b: B| call_requires(f, (a, b)),
        ensures
            total(r.sample),
            lawful_gen(self) && lawful_gen(g) && pure_fn2(f) ==> lawful_gen(r),
            forall|st: RandomState, o: (C, RandomState)| produces(r, st, o) ==>
                exists|a: A, t: RandomState, b: B, u: RandomState|
                    #[trigger] call_ensures(self.sample, (st,), (a, t)) && #[trigger] call_ensures(g.sample, (t,), (b, u))
                        && o.1 == u && call_ensures(f, (a, b), o.0),
    {
        Gen { sample: PropRng::map2(self.sample, g.sample, f) }
    }

    /// Runs this generator, then the generator that `f` makes of its value, on the state that this one left.
    pub fn flat_map<A, B, G, H>(self, f: G) -> (r: Gen<impl Fn(RandomState) -> (B, RandomState)>)
        where
            F: Fn(RandomState) -> (A, RandomState),
            G: Fn(A) -> Gen<H>,
            H: Fn(RandomState) -> (B, RandomState),
        requires
            total(self.sample),
            gen_fn_total::<A, G, H, B>(f),
        ensures
            total(r.sample),
            lawful_gen(self) && gen_fn::<A, G, H, B>(f) ==> lawful_gen(r),
            is_flat_map(r, self, f),
    {
        let gs: Ghost<F> = Ghost(self.sample);
        let gf: Ghost<G> = Ghost(f);
        let s0 = self.sample;
        let sample = move |st: RandomState| -> (o: (B, RandomState))
            ensures
                exists|a: A, t: RandomState, h: Gen<H>|
                    #[trigger] call_ensures(gs@, (st,), (a, t)) && #[trigger] call_ensures(gf@, (a,), h)
                        && call_ensures(h.sample, (t,), o),
            {
                let (a, t) = s0(st);
                let h = f(a);
                let o = (h.sample)(t);
                assert(call_ensures(gs@, (st,), (a, t)) && call_ensures(gf@, (a,), h));
                o
            };
        proof {
            assert forall|st: RandomState, o1: (B, RandomState), o2: (B, RandomState)|
                lawful_gen(self) && gen_fn::<A, G, H, B>(f) && call_ensures(sample, (st,), o1)
                    && call_ensures(sample, (st,), o2) implies o1 == o2 by {
                let (a1, t1, h1) = choose|a: A, t: RandomState, h: Gen<H>|
                    #[trigger] call_ensures(self.sample, (st,), (a, t)) && #[trigger] call_ensures(f, (a,), h)
                        && call_ensures(h.sample, (t,), o1);
                let (a2, t2, h2) = choose|a: A, t: RandomState, h: Gen<H>|
                    #[trigger] call_ensures(self.sample, (st,), (a, t)) && #[trigger] call_ensures(f, (a,), h)
                        && call_ensures(h.sample, (t,), o2);
                assert((a1, t1) == (a2, t2));
                assert(agree_gen(h1, h2));
            }
        }
        Gen { sample }
    }
}

/// The sum of the weights of the first `i` entries of `vs`.
pub open spec fn weight_upto<G>(vs: Seq<(u32, G)>, i: int) -> int
    decreases i,
{
    if i <= 0 || vs.len() == 0 {
        0
    } else if i > vs.len() {
        weight_upto(vs, vs.len() as int)
    } else {
        weight_upto(vs, i - 1) + vs[i - 1].0
    }
}

/// The sum of all the weights of `vs`.
pub open spec fn weight_total<G>(vs: Seq<(u32, G)>) -> int {
    weight_upto(vs, vs.len() as int)
}

/// A draw `n` in `1..=weight_total(vs)` selects entry `i`: the first whose running total reaches `n`.
/// Entries of weight zero are never selected.
pub open spec fn selects<G>(vs: Seq<(u32, G)>, n: int, i: int) -> bool {
    0 <= i < vs.len() && weight_upto(vs, i) < n <= weight_upto(vs, i + 1)
}

/// The draw that a weighted choice over `vs` makes from `seed`: in `1..=weight_total(vs)`.
pub open spec fn weighted_draw<G>(vs: Seq<(u32, G)>, seed: u64) -> (u64, u64) {
    seeded_range_draw(seed, 1, (weight_total(vs) + 1) as u64)
}

/// The draw that a uniform choice among `len` alternatives makes from `seed`.
pub open spec fn index_draw(len: nat, seed: u64) -> (u64, u64) {
    seeded_range_draw(seed, 0, len as u64)
}

proof fn lemma_nonempty<G>(vs: Seq<(u32, G)>)
    requires
        0 < weight_total(vs),
    ensures
        0 < vs.len(),
{
}

proof fn lemma_weight_mono<G>(vs: Seq<(u32, G)>, i: int, j: int)
    requires
        0 <= i <= j <= vs.len(),
    ensures
        weight_upto(vs, i) <= weight_upto(vs, j),
    decreases j - i,
{
    if i < j {
        lemma_weight_mono(vs, i, j - 1);
    }
}

proof fn lemma_selects_unique<G>(vs: Seq<(u32, G)>, n: int)
    ensures
        forall|i: int, j: int| selects(vs, n, i) && selects(vs, n, j) ==> i == j,
{
    assert forall|i: int, j: int| selects(vs, n, i) && selects(vs, n, j) implies i == j by {
        if i < j {
            lemma_weight_mono(vs, i + 1, j);
        } else if j < i {
            lemma_weight_mono(vs, j + 1, i);
        }
    }
}

proof fn lemma_weights_agree<G, H>(vs: Seq<(u32, G)>, ws: Seq<(u32, H)>, i: int)
    requires
        vs.len() == ws.len(),
        forall|j: int| 0 <= j < vs.len() ==> #[trigger] vs[j].0 == ws[j].0,
        0 <= i <= vs.len(),
    ensures
        weight_upto(vs, i) == weight_upto(ws, i),
    decreases i,
{
    if i > 0 {
        lemma_weights_agree(vs, ws, i - 1);
    }
}

/// The factory of generators.
pub struct Gens;

impl Gens {
    /// A generator of `()` that draws nothing.
    pub fn unit() -> (r: Gen<impl Fn(RandomState) -> ((), RandomState)>)
        ensures
            lawful_gen(r),
            is_pure(r, ()),
    {
        Self::pure(())
    }

    /// A generator of `value` that draws nothing.
    pub fn pure<B: Copy>(value: B) -> (r: Gen<impl Fn(RandomState) -> (B, RandomState)>)
        ensures
            lawful_gen(r),
            is_pure(r, value),
    {
        Gen { sample: PropRng::unit(value) }
    }

    /// A generator whose value `f` computes each time it runs; it draws nothing.
    pub fn pure_lazy<B, F: Fn() -> B>(f: F) -> (r: Gen<impl Fn(RandomState) -> (B, RandomState)>)
        requires
            call_requires(f, ()),
            forall|b1: B, b2: B| call_ensures(f, (), b1) && call_ensures(f, (), b2) ==> b1 == b2,
        ensures
            lawful_gen(r),
            forall|st: RandomState, o: (B, RandomState)| produces(r, st, o) ==>
                o.1 == st && call_ensures(f, (), o.0),
    {
        let gf: Ghost<F> = Ghost(f);
        let sample = move |st: RandomState| -> (o: (B, RandomState))
            ensures
                o.1 == st && call_ensures(gf@, (), o.0),
            { (f(), st) };
        Gen { sample }
    }

    /// Wraps the value of `gen` in `Some`.
    pub fn some<B, F>(gen: Gen<F>) -> (r: Gen<impl Fn(RandomState) -> (Option<B>, RandomState)>)
        where
            F: Fn(RandomState) -> (B, RandomState),
        requires
            total(gen.sample),
        ensures
            total(r.sample),
            lawful_gen(gen) ==> lawful_gen(r),
            forall|st: RandomState, o: (Option<B>, RandomState)| produces(r, st, o) ==>
                exists|b: B, t: RandomState| #[trigger] call_ensures(gen.sample, (st,), (b, t)) && o == (Some(b), t),
    {
        let gs: Ghost<F> = Ghost(gen.sample);
        let s0 = gen.sample;
        let sample = move |st: RandomState| -> (o: (Option<B>, RandomState))
            ensures
                exists|b: B, t: RandomState| #[trigger] call_ensures(gs@, (st,), (b, t)) && o == (Some(b), t),
            {
                let (b, t) = s0(st);
                (Some(b), t)
            };
        Gen { sample }
    }

    /// `None` with weight 1 and `Some` of the value of `gen` with weight 9: a draw `n` in
    /// `1..=10` gives `None` when `n` is 1.
    pub fn option<B, F>(gen: Gen<F>) -> (r: Gen<impl Fn(RandomState) -> (Option<B>, RandomState)>)
        where
            F: Fn(RandomState) -> (B, RandomState),
        requires
            total(gen.sample),
        ensures
            total(r.sample),
            lawful_gen(gen) ==> lawful_gen(r),
            forall|st: RandomState, o: (Option<B>, RandomState)| produces(r, st, o) ==> {
                let d = seeded_range_draw(st.seed, 1, 11);
                let t = RandomState { seed: d.1 };
                if d.0 == 1 {
                    o == (None::<B>, t)
                } else {
                    exists|b: B, u: RandomState| #[trigger] call_ensures(gen.sample, (t,), (b, u)) && o == (Some(b), u)
                }
            },
    {
        let gs: Ghost<F> = Ghost(gen.sample);
        let s0 = gen.sample;
        let sample = move |st: RandomState| -> (o: (Option<B>, RandomState))
            ensures ({
                let d = seeded_range_draw(st.seed, 1, 11);
                let t = RandomState { seed: d.1 };
                if d.0 == 1 {
                    o == (None::<B>, t)
                } else {
                    exists|b: B, u: RandomState| #[trigger] call_ensures(gs@, (t,), (b, u)) && o == (Some(b), u)
                }
            }),
            {
                let (n, next) = draw_in_range(st.seed, 1, 11);
                let t = RandomState { seed: next };
                if n == 1 {
                    (None, t)
                } else {
                    let (b, u) = s0(t);
                    (Some(b), u)
                }
            };
        Gen { sample }
    }

    /// Chooses one of the two generators with equal chance: a draw of 0 in `0..2` runs `gt`
    /// and gives `Ok`, a draw of 1 runs `ge` and gives `Err`.
    pub fn either<T, E, FT, FE>(gt: Gen<FT>, ge: Gen<FE>) -> (r: Gen<impl Fn(RandomState) -> (Result<T, E>, RandomState)>)
        where
            FT: Fn(RandomState) -> (T, RandomState),
            FE: Fn(RandomState) -> (E, RandomState),
        requires
            total(gt.sample),
            total(ge.sample),
        ensures
            total(r.sample),
            lawful_gen(gt) && lawful_gen(ge) ==> lawful_gen(r),
            forall|st: RandomState, o: (Result<T, E>, RandomState)| produces(r, st, o) ==> {
                let d = index_draw(2, st.seed);
                let t = RandomState { seed: d.1 };
                if d.0 == 0 {
                    exists|a: T, u: RandomState| #[trigger] call_ensures(gt.sample, (t,), (a, u)) && o == (Ok::<T, E>(a), u)
                } else {
                    exists|e: E, u: RandomState| #[trigger] call_ensures(ge.sample, (t,), (e, u)) && o == (Err::<T, E>(e), u)
                }
            },
    {
        let gt_s: Ghost<FT> = Ghost(gt.sample);
        let ge_s: Ghost<FE> = Ghost(ge.sample);
        let st_ok = gt.sample;
        let st_err = ge.sample;
        let sample = move |st: RandomState| -> (o: (Result<T, E>, RandomState))
            ensures ({
                let d = index_draw(2, st.seed);
                let t = RandomState { seed: d.1 };
                if d.0 == 0 {
                    exists|a: T, u: RandomState| #[trigger] call_ensures(gt_s@, (t,), (a, u)) && o == (Ok::<T, E>(a), u)
                } else {
                    exists|e: E, u: RandomState| #[trigger] call_ensures(ge_s@, (t,), (e, u)) && o == (Err::<T, E>(e), u)
                }
            }),
            {
                let (n, next) = draw_in_range(st.seed, 0, 2);
                let t = RandomState { seed: next };
                if n == 0 {
                    let (a, u) = st_ok(t);
                    (Ok(a), u)
                } else {
                    let (e, u) = st_err(t);
                    (Err(e), u)
                }
            };
        Gen { sample }
    }

    /// Chooses among the generators of `values` by weight and runs the chosen one.
    /// Entries of weight zero are never chosen. A draw `n` in `1..=total` picks the first entry
    /// whose running total of weights reaches `n`; that entry then runs on the state after the draw.
    pub fn frequency<B, F>(values: Vec<(u32, Gen<F>)>) -> (r: Gen<impl Fn(RandomState) -> (B, RandomState)>)
        where
            F: Fn(RandomState) -> (B, RandomState),
        requires
            0 < weight_total(values@),
            weight_total(values@) < u64::MAX,
            forall|i: int| 0 <= i < values@.len() ==> total(#[trigger] values@[i].1.sample),
        ensures
            total(r.sample),
            (forall|i: int| 0 <= i < values@.len() ==> lawful_gen(#[trigger] values@[i].1)) ==> lawful_gen(r),
            forall|st: RandomState, o: (B, RandomState)| produces(r, st, o) ==> {
                let d = weighted_draw(values@, st.seed);
                exists|i: int| #[trigger] selects(values@, d.0 as int, i)
                    && produces(values@[i].1, RandomState { seed: d.1 }, o)
            },
    {
        let mut sum: u64 = 0;
        let mut k: usize = 0;
        while k < values.len()
            invariant
                0 <= k <= values@.len(),
                sum == weight_upto(values@, k as int),
                weight_total(values@) < u64::MAX,
            decreases values.len() - k,
        {
            proof { lemma_weight_mono(values@, k + 1, values@.len() as int); }
            sum = sum + values[k].0 as u64;
            k = k + 1;
        }
        let gv: Ghost<Seq<(u32, Gen<F>)>> = Ghost(values@);
        let sample = move |st: RandomState| -> (o: (B, RandomState))
            ensures ({
                let d = weighted_draw(gv@, st.seed);
                exists|i: int| #[trigger] selects(gv@, d.0 as int, i)
                    && call_ensures(gv@[i].1.sample, (RandomState { seed: d.1 },), o)
            }),
            {
                assert(sum == weight_total(gv@));
                let (n, next) = draw_in_range(st.seed, 1, sum + 1);
                assert((n, next) == weighted_draw(gv@, st.seed));
                let mut cum: u64 = 0;
                let mut i: usize = 0;
                while cum < n
                    invariant
                        gv@ == values@,
                        0 <= i <= values@.len(),
                        cum == weight_upto(values@, i as int),
                        sum == weight_total(values@),
                        1 <= n <= sum,
                        i > 0 ==> weight_upto(values@, i - 1) < n,
                    decreases values.len() - i,
                {
                    proof { lemma_weight_mono(values@, i + 1, values@.len() as int); }
                    cum = cum + values[i].0 as u64;
                    i = i + 1;
                }
                let j = i - 1;
                assert(selects(values@, n as int, j as int));
                assert(total(values@[j as int].1.sample));
                let o = (values[j].1.sample)(RandomState { seed: next });
                assert(call_ensures(gv@[j as int].1.sample, (RandomState { seed: next },), o));
                o
            };
        proof {
            assert forall|st: RandomState, o1: (B, RandomState), o2: (B, RandomState)|
                (forall|i: int| 0 <= i < values@.len() ==> lawful_gen(#[trigger] values@[i].1))
                    && call_ensures(sample, (st,), o1) && call_ensures(sample, (st,), o2) implies o1 == o2 by {
                let d = weighted_draw(values@, st.seed);
                let i1 = choose|i: int| #[trigger] selects(values@, d.0 as int, i)
                    && call_ensures(values@[i].1.sample, (RandomState { seed: d.1 },), o1);
                let i2 = choose|i: int| #[trigger] selects(values@, d.0 as int, i)
                    && call_ensures(values@[i].1.sample, (RandomState { seed: d.1 },), o2);
                lemma_selects_unique(values@, d.0 as int);
                assert(lawful_gen(values@[i1].1));
            }
        }
        Gen { sample }
    }

    /// Chooses among the values of `values` by weight, as `frequency` does among generators.
    pub fn frequency_values<B: Copy>(values: Vec<(u32, B)>) -> (r: Gen<impl Fn(RandomState) -> (B, RandomState)>)
        requires
            0 < weight_total(values@),
            weight_total(values@) < u64::MAX,
        ensures
            lawful_gen(r),
            forall|st: RandomState, o: (B, RandomState)| produces(r, st, o) ==> {
                let d = weighted_draw(values@, st.seed);
                exists|i: int| #[trigger] selects(values@, d.0 as int, i)
                    && o == (values@[i].1, RandomState { seed: d.1 })
            },
    {
        proof { lemma_nonempty(values@); }
        let mut gens = vec![(values[0].0, Self::pure(values[0].1))];
        let mut k: usize = 1;
        while k < values.len()
            invariant
                1 <= k <= values@.len(),
                gens@.len() == k,
                forall|j: int| 0 <= j < k ==> #[trigger] gens@[j].0 == values@[j].0,
                forall|j: int| 0 <= j < k ==> lawful_gen(#[trigger] gens@[j].1) && is_pure(gens@[j].1, values@[j].1),
            decreases values.len() - k,
        {
            let (w, v) = values[k];
            gens.push((w, Self::pure(v)));
            k = k + 1;
        }
        proof { lemma_weights_agree(values@, gens@, values@.len() as int); }
        let r = Self::frequency(gens);
        proof {
            assert forall|st: RandomState, o: (B, RandomState)| produces(r, st, o) implies {
                let d = weighted_draw(values@, st.seed);
                exists|i: int| #[trigger] selects(values@, d.0 as int, i)
                    && o == (values@[i].1, RandomState { seed: d.1 })
            } by {
                let d = weighted_draw(gens@, st.seed);
                let i = choose|i: int| #[trigger] selects(gens@, d.0 as int, i)
                    && call_ensures(gens@[i].1.sample, (RandomState { seed: d.1 },), o);
                lemma_weights_agree(values@, gens@, i);
                lemma_weights_agree(values@, gens@, i + 1);
                assert(is_pure(gens@[i].1, values@[i].1));
                assert(produces(gens@[i].1, RandomState { seed: d.1 }, o));
                lemma_weights_agree(values@, gens@, values@.len() as int);
                assert(weighted_draw(values@, st.seed) == d);
                assert(selects(values@, d.0 as int, i));
                assert(o == (values@[i].1, RandomState { seed: d.1 }));
            }
        }
        r
    }

    /// A list of exactly `n` values of `gen`, drawn in order, each from the state the one before left.
    pub fn list_of_n<B, F>(n: usize, gen: Gen<F>) -> (r: Gen<impl Fn(RandomState) -> (Vec<B>, RandomState)>)
        where
            F: Fn(RandomState) -> (B, RandomState),
        requires
            total(gen.sample),
        ensures
            total(r.sample),
            lawful_gen(gen) ==> forall|st: RandomState, o1: (Vec<B>, RandomState), o2: (Vec<B>, RandomState)|
                produces(r, st, o1) && produces(r, st, o2) ==> o1.0@ == o2.0@ && o1.1 == o2.1,
            forall|st: RandomState, o: (Vec<B>, RandomState)| produces(r, st, o) ==>
                o.0@.len() == n && runs_in_order(Seq::new(n as nat, |i: int| gen.sample), st, o.0@, o.1)
                    && (n == 0 ==> o.1 == st),
    {
        let gs: Ghost<Seq<F>> = Ghost(Seq::new(n as nat, |i: int| gen.sample));
        let g0: Ghost<F> = Ghost(gen.sample);
        let s0 = gen.sample;
        let sample = move |st: RandomState| -> (o: (Vec<B>, RandomState))
            ensures
                o.0@.len() == n && runs_in_order(gs@, st, o.0@, o.1) && (n == 0 ==> o.1 == st),
            {
                let mut vals: Vec<B> = Vec::new();
                let mut cur = st;
                let mut i: usize = 0;
                let ghost mut states: Seq<RandomState> = seq![st];
                let step = &s0;
                while i < n
                    invariant
                        gs@ == Seq::new(n as nat, |i: int| g0@),
                        *step == g0@,
                        total(g0@),
                        0 <= i <= n,
                        vals@.len() == i,
                        states.len() == i + 1,
                        states[0] == st,
                        states[i as int] == cur,
                        forall|j: int| 0 <= j < i ==> call_ensures(#[trigger] gs@[j], (states[j],), (vals@[j], states[j + 1])),
                    decreases n - i,
                {
                    let (a, t) = step(cur);
                    proof { states = states.push(t); }
                    vals.push(a);
                    cur = t;
                    i = i + 1;
                }
                assert(crate::rng::chained(gs@, states, vals@));
                (vals, cur)
            };
        proof {
            if lawful_gen(gen) {
                crate::rng::lemma_runs_in_order_deterministic(gs@);
            }
        }
        Gen { sample }
    }

    /// One value over the whole range of its type.
    pub fn one<T: One>() -> (r: Gen<impl Fn(RandomState) -> (T, RandomState)>)
        ensures
            lawful_gen(r),
            forall|st: RandomState, o: (T, RandomState)| produces(r, st, o) ==>
                o == (T::from_word(seeded_full_draw(st.seed).0), RandomState { seed: seeded_full_draw(st.seed).1 }),
    {
        let sample = |st: RandomState| -> (o: (T, RandomState))
            ensures
                o == (T::from_word(seeded_full_draw(st.seed).0), RandomState { seed: seeded_full_draw(st.seed).1 }),
            { PropRng::gen_unfold(&st) };
        Gen { sample }
    }

    /// Chooses one of the generators of `values` with equal chance and runs it: a draw `k` in
    /// `0..len` picks `values[k]`, which runs on the state after the draw.
    pub fn one_of<T, F>(values: Vec<Gen<F>>) -> (r: Gen<impl Fn(RandomState) -> (T, RandomState)>)
        where
            F: Fn(RandomState) -> (T, RandomState),
        requires
            0 < values@.len(),
            forall|i: int| 0 <= i < values@.len() ==> total(#[trigger] values@[i].sample),
        ensures
            total(r.sample),
            (forall|i: int| 0 <= i < values@.len() ==> lawful_gen(#[trigger] values@[i])) ==> lawful_gen(r),
            forall|st: RandomState, o: (T, RandomState)| produces(r, st, o) ==> {
                let d = index_draw(values@.len(), st.seed);
                &&& d.0 < values@.len()
                &&& produces(values@[d.0 as int], RandomState { seed: d.1 }, o)
            },
    {
        let gv: Ghost<Seq<Gen<F>>> = Ghost(values@);
        let sample = move |st: RandomState| -> (o: (T, RandomState))
            ensures ({
                let d = index_draw(gv@.len(), st.seed);
                &&& d.0 < gv@.len()
                &&& call_ensures(gv@[d.0 as int].sample, (RandomState { seed: d.1 },), o)
            }),
            {
                let (k, next) = draw_in_range(st.seed, 0, values.len() as u64);
                assert(total(values@[k as int].sample));
                (values[k as usize].sample)(RandomState { seed: next })
            };
        proof {
            assert forall|st: RandomState, o1: (T, RandomState), o2: (T, RandomState)|
                (forall|i: int| 0 <= i < values@.len() ==> lawful_gen(#[trigger] values@[i]))
                    && call_ensures(sample, (st,), o1) && call_ensures(sample, (st,), o2) implies o1 == o2 by {
                let d = index_draw(values@.len(), st.seed);
                assert(0 <= d.0 < values@.len());
                assert(lawful_gen(values@[d.0 as int]));
            }
        }
        Gen { sample }
    }

    /// Chooses one of `values` with equal chance: a draw `k` in `0..len` gives `values[k]`.
    pub fn one_of_values<T: Copy>(values: Vec<T>) -> (r: Gen<impl Fn(RandomState) -> (T, RandomState)>)
        requires
            0 < values@.len(),
        ensures
            lawful_gen(r),
            forall|st: RandomState, o: (T, RandomState)| produces(r, st, o) ==> {
                let d = index_draw(values@.len(), st.seed);
                &&& d.0 < values@.len()
                &&& o == (values@[d.0 as int], RandomState { seed: d.1 })
            },
    {
        let mut gens = vec![Self::pure(values[0])];
        let mut k: usize = 1;
        while k < values.len()
            invariant
                1 <= k <= values@.len(),
                gens@.len() == k,
                forall|j: int| 0 <= j < k ==> lawful_gen(#[trigger] gens@[j]) && is_pure(gens@[j], values@[j]),
            decreases values.len() - k,
        {
            gens.push(Self::pure(values[k]));
            k = k + 1;
        }
        let r = Self::one_of(gens);
        proof {
            assert forall|st: RandomState, o: (T, RandomState)| produces(r, st, o) implies {
                let d = index_draw(values@.len(), st.seed);
                &&& d.0 < values@.len()
                &&& o == (values@[d.0 as int], RandomState { seed: d.1 })
            } by {
                let d = index_draw(values@.len(), st.seed);
                assert(is_pure(gens@[d.0 as int], values@[d.0 as int]));
            }
        }
        r
    }


    /// One value drawn uniformly from the half-open range `min..max`: `max` is never drawn.
    pub fn choose_range<T: Choose>(min: T, max: T) -> (r: Gen<impl Fn(RandomState) -> (T, RandomState)>)
        requires
            T::before(min, max),
        ensures
            lawful_gen(r),
            forall|st: RandomState, o: (T, RandomState)| produces(r, st, o) ==> {
                &&& o == (T::drawn(min, max, st.seed).0, RandomState { seed: T::drawn(min, max, st.seed).1 })
                &&& !T::before(o.0, min)
                &&& T::before(o.0, max)
            },
    {
        let sample = move |st: RandomState| -> (o: (T, RandomState))
            ensures
                o == (T::drawn(min, max, st.seed).0, RandomState { seed: T::drawn(min, max, st.seed).1 }),
                !T::before(o.0, min),
                T::before(o.0, max),
            {
                let (v, next) = T::draw_range(min, max, st.seed);
                (v, RandomState { seed: next })
            };
        Gen { sample }
    }

}

} // verus!
