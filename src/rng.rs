use vstd::prelude::*;

use crate::ranges::One;

verus! {

/// The state of the random source: a seed that is threaded through every draw.
/// Copying it and driving both copies identically gives identical results.
#[derive(Clone, Copy, Debug, PartialEq, Eq, Structural)]
pub struct RandomState {
    pub seed: u64,
}

impl RandomState {
    pub fn new(seed: u64) -> (r: RandomState)
        ensures
            r.seed == seed,
    {
        RandomState { seed }
    }
}

/// The value drawn uniformly from `lo..hi` by a generator seeded with `seed`,
/// together with the seed that the same generator yields next.
pub uninterp spec fn seeded_range_draw(seed: u64, lo: u64, hi: u64) -> (u64, u64);

/// The full-range value drawn by a generator seeded with `seed`, together with
/// the seed that the same generator yields next.
pub uninterp spec fn seeded_full_draw(seed: u64) -> (u64, u64);

/// Relies on rand's `StdRng::seed_from_u64` and `Rng::gen_range`: a ChaCha
/// generator built from `seed` draws a value in the half-open range `lo..hi`
/// (it panics on an empty range, hence `lo < hi`), then the next seed with
/// `Rng::gen`. Both depend on the arguments alone.
#[verifier::external_body]
pub(crate) fn draw_in_range(seed: u64, lo: u64, hi: u64) -> (r: (u64, u64))
    requires
        lo < hi,
    ensures
        r == seeded_range_draw(seed, lo, hi),
        lo <= r.0 < hi,
{
    let mut rng = <rand::rngs::StdRng as rand::SeedableRng>::seed_from_u64(seed);
    let v: u64 = rand::Rng::gen_range(&mut rng, lo..hi);
    let next: u64 = rand::Rng::gen(&mut rng);
    (v, next)
}

/// Relies on rand's `StdRng::seed_from_u64` and `Rng::gen`: a ChaCha generator
/// built from `seed` draws a value over the whole of `u64`, then the next seed.
/// Both depend on the argument alone.
#[verifier::external_body]
pub(crate) fn draw_full(seed: u64) -> (r: (u64, u64))
    ensures
        r == seeded_full_draw(seed),
{
    let mut rng = <rand::rngs::StdRng as rand::SeedableRng>::seed_from_u64(seed);
    let v: u64 = rand::Rng::gen(&mut rng);
    let next: u64 = rand::Rng::gen(&mut rng);
    (v, next)
}

/// The character drawn uniformly from `lo..hi` by a generator seeded with `seed`,
/// together with the seed that the same generator yields next.
pub uninterp spec fn seeded_char_draw(seed: u64, lo: char, hi: char) -> (char, u64);

/// Relies on rand's `StdRng::seed_from_u64` and `Rng::gen_range` on characters: a ChaCha
/// generator built from `seed` draws a character in the half-open range `lo..hi`, skipping the
/// surrogate gap (it panics on an empty range, hence `lo < hi`), then the next seed with
/// `Rng::gen`. Both depend on the arguments alone.
#[verifier::external_body]
pub(crate) fn draw_char_in_range(seed: u64, lo: char, hi: char) -> (r: (char, u64))
    requires
        (lo as u32) < (hi as u32),
    ensures
        r == seeded_char_draw(seed, lo, hi),
        (lo as u32) <= (r.0 as u32) < (hi as u32),
{
    let mut rng = <rand::rngs::StdRng as rand::SeedableRng>::seed_from_u64(seed);
    let v: char = rand::Rng::gen_range(&mut rng, lo..hi);
    let next: u64 = rand::Rng::gen(&mut rng);
    (v, next)
}

/// A sequencer can be run on every state.
pub open spec fn total<A, F: Fn(RandomState) -> (A, RandomState)>(f: F) -> bool {
    forall|s: RandomState| call_requires(f, (s,))
}

/// A sequencer gives at most one outcome for each state.
pub open spec fn deterministic<A, F: Fn(RandomState) -> (A, RandomState)>(f: F) -> bool {
    forall|s: RandomState, o1: (A, RandomState), o2: (A, RandomState)|
        call_ensures(f, (s,), o1) && call_ensures(f, (s,), o2) ==> o1 == o2
}

/// A sequencer that can be run on every state and is a function of it.
pub open spec fn lawful<A, F: Fn(RandomState) -> (A, RandomState)>(f: F) -> bool {
    total(f) && deterministic(f)
}

/// A function that can be applied to every argument and is a function of it.
pub open spec fn pure_fn<A, B, F: Fn(A) -> B>(f: F) -> bool {
    &&& forall|a: A| call_requires(f, (a,))
    &&& forall|a: A, b1: B, b2: B| call_ensures(f, (a,), b1) && call_ensures(f, (a,), b2) ==> b1 == b2
}

/// Any outcome of `f` on a state equals any outcome of `g` on that same state: the two
/// sequencers behave alike, whatever values they are.
pub open spec fn agree<A, F, G>(f: F, g: G) -> bool
    where
        F: Fn(RandomState) -> (A, RandomState),
        G: Fn(RandomState) -> (A, RandomState),
{
    forall|s: RandomState, o1: (A, RandomState), o2: (A, RandomState)|
        #[trigger] call_ensures(f, (s,), o1) && #[trigger] call_ensures(g, (s,), o2) ==> o1 == o2
}

/// A function from values to sequencers that can be applied to every value, whose results
/// are lawful, and whose results for one value behave alike.
pub open spec fn seq_fn<A, B, G, H>(g: G) -> bool
    where
        G: Fn(A) -> H,
        H: Fn(RandomState) -> (B, RandomState),
{
    &&& forall|a: A| call_requires(g, (a,))
    &&& forall|a: A, h: H| #[trigger] call_ensures(g, (a,), h) ==> lawful(h)
    &&& forall|a: A, h1: H, h2: H|
        #[trigger] call_ensures(g, (a,), h1) && #[trigger] call_ensures(g, (a,), h2) ==> agree(h1, h2)
}

/// A function from values to sequencers that can be applied to every value and whose results
/// can be run on every state.
pub open spec fn seq_fn_total<A, B, G, H>(g: G) -> bool
    where
        G: Fn(A) -> H,
        H: Fn(RandomState) -> (B, RandomState),
{
    &&& forall|a: A| call_requires(g, (a,))
    &&& forall|a: A, h: H| #[trigger] call_ensures(g, (a,), h) ==> total(h)
}

/// A function of two arguments that can be applied everywhere and is a function of them.
pub open spec fn pure_fn2<A, B, C, F: Fn(A, B) -> C>(f: F) -> bool {
    &&& forall|a: A, b: B| call_requires(f, (a, b))
    &&& forall|a: A, b: B, c1: C, c2: C|
        call_ensures(f, (a, b), c1) && call_ensures(f, (a, b), c2) ==> c1 == c2
}


/// The combinators over sequencers: functions from a state to a value and the next state.
pub struct PropRng;

impl PropRng {
    /// A sequencer that returns `a` and leaves the state untouched.
    pub fn unit<A: Copy>(a: A) -> (r: impl Fn(RandomState) -> (A, RandomState))
        ensures
            lawful(r),
            forall|s: RandomState, o: (A, RandomState)| call_ensures(r, (s,), o) ==> o == (a, s),
    {
        move |s: RandomState| -> (o: (A, RandomState))
            ensures
                o == (a, s),
            { (a, s) }
    }

    /// Runs `s0`, then applies `f` to its value; the state comes from `s0`.
    pub fn map<A, B, S0, F>(s0: S0, f: F) -> (r: impl Fn(RandomState) -> (B, RandomState))
        where
            S0: Fn(RandomState) -> (A, RandomState),
            F: Fn(A) -> B,
        requires
            total(s0),
            forall|a: A| call_requires(f, (a,)),
        ensures
            total(r),
            lawful(s0) && pure_fn(f) ==> lawful(r),
            forall|st: RandomState, o: (B, RandomState)| call_ensures(r, (st,), o) ==>
                exists|a: A, t: RandomState| #[trigger] call_ensures(s0, (st,), (a, t)) && o.1 == t && call_ensures(f, (a,), o.0),
    {
        let gs: Ghost<S0> = Ghost(s0);
        let gf: Ghost<F> = Ghost(f);
        let r = move |st: RandomState| -> (o: (B, RandomState))
            ensures
                exists|a: A, t: RandomState| #[trigger] call_ensures(gs@, (st,), (a, t)) && o.1 == t && call_ensures(gf@, (a,), o.0),
            {
                let (a, t) = s0(st);
                let b = f(a);
                assert(call_ensures(gs@, (st,), (a, t)) && call_ensures(gf@, (a,), b));
                (b, t)
            };
        r
    }
    /// Runs `ra`, then `rb` on the state that `ra` left, and combines their values with `f`.
    pub fn map2<A, B, C, RA, RB, F>(ra: RA, rb: RB, f: F) -> (r: impl Fn(RandomState) -> (C, RandomState))
        where
            RA: Fn(RandomState) -> (A, RandomState),
            RB: Fn(RandomState) -> (B, RandomState),
            F: Fn(A, B) -> C,
        requires
            total(ra),
            total(rb),
            forall|a: A, b: B| call_requires(f, (a, b)),
        ensures
            total(r),
            lawful(ra) && lawful(rb) && pure_fn2(f) ==> lawful(r),
            forall|st: RandomState, o: (C, RandomState)| call_ensures(r, (st,), o) ==>
                exists|a: A, t: RandomState, b: B, u: RandomState|
                    #[trigger] call_ensures(ra, (st,), (a, t)) && #[trigger] call_ensures(rb, (t,), (b, u))
                        && o.1 == u && call_ensures(f, (a, b), o.0),
    {
        let ga: Ghost<RA> = Ghost(ra);
        let gb: Ghost<RB> = Ghost(rb);
        let gf: Ghost<F> = Ghost(f);
        move |st: RandomState| -> (o: (C, RandomState))
            ensures
                exists|a: A, t: RandomState, b: B, u: RandomState|
                    #[trigger] call_ensures(ga@, (st,), (a, t)) && #[trigger] call_ensures(gb@, (t,), (b, u))
                        && o.1 == u && call_ensures(gf@, (a, b), o.0),
            {
                let (a, t) = ra(st);
                let (b, u) = rb(t);
                let c = f(a, b);
                assert(call_ensures(ga@, (st,), (a, t)) && call_ensures(gb@, (t,), (b, u)));
                (c, u)
            }
    }

    /// Runs `ra`, then `rb`, and pairs their values.
    pub fn both<A, B, RA, RB>(ra: RA, rb: RB) -> (r: impl Fn(RandomState) -> ((A, B), RandomState))
        where
            RA: Fn(RandomState) -> (A, RandomState),
            RB: Fn(RandomState) -> (B, RandomState),
        requires
            total(ra),
            total(rb),
        ensures
            total(r),
            lawful(ra) && lawful(rb) ==> lawful(r),
            forall|st: RandomState, o: ((A, B), RandomState)| call_ensures(r, (st,), o) ==>
                exists|a: A, t: RandomState, b: B, u: RandomState|
                    #[trigger] call_ensures(ra, (st,), (a, t)) && #[trigger] call_ensures(rb, (t,), (b, u))
                        && o == ((a, b), u),
    {
        let ga: Ghost<RA> = Ghost(ra);
        let gb: Ghost<RB> = Ghost(rb);
        move |st: RandomState| -> (o: ((A, B), RandomState))
            ensures
                exists|a: A, t: RandomState, b: B, u: RandomState|
                    #[trigger] call_ensures(ga@, (st,), (a, t)) && #[trigger] call_ensures(gb@, (t,), (b, u))
                        && o == ((a, b), u),
            {
                let (a, t) = ra(st);
                let (b, u) = rb(t);
                assert(call_ensures(ga@, (st,), (a, t)) && call_ensures(gb@, (t,), (b, u)));
                ((a, b), u)
            }
    }

    /// Runs `f`, then the sequencer that `g` makes of its value, on the state that `f` left.
    pub fn flat_map<A, B, F, G, H>(f: F, g: G) -> (r: impl Fn(RandomState) -> (B, RandomState))
        where
            F: Fn(RandomState) -> (A, RandomState),
            G: Fn(A) -> H,
            H: Fn(RandomState) -> (B, RandomState),
        requires
            total(f),
            seq_fn_total::<A, B, G, H>(g),
        ensures
            total(r),
            lawful(f) && seq_fn::<A, B, G, H>(g) ==> lawful(r),
            forall|st: RandomState, o: (B, RandomState)| call_ensures(r, (st,), o) ==>
                exists|a: A, t: RandomState, h: H|
                    #[trigger] call_ensures(f, (st,), (a, t)) && #[trigger] call_ensures(g, (a,), h)
                        && call_ensures(h, (t,), o),
    {
        let gf: Ghost<F> = Ghost(f);
        let gg: Ghost<G> = Ghost(g);
        let r = move |st: RandomState| -> (o: (B, RandomState))
            ensures
                exists|a: A, t: RandomState, h: H|
                    #[trigger] call_ensures(gf@, (st,), (a, t)) && #[trigger] call_ensures(gg@, (a,), h)
                        && call_ensures(h, (t,), o),
            {
                let (a, t) = f(st);
                let h = g(a);
                let o = h(t);
                assert(call_ensures(gf@, (st,), (a, t)) && call_ensures(gg@, (a,), h));
                o
            };
        proof {
            assert forall|st: RandomState, o1: (B, RandomState), o2: (B, RandomState)|
                lawful(f) && seq_fn::<A, B, G, H>(g) && call_ensures(r, (st,), o1) && call_ensures(r, (st,), o2)
                implies o1 == o2 by {
                let (a1, t1, h1) = choose|a: A, t: RandomState, h: H|
                    #[trigger] call_ensures(f, (st,), (a, t)) && #[trigger] call_ensures(g, (a,), h)
                        && call_ensures(h, (t,), o1);
                let (a2, t2, h2) = choose|a: A, t: RandomState, h: H|
                    #[trigger] call_ensures(f, (st,), (a, t)) && #[trigger] call_ensures(g, (a,), h)
                        && call_ensures(h, (t,), o2);
                assert((a1, t1) == (a2, t2));
                assert(agree(h1, h2));
            }
        }
        r
    }

    /// Runs the sequencers of `fs` in order, each on the state that the one before left,
    /// and collects their values in that order.
    pub fn sequence<A, F>(fs: Vec<F>) -> (r: impl Fn(RandomState) -> (Vec<A>, RandomState))
        where
            F: Fn(RandomState) -> (A, RandomState),
        requires
            forall|i: int| 0 <= i < fs@.len() ==> total(#[trigger] fs@[i]),
        ensures
            total(r),
            (forall|i: int| 0 <= i < fs@.len() ==> lawful(#[trigger] fs@[i])) ==>
                forall|st: RandomState, o1: (Vec<A>, RandomState), o2: (Vec<A>, RandomState)|
                    call_ensures(r, (st,), o1) && call_ensures(r, (st,), o2) ==> o1.0@ == o2.0@ && o1.1 == o2.1,
            forall|st: RandomState, o: (Vec<A>, RandomState)| call_ensures(r, (st,), o) ==> {
                &&& runs_in_order(fs@, st, o.0@, o.1)
                &&& o.0@.len() == fs@.len()
                &&& fs@.len() == 0 ==> o.1 == st
            },
    {
        let gfs: Ghost<Seq<F>> = Ghost(fs@);
        let r = move |st: RandomState| -> (o: (Vec<A>, RandomState))
            ensures
                runs_in_order(gfs@, st, o.0@, o.1),
                o.0@.len() == gfs@.len(),
                gfs@.len() == 0 ==> o.1 == st,
            {
                let mut vals: Vec<A> = Vec::new();
                let mut cur = st;
                let mut i: usize = 0;
                let ghost mut states: Seq<RandomState> = seq![st];
                while i < fs.len()
                    invariant
                        gfs@ == fs@,
                        forall|j: int| 0 <= j < fs@.len() ==> total(#[trigger] fs@[j]),
                        0 <= i <= fs.len(),
                        vals@.len() == i,
                        states.len() == i + 1,
                        states[0] == st,
                        states[i as int] == cur,
                        forall|j: int| 0 <= j < i ==> call_ensures(#[trigger] fs@[j], (states[j],), (vals@[j], states[j + 1])),
                    decreases fs.len() - i,
                {
                    assert(total(fs@[i as int]));
                    let (a, t) = (fs[i])(cur);
                    proof { states = states.push(t); }
                    vals.push(a);
                    cur = t;
                    i = i + 1;
                }
                assert(chained(gfs@, states, vals@));
                (vals, cur)
            };
        proof {
            if forall|i: int| 0 <= i < fs@.len() ==> lawful(#[trigger] fs@[i]) {
                lemma_runs_in_order_deterministic(fs@);
            }
        }
        r
    }

    /// A full-range integer, drawn once.
    pub fn int_value() -> (r: impl Fn(RandomState) -> (i32, RandomState))
        ensures
            lawful(r),
            forall|st: RandomState, o: (i32, RandomState)| call_ensures(r, (st,), o) ==>
                o == (seeded_full_draw(st.seed).0 as i32, RandomState { seed: seeded_full_draw(st.seed).1 }),
    {
        move |st: RandomState| -> (o: (i32, RandomState))
            ensures
                o == (seeded_full_draw(st.seed).0 as i32, RandomState { seed: seeded_full_draw(st.seed).1 }),
            {
                let (v, next) = draw_full(st.seed);
                (v as i32, RandomState { seed: next })
            }
    }

    /// Draws one full-range value from `state` and returns it with the next state.
    pub fn gen_unfold<T: One>(state: &RandomState) -> (r: (T, RandomState))
        ensures
            r == (T::from_word(seeded_full_draw(state.seed).0), RandomState { seed: seeded_full_draw(state.seed).1 }),
    {
        let (v, next) = draw_full(state.seed);
        (T::of_word(v), RandomState { seed: next })
    }
}

/// Running the sequencers `fs` in order from `st` can give the values `vals` and end in `end`:
/// there are states `st = s0, s1, ..., sn = end` such that `fs[i]` run on `si` gives `vals[i]` and `s(i+1)`.
pub open spec fn runs_in_order<A, F: Fn(RandomState) -> (A, RandomState)>(
    fs: Seq<F>,
    st: RandomState,
    vals: Seq<A>,
    end: RandomState,
) -> bool {
    exists|states: Seq<RandomState>| #[trigger] chained(fs, states, vals) && states[0] == st
        && states.last() == end
}

/// `states` has one more entry than `fs`, and `fs[i]` run on `states[i]` gives `vals[i]` and `states[i + 1]`.
pub open spec fn chained<A, F: Fn(RandomState) -> (A, RandomState)>(
    fs: Seq<F>,
    states: Seq<RandomState>,
    vals: Seq<A>,
) -> bool {
    &&& states.len() == fs.len() + 1
    &&& vals.len() == fs.len()
    &&& forall|j: int| 0 <= j < fs.len() ==> call_ensures(#[trigger] fs[j], (states[j],), (vals[j], states[j + 1]))
}

/// Deterministic sequencers run in order from one state give one outcome.
pub proof fn lemma_runs_in_order_deterministic<A, F: Fn(RandomState) -> (A, RandomState)>(fs: Seq<F>)
    requires
        forall|i: int| 0 <= i < fs.len() ==> lawful(#[trigger] fs[i]),
    ensures
        forall|st: RandomState, v1: Seq<A>, e1: RandomState, v2: Seq<A>, e2: RandomState|
            runs_in_order(fs, st, v1, e1) && runs_in_order(fs, st, v2, e2) ==> v1 == v2 && e1 == e2,
{
    assert forall|st: RandomState, v1: Seq<A>, e1: RandomState, v2: Seq<A>, e2: RandomState|
        runs_in_order(fs, st, v1, e1) && runs_in_order(fs, st, v2, e2) implies v1 == v2 && e1 == e2 by {
        let s1 = choose|s: Seq<RandomState>| #[trigger] chained(fs, s, v1) && s[0] == st && s.last() == e1;
        let s2 = choose|s: Seq<RandomState>| #[trigger] chained(fs, s, v2) && s[0] == st && s.last() == e2;
        lemma_chained_agree(fs, s1, v1, s2, v2, fs.len() as int);
        assert(v1 =~= v2);
    }
}

/// Two chains of the same deterministic sequencers from one state agree on their first `k` steps.
proof fn lemma_chained_agree<A, F: Fn(RandomState) -> (A, RandomState)>(
    fs: Seq<F>,
    s1: Seq<RandomState>,
    v1: Seq<A>,
    s2: Seq<RandomState>,
    v2: Seq<A>,
    k: int,
)
    requires
        forall|i: int| 0 <= i < fs.len() ==> lawful(#[trigger] fs[i]),
        chained(fs, s1, v1),
        chained(fs, s2, v2),
        s1[0] == s2[0],
        0 <= k <= fs.len(),
    ensures
        forall|j: int| 0 <= j <= k ==> s1[j] == s2[j],
        forall|j: int| 0 <= j < k ==> v1[j] == v2[j],
    decreases k,
{
    if k > 0 {
        lemma_chained_agree(fs, s1, v1, s2, v2, k - 1);
        let j = k - 1;
        assert(lawful(fs[j]));
        assert(call_ensures(fs[j], (s1[j],), (v1[j], s1[j + 1])));
        assert(call_ensures(fs[j], (s2[j],), (v2[j], s2[j + 1])));
    }
}

} // verus!
