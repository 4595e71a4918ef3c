use vstd::prelude::*;

use crate::gen::{agree_gen, lawful_gen, produces, Gen};
use crate::rng::{total, RandomState};

verus! {

/// A generator that may depend on a size: either a function from a size to a generator,
/// invoked each time the generator is run with a size, or a generator that ignores the size.
#[derive(Clone)]
pub enum SGen<H, G> {
    Sized(H),
    Unsized(Gen<G>),
}

/// `f` can be applied to `n`, gives a lawful generator for it, and the generators it gives
/// for `n` behave alike.
pub open spec fn sized_at<A, H, G>(f: H, n: u32) -> bool
    where
        H: Fn(u32) -> Gen<G>,
        G: Fn(RandomState) -> (A, RandomState),
{
    &&& call_requires(f, (n,))
    &&& forall|g1: Gen<G>, g2: Gen<G>|
        #[trigger] call_ensures(f, (n,), g1) && #[trigger] call_ensures(f, (n,), g2) ==> agree_gen(g1, g2)
    &&& forall|g: Gen<G>| call_ensures(f, (n,), g) ==> lawful_gen(g)
}

/// `f` can be applied to `n` and gives a generator that can be run on every state.
pub open spec fn sized_total_at<A, H, G>(f: H, n: u32) -> bool
    where
        H: Fn(u32) -> Gen<G>,
        G: Fn(RandomState) -> (A, RandomState),
{
    &&& call_requires(f, (n,))
    &&& forall|g: Gen<G>| #[trigger] call_ensures(f, (n,), g) ==> total(g.sample)
}

impl<H, G> SGen<H, G> {
    /// A generator made by `f` from the size it is run with.
    pub fn of_sized(f: H) -> (r: SGen<H, G>)
        ensures
            r == SGen::<H, G>::Sized(f),
    {
        SGen::Sized(f)
    }

    /// A generator that ignores any size.
    pub fn of_unsized(gen: Gen<G>) -> (r: SGen<H, G>)
        ensures
            r == SGen::<H, G>::Unsized(gen),
    {
        SGen::Unsized(gen)
    }

    /// The generator for size `i`: `f(i)` for a sized one, which needs a size; the stored
    /// generator for an unsized one, whatever `i` is.
    pub fn run<'a, A>(&'a self, i: Option<u32>) -> (r: Gen<impl Fn(RandomState) -> (A, RandomState) + 'a>)
        where
            H: Fn(u32) -> Gen<G>,
            G: Fn(RandomState) -> (A, RandomState),
        requires
            match *self {
                SGen::Sized(f) => i.is_some() && sized_total_at(f, i.unwrap()),
                SGen::Unsized(g) => total(g.sample),
            },
        ensures
            total(r.sample),
            match *self {
                SGen::Sized(f) => sized_at(f, i.unwrap()),
                SGen::Unsized(g) => lawful_gen(g),
            } ==> lawful_gen(r),
            forall|st: RandomState, o: (A, RandomState)| produces(r, st, o) ==> match *self {
                SGen::Sized(f) => exists|g: Gen<G>| #[trigger] call_ensures(f, (i.unwrap(),), g) && produces(g, st, o),
                SGen::Unsized(g) => produces(g, st, o),
            },
    {
        let me: Ghost<SGen<H, G>> = Ghost(*self);
        let sample = move |st: RandomState| -> (o: (A, RandomState))
            ensures
                match me@ {
                    SGen::Sized(f) => exists|g: Gen<G>| #[trigger] call_ensures(f, (i.unwrap(),), g)
                        && call_ensures(g.sample, (st,), o),
                    SGen::Unsized(g) => call_ensures(g.sample, (st,), o),
                },
            {
                match self {
                    SGen::Sized(f) => {
                        let n = i.unwrap();
                        let g = f(n);
                        assert(total(g.sample));
                        (g.sample)(st)
                    },
                    SGen::Unsized(g) => (g.sample)(st),
                }
            };
        proof {
            assert forall|st: RandomState, o1: (A, RandomState), o2: (A, RandomState)|
                match *self {
                    SGen::Sized(f) => sized_at(f, i.unwrap()),
                    SGen::Unsized(g) => lawful_gen(g),
                } && call_ensures(sample, (st,), o1) && call_ensures(sample, (st,), o2) implies o1 == o2 by {
                match *self {
                    SGen::Sized(f) => {
                        let n = i.unwrap();
                        let g1 = choose|g: Gen<G>| #[trigger] call_ensures(f, (n,), g) && call_ensures(g.sample, (st,), o1);
                        let g2 = choose|g: Gen<G>| #[trigger] call_ensures(f, (n,), g) && call_ensures(g.sample, (st,), o2);
                        assert(agree_gen(g1, g2));
                    },
                    SGen::Unsized(g) => {},
                }
            }
        }
        Gen { sample }
    }
}

} // verus!
