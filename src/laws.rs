use vstd::prelude::*;

use crate::gen::{agree_gen, gen_fn, is_flat_map, is_pure, lawful_gen, produces, Gen};
use crate::rng::RandomState;

verus! {

/// Left identity: binding the constant generator of `x` to `f` runs exactly as `f(x)` does,
/// from every state.
pub proof fn law_left_identity<A, B, P, G, H, R>(x: A, p: Gen<P>, f: G, lhs: Gen<R>)
    where
        P: Fn(RandomState) -> (A, RandomState),
        G: Fn(A) -> Gen<H>,
        H: Fn(RandomState) -> (B, RandomState),
        R: Fn(RandomState) -> (B, RandomState),
    requires
        is_pure(p, x),
        gen_fn::<A, G, H, B>(f),
        is_flat_map(lhs, p, f),
    ensures
        forall|st: RandomState, o1: (B, RandomState), h: Gen<H>, o2: (B, RandomState)|
            #[trigger] produces(lhs, st, o1) && #[trigger] call_ensures(f, (x,), h) && #[trigger] produces(h, st, o2)
                ==> o1 == o2,
{
    assert forall|st: RandomState, o1: (B, RandomState), h: Gen<H>, o2: (B, RandomState)|
        #[trigger] produces(lhs, st, o1) && #[trigger] call_ensures(f, (x,), h) && #[trigger] produces(h, st, o2)
        implies o1 == o2 by {
        let (a, t, h1) = choose|a: A, t: RandomState, h1: Gen<H>|
            #[trigger] call_ensures(p.sample, (st,), (a, t)) && #[trigger] call_ensures(f, (a,), h1)
                && produces(h1, t, o1);
        assert(produces(p, st, (a, t)));
        assert((a, t) == (x, st));
        assert(agree_gen(h1, h));
    }
}

/// Right identity: binding `g` to a function that makes the constant generator of each value
/// runs exactly as `g` does, from every state.
pub proof fn law_right_identity<A, F, K, P, R>(g: Gen<F>, k: K, rhs: Gen<R>)
    where
        F: Fn(RandomState) -> (A, RandomState),
        K: Fn(A) -> Gen<P>,
        P: Fn(RandomState) -> (A, RandomState),
        R: Fn(RandomState) -> (A, RandomState),
    requires
        lawful_gen(g),
        forall|a: A, q: Gen<P>| #[trigger] call_ensures(k, (a,), q) ==> is_pure(q, a),
        is_flat_map(rhs, g, k),
    ensures
        forall|st: RandomState, o1: (A, RandomState), o2: (A, RandomState)|
            #[trigger] produces(rhs, st, o1) && #[trigger] produces(g, st, o2) ==> o1 == o2,
{
    assert forall|st: RandomState, o1: (A, RandomState), o2: (A, RandomState)|
        #[trigger] produces(rhs, st, o1) && #[trigger] produces(g, st, o2) implies o1 == o2 by {
        let (a, t, q) = choose|a: A, t: RandomState, q: Gen<P>|
            #[trigger] call_ensures(g.sample, (st,), (a, t)) && #[trigger] call_ensures(k, (a,), q)
                && produces(q, t, o1);
        assert(is_pure(q, a));
        assert(o1 == (a, t));
    }
}

/// Associativity: binding `g` to `f` and the result to `h` runs exactly as binding `g` (or a
/// generator `g2` that behaves as `g` does) to the function `k` that binds `f(x)` to `h` for
/// each `x`, from every state.
pub proof fn law_associativity<A, B, C, F, F2, G, H, I, J, M, L, K, KH, R>(
    g: Gen<F>,
    g2: Gen<F2>,
    f: G,
    h: I,
    m: Gen<M>,
    lhs: Gen<L>,
    k: K,
    rhs: Gen<R>,
)
    where
        F: Fn(RandomState) -> (A, RandomState),
        F2: Fn(RandomState) -> (A, RandomState),
        G: Fn(A) -> Gen<H>,
        H: Fn(RandomState) -> (B, RandomState),
        I: Fn(B) -> Gen<J>,
        J: Fn(RandomState) -> (C, RandomState),
        M: Fn(RandomState) -> (B, RandomState),
        L: Fn(RandomState) -> (C, RandomState),
        K: Fn(A) -> Gen<KH>,
        KH: Fn(RandomState) -> (C, RandomState),
        R: Fn(RandomState) -> (C, RandomState),
    requires
        lawful_gen(g),
        agree_gen(g, g2),
        gen_fn::<A, G, H, B>(f),
        gen_fn::<B, I, J, C>(h),
        is_flat_map(m, g, f),
        is_flat_map(lhs, m, h),
        forall|x: A, kx: Gen<KH>| #[trigger] call_ensures(k, (x,), kx) ==>
            exists|fx: Gen<H>| #[trigger] call_ensures(f, (x,), fx) && is_flat_map(kx, fx, h),
        is_flat_map(rhs, g2, k),
    ensures
        forall|st: RandomState, o1: (C, RandomState), o2: (C, RandomState)|
            #[trigger] produces(lhs, st, o1) && #[trigger] produces(rhs, st, o2) ==> o1 == o2,
{
    assert forall|st: RandomState, o1: (C, RandomState), o2: (C, RandomState)|
        #[trigger] produces(lhs, st, o1) && #[trigger] produces(rhs, st, o2) implies o1 == o2 by {
        let (b, u, hb) = choose|b: B, u: RandomState, hb: Gen<J>|
            #[trigger] call_ensures(m.sample, (st,), (b, u)) && #[trigger] call_ensures(h, (b,), hb)
                && produces(hb, u, o1);
        assert(produces(m, st, (b, u)));
        let (a, t, fa) = choose|a: A, t: RandomState, fa: Gen<H>|
            #[trigger] call_ensures(g.sample, (st,), (a, t)) && #[trigger] call_ensures(f, (a,), fa)
                && produces(fa, t, (b, u));
        let (a2, t2, kx) = choose|a2: A, t2: RandomState, kx: Gen<KH>|
            #[trigger] call_ensures(g2.sample, (st,), (a2, t2)) && #[trigger] call_ensures(k, (a2,), kx)
                && produces(kx, t2, o2);
        assert((a2, t2) == (a, t));
        let fx = choose|fx: Gen<H>| #[trigger] call_ensures(f, (a,), fx) && is_flat_map(kx, fx, h);
        assert(agree_gen(fx, fa));
        let (b2, u2, hb2) = choose|b2: B, u2: RandomState, hb2: Gen<J>|
            #[trigger] call_ensures(fx.sample, (t,), (b2, u2)) && #[trigger] call_ensures(h, (b2,), hb2)
                && produces(hb2, u2, o2);
        assert((b2, u2) == (b, u));
        assert(agree_gen(hb2, hb));
    }
}

/// Binding two generators that behave alike to one function gives two generators that
/// behave alike.
pub proof fn lemma_flat_maps_agree<A, B, F1, F2, G, H, R1, R2>(
    g1: Gen<F1>,
    g2: Gen<F2>,
    f: G,
    r1: Gen<R1>,
    r2: Gen<R2>,
)
    where
        F1: Fn(RandomState) -> (A, RandomState),
        F2: Fn(RandomState) -> (A, RandomState),
        G: Fn(A) -> Gen<H>,
        H: Fn(RandomState) -> (B, RandomState),
        R1: Fn(RandomState) -> (B, RandomState),
        R2: Fn(RandomState) -> (B, RandomState),
    requires
        agree_gen(g1, g2),
        gen_fn::<A, G, H, B>(f),
        is_flat_map(r1, g1, f),
        is_flat_map(r2, g2, f),
    ensures
        agree_gen(r1, r2),
{
    assert forall|st: RandomState, o1: (B, RandomState), o2: (B, RandomState)|
        #[trigger] call_ensures(r1.sample, (st,), o1) && #[trigger] call_ensures(r2.sample, (st,), o2)
        implies o1 == o2 by {
        assert(produces(r1, st, o1));
        assert(produces(r2, st, o2));
        let (a1, t1, h1) = choose|a: A, t: RandomState, h: Gen<H>|
            #[trigger] call_ensures(g1.sample, (st,), (a, t)) && #[trigger] call_ensures(f, (a,), h)
                && produces(h, t, o1);
        let (a2, t2, h2) = choose|a: A, t: RandomState, h: Gen<H>|
            #[trigger] call_ensures(g2.sample, (st,), (a, t)) && #[trigger] call_ensures(f, (a,), h)
                && produces(h, t, o2);
        assert((a1, t1) == (a2, t2));
        assert(agree_gen(h1, h2));
    }
}

/// Determinism: running a lawful generator twice from the same state gives the same value and
/// the same next state.
pub proof fn law_determinism<A, F>(g: Gen<F>, st: RandomState)
    where
        F: Fn(RandomState) -> (A, RandomState),
    requires
        lawful_gen(g),
    ensures
        forall|o1: (A, RandomState), o2: (A, RandomState)|
            #[trigger] produces(g, st, o1) && #[trigger] produces(g, st, o2) ==> o1 == o2,
{
}

} // verus!
