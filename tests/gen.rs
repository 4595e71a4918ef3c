use propgen::gen::{Gen, Gens};
use propgen::rng::{PropRng, RandomState};
use propgen::sized::SGen;

fn draw<A, F: Fn(RandomState) -> (A, RandomState)>(g: &Gen<F>, s: RandomState) -> (A, RandomState) {
    (g.sample)(s)
}

fn seeds() -> Vec<(RandomState, i32)> {
    let gen = Gens::choose_range(1i32, i32::MAX / 2);
    let mut out = Vec::new();
    let mut s = RandomState::new(42);
    for _ in 0..100 {
        let (e, next) = draw(&gen, s);
        out.push((RandomState::new(e as u64), e));
        s = next;
    }
    out
}

#[test]
fn test_left_identity_law() {
    let f = |x: i32| Gens::pure(x);
    for (s, n) in seeds() {
        assert_eq!(Gens::pure(n).flat_map(f).run(s), f(n).run(s));
    }
}

#[test]
fn test_right_identity_law() {
    for (s, x) in seeds() {
        assert_eq!(Gens::pure(x).flat_map(|y: i32| Gens::pure(y)).run(s), Gens::pure(x).run(s));
    }
}

#[test]
fn test_associativity_law() {
    let f = |x: i32| Gens::pure(x * 2);
    let g = |x: i32| Gens::pure(x + 1);
    for (s, x) in seeds() {
        assert_eq!(Gens::pure(x).flat_map(f).flat_map(g).run(s), f(x).flat_map(g).run(s));
    }
}

#[test]
fn test_frequency() {
    let gens = vec![
        (1, Gens::choose_range(1, 10)),
        (1, Gens::choose_range(50, 100)),
        (1, Gens::choose_range(200, 300)),
    ];
    let gen = Gens::frequency(gens);
    let mut s = RandomState::new(7);
    for _ in 0..100 {
        let (a, next) = draw(&gen, s);
        assert!((1..=10).contains(&a) || (50..=100).contains(&a) || (200..=300).contains(&a));
        s = next;
    }
}

#[test]
fn test_frequency_values() {
    let gen = Gens::frequency_values(vec![(1, "a"), (1, "b"), (8, "c")]);
    let (mut a, mut b, mut c) = (0, 0, 0);
    let mut s = RandomState::new(11);
    for _ in 0..100 {
        let (v, next) = draw(&gen, s);
        match v {
            "a" => a += 1,
            "b" => b += 1,
            "c" => c += 1,
            _ => unreachable!(),
        }
        s = next;
    }
    assert_eq!(a + b + c, 100);
    assert!(a > 0 && b > 0 && c > 0);
}

#[test]
fn weighted_distribution_favours_the_heavy_entry() {
    let gen = Gens::frequency(vec![(1, Gens::pure('A')), (1, Gens::pure('B')), (8, Gens::pure('C'))]);
    let (mut a, mut b, mut c) = (0, 0, 0);
    let mut s = RandomState::new(2024);
    for _ in 0..1000 {
        let (v, next) = draw(&gen, s);
        match v {
            'A' => a += 1,
            'B' => b += 1,
            'C' => c += 1,
            _ => unreachable!(),
        }
        s = next;
    }
    assert_eq!(a + b + c, 1000);
    assert!(a > 0 && b > 0 && c > 0);
    assert!(c > 600);
}

#[test]
fn frequency_never_picks_zero_weight() {
    let gen = Gens::frequency_values(vec![(0, 1u8), (3, 2u8), (0, 3u8)]);
    let mut s = RandomState::new(5);
    for _ in 0..200 {
        let (v, next) = draw(&gen, s);
        assert_eq!(v, 2);
        s = next;
    }
}

#[test]
fn frequency_with_one_entry_still_advances_the_state() {
    let gen = Gens::frequency_values(vec![(4, 9u8)]);
    let s = RandomState::new(3);
    let (v, next) = draw(&gen, s);
    assert_eq!(v, 9);
    assert_ne!(next, s);
}

#[test]
fn choose_range_stays_in_half_open_range() {
    let gen = Gens::choose_range(-5i64, 5i64);
    let mut s = RandomState::new(1);
    for _ in 0..1000 {
        let (v, next) = draw(&gen, s);
        assert!(-5 <= v && v < 5);
        s = next;
    }
}

#[test]
fn choose_range_excludes_max() {
    let gen = Gens::choose_range(7u32, 8u32);
    let mut s = RandomState::new(99);
    for _ in 0..100 {
        let (v, next) = draw(&gen, s);
        assert_eq!(v, 7);
        s = next;
    }
}

#[test]
fn choose_range_covers_narrow_types() {
    let g8 = Gens::choose_range(-128i8, 127i8);
    let gu8 = Gens::choose_range(250u8, 255u8);
    let g16 = Gens::choose_range(i16::MIN, i16::MAX);
    let gu16 = Gens::choose_range(0u16, 3u16);
    let g64 = Gens::choose_range(u64::MAX - 2, u64::MAX);
    let mut s = RandomState::new(17);
    let mut seen_low = false;
    for _ in 0..1000 {
        let (a, t) = draw(&g8, s);
        assert!(a < 127);
        let (b, t) = draw(&gu8, t);
        assert!((250..255).contains(&b));
        let (c, t) = draw(&g16, t);
        assert!(c < i16::MAX);
        let (d, t) = draw(&gu16, t);
        assert!(d < 3);
        let (e, t) = draw(&g64, t);
        assert!(e >= u64::MAX - 2 && e < u64::MAX);
        if a < 0 {
            seen_low = true;
        }
        s = t;
    }
    assert!(seen_low);
}

#[test]
fn list_of_n_has_exact_length() {
    let gen = Gens::list_of_n(5, Gens::choose_range(0u8, 10u8));
    let (v, _) = draw(&gen, RandomState::new(8));
    assert_eq!(v.len(), 5);
    assert!(v.iter().all(|x| *x < 10));
    let empty = Gens::list_of_n(0, Gens::choose_range(0u8, 10u8));
    let s = RandomState::new(8);
    let (v, next) = draw(&empty, s);
    assert!(v.is_empty());
    assert_eq!(next, s);
}

#[test]
fn list_of_n_threads_the_state_in_order() {
    let g = Gens::one::<u64>();
    let gen = Gens::list_of_n(3, Gens::one::<u64>());
    let s = RandomState::new(12);
    let (a, t1) = draw(&g, s);
    let (b, t2) = draw(&g, t1);
    let (c, t3) = draw(&g, t2);
    assert_eq!(draw(&gen, s), (vec![a, b, c], t3));
}

#[test]
fn running_twice_from_one_state_agrees() {
    let gen = Gens::list_of_n(10, Gens::choose_range(0i32, 1000));
    let s = RandomState::new(31);
    assert_eq!(draw(&gen, s), draw(&gen, s.clone()));
    let one = Gens::one::<u64>();
    assert_eq!(draw(&one, s), draw(&one, s));
}

#[test]
fn different_seeds_give_different_draws() {
    let one = Gens::one::<u64>();
    let (a, sa) = draw(&one, RandomState::new(1));
    let (b, sb) = draw(&one, RandomState::new(2));
    assert_ne!(a, b);
    assert_ne!(sa, RandomState::new(1));
    assert_ne!(sa, sb);
}

#[test]
fn sized_runs_the_function_at_the_size() {
    let sg = SGen::of_sized(|n: u32| Gens::list_of_n(n as usize, Gens::choose_range(0u8, 4u8)));
    let s = RandomState::new(77);
    let expected = draw(&Gens::list_of_n(5, Gens::choose_range(0u8, 4u8)), s);
    let (v, next) = sg.run(Some(5)).run(s);
    assert_eq!(v.len(), 5);
    assert_eq!((v, next), expected);
    assert_eq!(sg.run(Some(2)).run(s).0.len(), 2);
}

#[test]
fn unsized_ignores_the_size() {
    let g = Gens::choose_range(0i32, 100);
    let s = RandomState::new(4);
    let expected = draw(&g, s);
    let sg: SGen<fn(u32) -> Gen<_>, _> = SGen::of_unsized(g);
    assert_eq!(sg.run(None).run(s), expected);
    assert_eq!(sg.run(Some(5)).run(s), expected);
    assert_eq!(sg.run(Some(1000)).run(s), expected);
}

#[test]
fn pure_and_unit_draw_nothing() {
    let s = RandomState::new(123);
    assert_eq!(Gens::pure(17u8).run(s), (17, s));
    assert_eq!(Gens::unit().run(s), ((), s));
    assert_eq!(Gens::pure_lazy(|| 3 * 7).run(s), (21, s));
}

#[test]
fn map_and_and_then_combine_values() {
    let s = RandomState::new(9);
    let (x, t) = draw(&Gens::choose_range(0i32, 50), s);
    assert_eq!(Gens::choose_range(0i32, 50).map(|v: i32| v * 3).run(s), (x * 3, t));
    let (y, u) = draw(&Gens::choose_range(100i32, 200), t);
    let both = Gens::choose_range(0i32, 50).and_then(Gens::choose_range(100i32, 200), |a: i32, b: i32| a + b);
    assert_eq!(both.run(s), (x + y, u));
}

#[test]
fn flat_map_runs_the_second_generator_on_the_left_state() {
    let s = RandomState::new(50);
    let (n, t) = draw(&Gens::choose_range(1usize as u32, 6u32), s);
    let (v, u) = draw(&Gens::list_of_n(n as usize, Gens::one::<u64>()), t);
    let gen = Gens::choose_range(1u32, 6u32).flat_map(|k: u32| Gens::list_of_n(k as usize, Gens::one::<u64>()));
    assert_eq!(gen.run(s), (v, u));
}

#[test]
fn one_of_picks_each_alternative() {
    let gen = Gens::one_of(vec![Gens::pure(1u8), Gens::pure(2u8), Gens::pure(3u8)]);
    let mut seen = [false; 3];
    let mut s = RandomState::new(6);
    for _ in 0..300 {
        let (v, next) = draw(&gen, s);
        seen[(v - 1) as usize] = true;
        s = next;
    }
    assert_eq!(seen, [true, true, true]);
    let values = Gens::one_of_values(vec!['x', 'y']);
    let (c, _) = draw(&values, RandomState::new(6));
    assert!(c == 'x' || c == 'y');
    let single = Gens::one_of_values(vec![42u64]);
    assert_eq!(draw(&single, RandomState::new(0)).0, 42);
}

#[test]
fn option_and_either_give_both_shapes() {
    let opt = Gens::option(Gens::pure(5u8));
    let eit = Gens::either(Gens::pure(1u8), Gens::pure('e'));
    let (mut none, mut some, mut ok, mut err) = (0, 0, 0, 0);
    let mut s = RandomState::new(13);
    for _ in 0..1000 {
        let (o, t) = draw(&opt, s);
        match o {
            None => none += 1,
            Some(v) => {
                assert_eq!(v, 5);
                some += 1
            },
        }
        let (e, t) = draw(&eit, t);
        match e {
            Ok(v) => {
                assert_eq!(v, 1);
                ok += 1
            },
            Err(v) => {
                assert_eq!(v, 'e');
                err += 1
            },
        }
        s = t;
    }
    assert!(none > 0 && some > none * 4);
    assert!(ok > 0 && err > 0);
    let s = RandomState::new(3);
    let (x, t) = draw(&Gens::one::<u64>(), s);
    assert_eq!(Gens::some(Gens::one::<u64>()).run(s), (Some(x), t));
}

#[test]
fn sequencer_combinators_thread_state_in_order() {
    let s = RandomState::new(21);
    let (a, t) = PropRng::gen_unfold::<u64>(&s);
    let (b, u) = PropRng::gen_unfold::<u64>(&t);
    let one = || Gens::one::<u64>().sample;
    assert_eq!(PropRng::both(one(), one())(s), ((a, b), u));
    assert_eq!(PropRng::map2(one(), one(), |x: u64, y: u64| x ^ y)(s), (a ^ b, u));
    assert_eq!(PropRng::map(one(), |x: u64| x / 2)(s), (a / 2, t));
    assert_eq!(PropRng::unit(8u8)(s), (8, s));
    assert_eq!(PropRng::sequence(vec![one(), one()])(s), (vec![a, b], u));
    assert_eq!(PropRng::sequence(Vec::<fn(RandomState) -> (u8, RandomState)>::new())(s), (vec![], s));
    assert_eq!(PropRng::flat_map(one(), |x: u64| PropRng::unit(x))(s), (a, t));
    assert_eq!(PropRng::int_value()(s), (a as i32, t));
}

#[test]
fn choose_range_on_characters_skips_nothing_valid() {
    let gen = Gens::choose_range('a', 'e');
    let mut seen = [false; 4];
    let mut s = RandomState::new(10);
    for _ in 0..400 {
        let (c, next) = draw(&gen, s);
        assert!(('a'..'e').contains(&c));
        seen[(c as u8 - b'a') as usize] = true;
        s = next;
    }
    assert_eq!(seen, [true; 4]);
    let wide = Gens::choose_range('\u{D7FF}', '\u{E001}');
    let mut s = RandomState::new(10);
    for _ in 0..200 {
        let (c, next) = draw(&wide, s);
        assert!(c == '\u{D7FF}' || c == '\u{E000}');
        s = next;
    }
}

#[test]
fn one_covers_each_primitive_type() {
    let s = RandomState::new(64);
    let (w, t) = PropRng::gen_unfold::<u64>(&s);
    assert_eq!(Gens::one::<u32>().run(s), (w as u32, t));
    assert_eq!(Gens::one::<i8>().run(s), (w as i8, t));
    assert_eq!(Gens::one::<i64>().run(s), (w as i64, t));
    assert_eq!(Gens::one::<bool>().run(s), (w % 2 == 1, t));
    let mut seen = [false; 2];
    let mut st = RandomState::new(1);
    for _ in 0..100 {
        let (b, next) = Gens::one::<bool>().run(st);
        seen[b as usize] = true;
        st = next;
    }
    assert_eq!(seen, [true, true]);
}
