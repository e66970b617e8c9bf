use rand::Rng;
use valence::paletted_container::PalettedContainer;

const LEN: usize = 100;

fn check<const N: usize, const H: usize>(p: &PalettedContainer<N, H>, s: &[u32]) -> bool {
    assert_eq!(s.len(), N);
    (0..N).all(|i| p.get(i) == s[i])
}

#[test]
fn paletted_container_random_assignments() {
    let range = 0..64;

    let mut rng = rand::thread_rng();

    for _ in 0..20 {
        let mut p = PalettedContainer::<LEN, { LEN / 2 }>::new();

        let init = rng.gen_range(range.clone());

        p.fill(init);
        let mut a = [init; LEN];

        assert!(check(&p, &a));

        let mut rng = rand::thread_rng();

        for _ in 0..LEN * 10 {
            let idx = rng.gen_range(0..LEN);
            let val = rng.gen_range(range.clone());

            assert_eq!(p.get(idx), p.set(idx, val));
            assert_eq!(val, p.get(idx));
            a[idx] = val;

            p.optimize();

            assert!(check(&p, &a));
        }
    }
}

#[test]
fn new_container_holds_zeros() {
    let p = PalettedContainer::<LEN, { LEN / 2 }>::new();
    assert!(check(&p, &[0; LEN]));
}

#[test]
fn set_returns_previous_value() {
    let mut p = PalettedContainer::<5, 3>::new();
    assert_eq!(p.set(4, 7), 0);
    assert_eq!(p.set(4, 9), 7);
    assert_eq!(p.set(0, 0), 0);
    assert!(check(&p, &[0, 0, 0, 0, 9]));
}

#[test]
fn grows_past_sixteen_values_and_shrinks_back() {
    let mut p = PalettedContainer::<40, 20>::new();
    let mut a = [0u32; 40];
    for i in 0..40 {
        a[i] = i as u32 * 3 + 1;
        p.set(i, a[i]);
    }
    assert!(check(&p, &a));
    p.optimize();
    assert!(check(&p, &a));
    for i in 0..40 {
        a[i] = (i % 5) as u32;
        p.set(i, a[i]);
    }
    assert!(check(&p, &a));
    p.optimize();
    assert!(check(&p, &a));
    p.fill(11);
    p.optimize();
    assert!(check(&p, &[11; 40]));
}

#[test]
fn optimize_keeps_values_of_single_valued_palette() {
    let mut p = PalettedContainer::<7, 4>::new();
    p.set(3, 5);
    p.set(3, 0);
    p.optimize();
    assert!(check(&p, &[0; 7]));
    p.set(6, 2);
    p.optimize();
    assert!(check(&p, &[0, 0, 0, 0, 0, 0, 2]));
}

#[test]
fn optimize_makes_a_lone_value_single() {
    let mut p = PalettedContainer::<7, 4>::new();
    p.set(3, 5);
    assert_eq!(p.single(), None);
    p.set(3, 0);
    assert_eq!(p.single(), None);
    p.optimize();
    assert_eq!(p.single(), Some(0));

    // Values in full that all turn out equal become one repeated value.
    let mut q = PalettedContainer::<20, 10>::new();
    for i in 0..20 {
        q.set(i, i as u32 + 1);
    }
    for i in 0..20 {
        q.set(i, 9);
    }
    q.optimize();
    assert_eq!(q.single(), Some(9));
}
