use rquest_rb::rng::{XorShiftRng, fast_random};

#[test]
fn seeded_sequence_is_deterministic() {
    let mut a = XorShiftRng::from_seed(0xDEADBEEF);
    let mut b = XorShiftRng::from_seed(0xDEADBEEF);
    for _ in 0..100 {
        assert_eq!(fast_random(&mut a), fast_random(&mut b));
    }
}

#[test]
fn seeded_sequence_exact_values() {
    let mut rng = XorShiftRng::from_seed(1);
    assert_eq!(fast_random(&mut rng), 5180492295206395165u64);
    assert_eq!(fast_random(&mut rng), 12380297144915551517u64);
    assert_eq!(fast_random(&mut rng), 13389498078930870103u64);
}

#[test]
fn different_seeds_give_different_draws() {
    let mut a = XorShiftRng::from_seed(1);
    let mut b = XorShiftRng::from_seed(2);
    assert_ne!(fast_random(&mut a), fast_random(&mut b));
}

#[test]
fn fresh_generators_are_not_all_alike() {
    let mut firsts = Vec::new();
    for _ in 0..8 {
        let mut rng = XorShiftRng::new();
        firsts.push(fast_random(&mut rng));
    }
    let first = firsts[0];
    assert!(
        firsts.iter().any(|&v| v != first),
        "eight freshly seeded generators all produced {first}"
    );
}
