use spooky_world::randomiser::PositionRandomiser;

#[test]
fn seed_reads_back() {
    let mut r = PositionRandomiser::with_seed(42);
    assert_eq!(r.seed(), 42);
    r.reseed(7);
    assert_eq!(r.seed(), 7);
}

#[test]
fn update_seed_draws_fresh_seeds() {
    let mut r = PositionRandomiser::with_seed(0);
    let mut seen = Vec::new();
    for _ in 0..4 {
        r.update_seed();
        seen.push(r.seed());
    }
    seen.sort();
    seen.dedup();
    assert!(seen.len() > 1);
}

#[test]
fn fresh_randomisers_differ() {
    let a = PositionRandomiser::new();
    let b = PositionRandomiser::new();
    let c = PositionRandomiser::new();
    assert!(a.seed() != b.seed() || b.seed() != c.seed());
}
