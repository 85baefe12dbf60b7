use quotes_ctl::rng::Rng;

#[test]
fn same_seed_gives_same_draws() {
    let mut a = Rng::new(42);
    let mut b = Rng::new(42);
    for _ in 0..1000 {
        assert_eq!(a.next_u64(), b.next_u64());
    }
}

#[test]
fn seed_42_draws_known_values() {
    let mut r = Rng::new(42);
    assert_eq!(r.next_u64(), 45454805674);
    assert_eq!(r.next_u64(), 11532217803599905471);
    assert_eq!(r.next_u64(), 10021416941527320954);
}

#[test]
fn zero_seed_with_zero_clock_starts_from_one() {
    let mut r = Rng::with_clock(0, 0);
    assert_eq!(r.next_u64(), 1082269761);
}

#[test]
fn zero_seed_never_freezes() {
    let mut r = Rng::new(0);
    for _ in 0..1000 {
        assert_ne!(r.next_u64(), 0);
    }
}

#[test]
fn unit_draw_stays_below_one() {
    let mut r = Rng::new(7);
    for _ in 0..10000 {
        let u = r.next_unit();
        assert!(u < (1u64 << 53));
        let f = u as f64 / (1u64 << 53) as f64;
        assert!((0.0..1.0).contains(&f));
    }
}

#[test]
fn unit_draw_is_high_bits_of_next_draw() {
    let mut a = Rng::new(42);
    let mut b = Rng::new(42);
    assert_eq!(a.next_unit(), b.next_u64() >> 11);
}

#[test]
fn bounded_draw_is_modulo() {
    let mut a = Rng::new(99);
    let mut b = Rng::new(99);
    for n in 1..200usize {
        let x = a.next_intn(n);
        assert!(x < n);
        assert_eq!(x as u64, b.next_u64() % n as u64);
    }
}

#[test]
fn negative_seed_is_used_as_its_bits() {
    let mut a = Rng::new(-1);
    let mut b = Rng::with_clock(-1, 12345);
    assert_eq!(a.next_u64(), b.next_u64());
}
