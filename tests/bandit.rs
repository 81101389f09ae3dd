use bandit::bandit::Bandit;

#[test]
fn new_bandit_has_the_requested_arms() {
    let b = Bandit::new(20);
    assert_eq!(b.arms(), 20);
}

#[test]
fn play_with_pays_when_the_rate_exceeds_the_sample() {
    let b = Bandit::from_rates(vec![5, 0, u32::MAX]);
    assert_eq!(b.play_with(0, 4), 1);
    assert_eq!(b.play_with(0, 5), 0);
    assert_eq!(b.play_with(1, 0), 0);
    assert_eq!(b.play_with(2, 0), 1);
}

#[test]
fn play_is_binary_and_a_zero_rate_never_pays() {
    let b = Bandit::from_rates(vec![0, u32::MAX / 2]);
    let mut wins = 0u32;
    for _ in 0..2000 {
        assert_eq!(b.play(0), 0);
        let r = b.play(1);
        assert!(r <= 1);
        wins += r;
    }
    assert!(wins > 800 && wins < 1200, "wins {}", wins);
}
