use bandit::agent::Agent;
use bandit::bandit::Bandit;
use bandit::simulation::{run, simulate, Rate, StepDraw};

fn draw(sample: u32) -> StepDraw {
    StepDraw { explore: 0, index: 0, sample }
}

#[test]
fn single_arm_always_paying() {
    let bandit = Bandit::from_rates(vec![u32::MAX]);
    let mut agent = Agent::new(0, 1, Some(1));
    let draws: Vec<StepDraw> = (0..10).map(|_| draw(0)).collect();
    let h = simulate(&draws, &bandit, &mut agent);
    assert_eq!(agent.estimate(0), (10, 10));
    assert_eq!(agent.count(0), 10);
    assert_eq!(h.totals, (1..=10).collect::<Vec<u64>>());
    for (i, r) in h.rates.iter().enumerate() {
        assert_eq!(*r, Rate { reward: i as u64 + 1, steps: i as u64 + 1 });
        assert_eq!(r.reward as f64 / r.steps as f64, 1.0);
    }
}

#[test]
fn cyclic_rewards_converge_to_two_thirds() {
    let half = u32::MAX / 2;
    let bandit = Bandit::from_rates(vec![half, half, half]);
    let mut agent = Agent::new(0, 1, Some(3));
    let cycle = [0u32, u32::MAX, 0];
    let draws: Vec<StepDraw> = (0..300).map(|i| draw(cycle[i % 3])).collect();
    let h = simulate(&draws, &bandit, &mut agent);
    let chosen = agent.greedy_action();
    assert_eq!(agent.count(chosen), 300);
    let (num, den) = agent.estimate(chosen);
    assert_eq!((num, den), (200, 300));
    assert!((num as f64 / den as f64 - 2.0 / 3.0).abs() < 1e-9);
    assert_eq!(h.totals[299], 200);
}

#[test]
fn simulate_takes_the_drawn_action_when_exploring() {
    let bandit = Bandit::from_rates(vec![0, u32::MAX]);
    let mut agent = Agent::new(1, 2, Some(2));
    let draws = vec![
        StepDraw { explore: 0, index: 1, sample: 7 },
        StepDraw { explore: 1, index: 0, sample: 7 },
        StepDraw { explore: 0, index: 0, sample: 7 },
    ];
    let h = simulate(&draws, &bandit, &mut agent);
    assert_eq!(h.totals, vec![1, 2, 2]);
    assert_eq!(agent.count(1), 2);
    assert_eq!(agent.count(0), 1);
}

#[test]
fn random_run_history_is_bounded_and_non_decreasing() {
    let bandit = Bandit::new(20);
    let mut agent = Agent::new(1, 10, Some(20));
    let h = run(1000, &bandit, &mut agent);
    assert_eq!(h.totals.len(), 1000);
    assert_eq!(h.rates.len(), 1000);
    let total_pulls: u64 = (0..20).map(|a| agent.count(a)).sum();
    assert_eq!(total_pulls, 1000);
    for i in 0..1000 {
        if i > 0 {
            assert!(h.totals[i - 1] <= h.totals[i]);
        }
        let rate = h.rates[i].reward as f64 / h.rates[i].steps as f64;
        assert!((0.0..=1.0).contains(&rate));
        assert_eq!(h.rates[i].steps, i as u64 + 1);
    }
}
