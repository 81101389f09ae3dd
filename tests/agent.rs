use bandit::agent::Agent;

#[test]
fn new_agent_starts_at_zero() {
    let agent = Agent::new(1, 10, Some(4));
    assert_eq!(agent.action_size(), 4);
    for a in 0..4 {
        assert_eq!(agent.count(a), 0);
        assert_eq!(agent.estimate(a), (0, 1));
    }
}

#[test]
fn new_agent_defaults_to_ten_actions() {
    let agent = Agent::new(0, 1, None);
    assert_eq!(agent.action_size(), 10);
}

#[test]
fn updates_keep_the_exact_mean() {
    let mut agent = Agent::new(0, 1, Some(3));
    let rewards = [3u32, 0, 7, 2, 8];
    for r in rewards {
        agent.update(1, r);
    }
    let (num, den) = agent.estimate(1);
    assert_eq!((num, den), (20, 5));
    assert_eq!(num as f64 / den as f64, 4.0);
}

#[test]
fn counts_follow_updates_and_untouched_actions_stay_zero() {
    let mut agent = Agent::new(0, 1, Some(3));
    for _ in 0..7 {
        agent.update(2, 1);
    }
    assert_eq!(agent.count(2), 7);
    assert_eq!(agent.count(0), 0);
    assert_eq!(agent.count(1), 0);
    assert_eq!(agent.estimate(0), (0, 1));
    assert_eq!(agent.estimate(1), (0, 1));
}

#[test]
fn greedy_takes_the_largest_estimate() {
    let mut agent = Agent::new(0, 1, Some(4));
    agent.update(0, 1);
    agent.update(0, 0);
    agent.update(2, 1);
    agent.update(3, 0);
    assert_eq!(agent.greedy_action(), 2);
    assert_eq!(agent.get_action(), 2);
}

#[test]
fn greedy_breaks_ties_by_first_index() {
    let agent = Agent::new(0, 1, Some(5));
    assert_eq!(agent.greedy_action(), 0);

    let mut agent = Agent::new(0, 1, Some(4));
    agent.update(1, 1);
    agent.update(1, 0);
    agent.update(3, 2);
    agent.update(3, 0);
    agent.update(3, 1);
    assert_eq!(agent.greedy_action(), 3);

    let mut agent = Agent::new(0, 1, Some(4));
    agent.update(1, 1);
    agent.update(1, 0);
    agent.update(3, 1);
    agent.update(3, 0);
    assert_eq!(agent.greedy_action(), 1);
}

#[test]
fn choose_action_explores_below_epsilon() {
    let mut agent = Agent::new(1, 10, Some(3));
    agent.update(2, 1);
    assert_eq!(agent.choose_action(0, 1), 1);
    assert_eq!(agent.choose_action(1, 1), 2);
    assert_eq!(agent.choose_action(9, 0), 2);
}

#[test]
fn zero_epsilon_always_exploits() {
    let mut agent = Agent::new(0, 1, Some(6));
    agent.update(4, 1);
    for _ in 0..200 {
        assert_eq!(agent.get_action(), 4);
    }
}

#[test]
fn full_epsilon_picks_actions_uniformly() {
    let mut agent = Agent::new(1, 1, Some(4));
    agent.update(0, 1);
    let mut counts = [0u32; 4];
    let draws = 40_000;
    for _ in 0..draws {
        counts[agent.get_action()] += 1;
    }
    for c in counts {
        let share = c as f64 / draws as f64;
        assert!((share - 0.25).abs() < 0.02, "share {}", share);
    }
}
