//! The simulation loop: the agent chooses, the bandit pays, the agent learns,
//! and the running total and the reward rate are recorded after each step.
use crate::agent::{lemma_update_totals, seq_sum, Agent, AgentModel};
use crate::bandit::{reward_spec, Bandit};
use vstd::prelude::*;

verus! {

/// The random values that one step consumes: `explore` decides whether the
/// agent explores (it does when the value is below the numerator of
/// epsilon), `index` is the action it then takes, and `sample` is what the
/// pulled arm's rate is compared with.
#[derive(Clone, Copy, Debug)]
pub struct StepDraw {
    pub explore: u64,
    pub index: usize,
    pub sample: u32,
}

/// The reward rate after a step: the total reward over the number of steps.
#[derive(Clone, Copy, Debug, PartialEq, Eq, Structural)]
pub struct Rate {
    pub reward: u64,
    pub steps: u64,
}

/// What a run records: after each step the total reward so far and the
/// reward rate.
pub struct History {
    pub totals: Vec<u64>,
    pub rates: Vec<Rate>,
}

/// The reward of one step from state `m` against arms of rates `arms`.
pub open spec fn step_reward(m: AgentModel, arms: Seq<u32>, d: StepDraw) -> nat {
    reward_spec(arms[m.chosen(d.explore, d.index)], d.sample)
}

/// The agent's state after the steps drawn as `ds`.
pub open spec fn agent_after(m: AgentModel, arms: Seq<u32>, ds: Seq<StepDraw>) -> AgentModel
    decreases ds.len(),
{
    if ds.len() == 0 {
        m
    } else {
        let prev = agent_after(m, arms, ds.drop_last());
        prev.updated(prev.chosen(ds.last().explore, ds.last().index), step_reward(prev, arms, ds.last()))
    }
}

/// The total reward over the steps drawn as `ds`.
pub open spec fn total_after(m: AgentModel, arms: Seq<u32>, ds: Seq<StepDraw>) -> nat
    decreases ds.len(),
{
    if ds.len() == 0 {
        0
    } else {
        total_after(m, arms, ds.drop_last()) + step_reward(
            agent_after(m, arms, ds.drop_last()),
            arms,
            ds.last(),
        )
    }
}

/// A record of binary rewards: totals never decrease, and after step `i`
/// (counted from one) the total is at most `i`, so every rate lies in
/// `[0, 1]`; each rate is the total over the steps so far.
pub open spec fn is_binary_history(totals: Seq<u64>, rates: Seq<Rate>) -> bool {
    &&& rates.len() == totals.len()
    &&& forall|i: int, j: int| 0 <= i <= j < totals.len() ==> totals[i] <= totals[j]
    &&& forall|i: int| 0 <= i < totals.len() ==> totals[i] <= i + 1
    &&& forall|i: int|
        0 <= i < totals.len() ==> rates[i] == (Rate { reward: totals[i], steps: (i + 1) as u64 })
}

/// Counts and sums of `m` have room for `steps` more rewards of at most one.
pub open spec fn has_room(m: AgentModel, steps: nat) -> bool {
    forall|a: int| 0 <= a < m.size() ==> m.ns[a] + steps <= u64::MAX && m.sums[a] + steps <= u64::MAX
}

/// Runs one step per draw in `draws`, in order, with the agent choosing by
/// the draw's `explore` and `index` and the bandit paying against its
/// `sample`.
pub fn simulate(draws: &Vec<StepDraw>, bandit: &Bandit, agent: &mut Agent) -> (h: History)
    requires
        old(agent).wf(),
        bandit@.len() == old(agent)@.size(),
        forall|i: int| 0 <= i < draws@.len() ==> draws@[i].index < bandit@.len(),
        has_room(old(agent)@, draws@.len()),
    ensures
        final(agent).wf(),
        final(agent)@ == agent_after(old(agent)@, bandit@, draws@),
        h.totals@.len() == draws@.len(),
        forall|i: int|
            0 <= i < draws@.len() ==> h.totals@[i] == total_after(
                old(agent)@,
                bandit@,
                draws@.take(i + 1),
            ),
        is_binary_history(h.totals@, h.rates@),
{
    let ghost m0 = agent@;
    let mut totals: Vec<u64> = Vec::new();
    let mut rates: Vec<Rate> = Vec::new();
    let mut total: u64 = 0;
    let mut i: usize = 0;
    while i < draws.len()
        invariant
            m0 == old(agent)@,
            bandit@.len() == m0.size(),
            forall|k: int| 0 <= k < draws@.len() ==> draws@[k].index < bandit@.len(),
            has_room(m0, draws@.len()),
            i <= draws@.len(),
            agent.wf(),
            agent@ == agent_after(m0, bandit@, draws@.take(i as int)),
            agent@.size() == m0.size(),
            agent@.epsilon_num == m0.epsilon_num,
            forall|a: int|
                0 <= a < m0.size() ==> agent@.ns[a] <= m0.ns[a] + i && agent@.sums[a] <= m0.sums[a]
                    + i,
            total == total_after(m0, bandit@, draws@.take(i as int)),
            total <= i,
            totals@.len() == i,
            forall|j: int|
                0 <= j < i ==> totals@[j] == total_after(m0, bandit@, draws@.take(j + 1)),
            forall|j: int| 0 <= j < i ==> totals@[j] <= total,
            is_binary_history(totals@, rates@),
        decreases draws@.len() - i,
    {
        let d = draws[i];
        let action = agent.choose_action(d.explore, d.index);
        let reward = bandit.play_with(action, d.sample);
        proof {
            let a = action as int;
            assert(m0.ns[a] + draws@.len() <= u64::MAX && m0.sums[a] + draws@.len() <= u64::MAX);
        }
        agent.update(action, reward);
        total = total + reward as u64;
        let ghost upto = draws@.take(i as int + 1);
        assert(upto.drop_last() =~= draws@.take(i as int));
        assert(upto.last() == d);
        totals.push(total);
        rates.push(Rate { reward: total, steps: i as u64 + 1 });
        i = i + 1;
    }
    assert(draws@.take(draws@.len() as int) =~= draws@);
    History { totals, rates }
}

/// Runs `steps` steps with fresh random draws: each step the agent picks an
/// action, the bandit pays for it, and the agent learns the reward.
pub fn run(steps: usize, bandit: &Bandit, agent: &mut Agent) -> (h: History)
    requires
        old(agent).wf(),
        bandit@.len() == old(agent)@.size(),
        has_room(old(agent)@, steps as nat),
    ensures
        final(agent).wf(),
        final(agent)@.size() == old(agent)@.size(),
        final(agent)@.epsilon_num == old(agent)@.epsilon_num,
        final(agent)@.epsilon_den == old(agent)@.epsilon_den,
        h.totals@.len() == steps,
        is_binary_history(h.totals@, h.rates@),
        seq_sum(final(agent)@.ns) == seq_sum(old(agent)@.ns) + steps,
        seq_sum(final(agent)@.sums) == seq_sum(old(agent)@.sums) + (if steps == 0 {
            0
        } else {
            h.totals@[steps - 1] as nat
        }),
{
    let ghost m0 = agent@;
    let mut totals: Vec<u64> = Vec::new();
    let mut rates: Vec<Rate> = Vec::new();
    let mut total: u64 = 0;
    let mut i: usize = 0;
    while i < steps
        invariant
            m0 == old(agent)@,
            bandit@.len() == m0.size(),
            has_room(m0, steps as nat),
            i <= steps,
            agent.wf(),
            agent@.size() == m0.size(),
            agent@.epsilon_num == m0.epsilon_num,
            agent@.epsilon_den == m0.epsilon_den,
            forall|a: int|
                0 <= a < m0.size() ==> agent@.ns[a] <= m0.ns[a] + i && agent@.sums[a] <= m0.sums[a]
                    + i,
            total <= i,
            totals@.len() == i,
            forall|j: int| 0 <= j < i ==> totals@[j] <= total,
            i > 0 ==> totals@[i - 1] == total,
            is_binary_history(totals@, rates@),
            seq_sum(agent@.ns) == seq_sum(m0.ns) + i,
            seq_sum(agent@.sums) == seq_sum(m0.sums) + total,
        decreases steps - i,
    {
        let action = agent.get_action();
        let reward = bandit.play(action);
        proof {
            lemma_update_totals(agent@, action as int, reward as nat);
            let a = action as int;
            assert(m0.ns[a] + steps <= u64::MAX && m0.sums[a] + steps <= u64::MAX);
        }
        agent.update(action, reward);
        total = total + reward as u64;
        totals.push(total);
        rates.push(Rate { reward: total, steps: i as u64 + 1 });
        i = i + 1;
    }
    History { totals, rates }
}

} // verus!
