//! The naive running average: at each step the whole history is summed and
//! divided by its length, truncating.
use crate::agent::{lemma_updates_keep_mean, reward_sum, updated_all, AgentModel};
use crate::draw::random_below;
use vstd::prelude::*;

verus! {

/// The truncated mean of the first `n` rewards.
pub open spec fn average_upto(rs: Seq<u32>, n: int) -> nat {
    reward_sum(rs.take(n)) / (n as nat)
}

/// A sum of `n` rewards is at most `n * u32::MAX`.
proof fn lemma_sum_bound(rs: Seq<u32>)
    ensures
        reward_sum(rs) <= rs.len() * (u32::MAX as nat),
    decreases rs.len(),
{
    if rs.len() > 0 {
        lemma_sum_bound(rs.drop_last());
    }
}

/// The truncated mean of the prefix of each length: entry `i` is
/// `(rewards[0] + ... + rewards[i]) / (i + 1)`.
pub fn running_averages(rewards: &Vec<u32>) -> (out: Vec<u32>)
    ensures
        out@.len() == rewards@.len(),
        forall|i: int| 0 <= i < out@.len() ==> out@[i] == average_upto(rewards@, i + 1),
{
    let mut out: Vec<u32> = Vec::new();
    let mut sum: u128 = 0;
    let mut i: usize = 0;
    while i < rewards.len()
        invariant
            i <= rewards@.len(),
            out@.len() == i,
            sum == reward_sum(rewards@.take(i as int)),
            forall|j: int| 0 <= j < i ==> out@[j] == average_upto(rewards@, j + 1),
        decreases rewards@.len() - i,
    {
        let ghost prefix = rewards@.take(i as int + 1);
        assert(prefix.drop_last() =~= rewards@.take(i as int));
        proof {
            lemma_sum_bound(prefix);
            assert(prefix.len() * (u32::MAX as nat) <= u128::MAX) by (nonlinear_arith)
                requires
                    prefix.len() <= usize::MAX,
            ;
        }
        sum = sum + rewards[i] as u128;
        let n: u128 = i as u128 + 1;
        let mean = sum / n;
        assert(mean <= u32::MAX) by (nonlinear_arith)
            requires
                sum <= n * (u32::MAX as nat),
                n > 0,
                mean == sum / n,
        ;
        out.push(mean as u32);
        i = i + 1;
    }
    out
}

/// `n` rewards, each drawn uniformly from `0..range`.
pub fn random_rewards(n: usize, range: u32) -> (rs: Vec<u32>)
    requires
        range > 0,
    ensures
        rs@.len() == n,
        forall|i: int| 0 <= i < n ==> rs@[i] < range,
{
    let mut rs: Vec<u32> = Vec::new();
    let mut i: usize = 0;
    while i < n
        invariant
            i <= n,
            rs@.len() == i,
            range > 0,
            forall|j: int| 0 <= j < i ==> rs@[j] < range,
        decreases n - i,
    {
        let r = random_below(range as u64);
        rs.push(r as u32);
        i = i + 1;
    }
    rs
}

/// The two forms of the mean agree: an agent that observes the rewards `rs`
/// for an action without earlier rewards holds the exact mean `sum / n`,
/// whose truncation is the last naive running average of `rs`.
pub proof fn lemma_agent_matches_running_average(m: AgentModel, action: int, rs: Seq<u32>)
    requires
        m.wf(),
        0 <= action < m.size(),
        m.ns[action] == 0,
        rs.len() > 0,
    ensures
        updated_all(m, action, rs).value_num(action) / updated_all(m, action, rs).value_den(action)
            == average_upto(rs, rs.len() as int),
{
    lemma_updates_keep_mean(m, action, rs);
    assert(rs.take(rs.len() as int) =~= rs);
}

} // verus!
