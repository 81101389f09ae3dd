//! The epsilon-greedy agent.
//!
//! For each action the agent keeps the number of rewards observed and their
//! sum, so its value estimate is the exact arithmetic mean `sum / count` (and
//! `0` before the first reward). The exploration rate epsilon is the fraction
//! `epsilon_num / epsilon_den`; a numerator at or above the denominator
//! explores always, a zero numerator never.
use crate::draw::random_below;
use vstd::prelude::*;

verus! {

/// The agent's state: epsilon as a fraction, and per action the sum and the
/// number of the rewards observed.
pub struct AgentModel {
    pub epsilon_num: nat,
    pub epsilon_den: nat,
    pub sums: Seq<nat>,
    pub ns: Seq<nat>,
}

impl AgentModel {
    pub open spec fn wf(self) -> bool {
        &&& self.epsilon_den > 0
        &&& self.ns.len() == self.sums.len()
        &&& self.ns.len() >= 1
        &&& forall|a: int| 0 <= a < self.ns.len() && self.ns[a] == 0 ==> self.sums[a] == 0
    }

    /// The number of actions.
    pub open spec fn size(self) -> nat {
        self.ns.len()
    }

    /// The numerator of the value estimate of `a`.
    pub open spec fn value_num(self, a: int) -> nat {
        self.sums[a]
    }

    /// The denominator of the value estimate of `a`: its count, or `1` while
    /// it has none.
    pub open spec fn value_den(self, a: int) -> nat {
        if self.ns[a] == 0 {
            1
        } else {
            self.ns[a]
        }
    }

    /// The value estimate of `i` exceeds that of `j`.
    pub open spec fn better(self, i: int, j: int) -> bool {
        self.value_num(i) * self.value_den(j) > self.value_num(j) * self.value_den(i)
    }

    /// The first action of largest estimate among the first `n` actions.
    pub open spec fn greedy_upto(self, n: int) -> int
        decreases n,
    {
        if n <= 1 {
            0
        } else {
            let b = self.greedy_upto(n - 1);
            if self.better(n - 1, b) {
                n - 1
            } else {
                b
            }
        }
    }

    /// The first action of largest estimate.
    pub open spec fn greedy(self) -> int {
        self.greedy_upto(self.size() as int)
    }

    /// `r` has the largest estimate, and every action before it a smaller one.
    pub open spec fn is_first_max(self, r: int) -> bool {
        &&& 0 <= r < self.size()
        &&& forall|j: int| 0 <= j < self.size() ==> !#[trigger] self.better(j, r)
        &&& forall|j: int| 0 <= j < r ==> #[trigger] self.better(r, j)
    }

    /// The action chosen on the draws `explore` (exploration happens when it
    /// is below the numerator of epsilon) and `index` (the random action).
    pub open spec fn chosen(self, explore: u64, index: usize) -> int {
        if explore < self.epsilon_num {
            index as int
        } else {
            self.greedy()
        }
    }

    /// The state after observing `reward` for `action`.
    pub open spec fn updated(self, action: int, reward: nat) -> AgentModel {
        AgentModel {
            sums: self.sums.update(action, self.sums[action] + reward),
            ns: self.ns.update(action, self.ns[action] + 1),
            ..self
        }
    }
}

pub struct Agent {
    epsilon_num: u64,
    epsilon_den: u64,
    sums: Vec<u64>,
    ns: Vec<u64>,
}

impl View for Agent {
    type V = AgentModel;

    closed spec fn view(&self) -> AgentModel {
        AgentModel {
            epsilon_num: self.epsilon_num as nat,
            epsilon_den: self.epsilon_den as nat,
            sums: self.sums@.map_values(|x: u64| x as nat),
            ns: self.ns@.map_values(|x: u64| x as nat),
        }
    }
}

/// If `i` beats `b` and `b` is not beaten by `j`, then `i` beats `j`; if `i`
/// does not beat `b` and `b` does not beat `j`, then `i` does not beat `j`.
proof fn lemma_better_trans(m: AgentModel, i: int, j: int, b: int)
    requires
        m.wf(),
        0 <= i < m.size(),
        0 <= j < m.size(),
        0 <= b < m.size(),
    ensures
        m.better(i, b) && !m.better(j, b) ==> m.better(i, j),
        !m.better(b, i) && !m.better(j, b) ==> !m.better(j, i),
{
    let (ni, di) = (m.value_num(i) as int, m.value_den(i) as int);
    let (nj, dj) = (m.value_num(j) as int, m.value_den(j) as int);
    let (nb, db) = (m.value_num(b) as int, m.value_den(b) as int);
    assert(di > 0 && dj > 0 && db > 0);
    if m.better(i, b) && !m.better(j, b) {
        assert(ni * db > nb * di);
        assert(nj * db <= nb * dj);
        assert(ni * dj > nj * di) by (nonlinear_arith)
            requires
                ni * db > nb * di,
                nj * db <= nb * dj,
                di > 0,
                dj > 0,
                db > 0,
                nj >= 0,
        ;
    }
    if !m.better(b, i) && !m.better(j, b) {
        assert(nb * di <= ni * db);
        assert(nj * db <= nb * dj);
        assert(nj * di <= ni * dj) by (nonlinear_arith)
            requires
                nb * di <= ni * db,
                nj * db <= nb * dj,
                di > 0,
                dj > 0,
                db > 0,
        ;
    }
}

/// The first action of largest estimate among the first `n` is what
/// `greedy_upto(n)` names.
proof fn lemma_greedy_upto(m: AgentModel, n: int)
    requires
        m.wf(),
        1 <= n <= m.size(),
    ensures
        0 <= m.greedy_upto(n) < n,
        forall|j: int| 0 <= j < n ==> !#[trigger] m.better(j, m.greedy_upto(n)),
        forall|j: int| 0 <= j < m.greedy_upto(n) ==> #[trigger] m.better(m.greedy_upto(n), j),
    decreases n,
{
    if n > 1 {
        lemma_greedy_upto(m, n - 1);
        let b = m.greedy_upto(n - 1);
        assert forall|j: int| 0 <= j < n implies !#[trigger] m.better(j, m.greedy_upto(n)) by {
            lemma_better_trans(m, n - 1, j, b);
            lemma_better_trans(m, j, n - 1, b);
        }
        assert forall|j: int| 0 <= j < m.greedy_upto(n) implies #[trigger] m.better(
            m.greedy_upto(n),
            j,
        ) by {
            lemma_better_trans(m, n - 1, j, b);
        }
    } else {
        assert(m.greedy_upto(n) == 0);
        assert forall|j: int| 0 <= j < n implies !#[trigger] m.better(j, m.greedy_upto(n)) by {
            assert(j == 0);
        }
    }
}

/// The greedy action is the first action of largest estimate.
pub proof fn lemma_greedy_is_first_max(m: AgentModel)
    requires
        m.wf(),
    ensures
        m.is_first_max(m.greedy()),
{
    lemma_greedy_upto(m, m.size() as int);
}


/// A product of two `u64` values fits in `u128`.
proof fn lemma_product_fits(a: u64, b: u64)
    ensures
        (a as int) * (b as int) <= u128::MAX,
{
    assert((a as int) * (b as int) <= (u64::MAX as int) * (u64::MAX as int)) by (nonlinear_arith)
        requires
            0 <= a <= u64::MAX,
            0 <= b <= u64::MAX,
    ;
}

impl Agent {
    pub open spec fn wf(&self) -> bool {
        self@.wf()
    }

    /// An agent with exploration rate `epsilon_num / epsilon_den` and
    /// `action_size` actions (ten where none is given), every count and
    /// every estimate zero.
    pub fn new(epsilon_num: u64, epsilon_den: u64, action_size: Option<usize>) -> (ag: Agent)
        requires
            epsilon_den > 0,
            action_size != Some(0usize),
        ensures
            ag.wf(),
            ag@.epsilon_num == epsilon_num,
            ag@.epsilon_den == epsilon_den,
            ag@.size() == match action_size {
                Some(k) => k as nat,
                None => 10,
            },
            forall|a: int| 0 <= a < ag@.size() ==> ag@.ns[a] == 0 && ag@.sums[a] == 0,
    {
        let size = match action_size {
            Some(k) => k,
            None => 10,
        };
        let sums: Vec<u64> = vec![0u64; size];
        let ns: Vec<u64> = vec![0u64; size];
        let ag = Agent { epsilon_num, epsilon_den, sums, ns };
        assert(ag@.ns.len() == size);
        ag
    }

    /// The number of actions.
    pub fn action_size(&self) -> (n: usize)
        requires
            self.wf(),
        ensures
            n == self@.size(),
    {
        self.ns.len()
    }

    /// How many rewards were observed for `action`.
    pub fn count(&self, action: usize) -> (n: u64)
        requires
            self.wf(),
            action < self@.size(),
        ensures
            n == self@.ns[action as int],
    {
        self.ns[action]
    }

    /// The value estimate of `action` as a fraction `(numerator,
    /// denominator)`: the sum of its rewards over their number, or `0 / 1`.
    pub fn estimate(&self, action: usize) -> (q: (u64, u64))
        requires
            self.wf(),
            action < self@.size(),
        ensures
            q.0 == self@.value_num(action as int),
            q.1 == self@.value_den(action as int),
    {
        let n = self.ns[action];
        if n == 0 {
            (self.sums[action], 1)
        } else {
            (self.sums[action], n)
        }
    }

    /// Records `reward` for `action`: its count goes up by one and its sum by
    /// the reward, so its estimate stays the mean of all its rewards.
    pub fn update(&mut self, action: usize, reward: u32)
        requires
            old(self).wf(),
            action < old(self)@.size(),
            old(self)@.ns[action as int] < u64::MAX,
            old(self)@.sums[action as int] + reward <= u64::MAX,
        ensures
            final(self).wf(),
            final(self)@ == old(self)@.updated(action as int, reward as nat),
    {
        let ghost m = self@;
        let n = self.ns[action] + 1;
        let s = self.sums[action] + reward as u64;
        self.ns.set(action, n);
        self.sums.set(action, s);
        assert(self@.ns =~= m.updated(action as int, reward as nat).ns);
        assert(self@.sums =~= m.updated(action as int, reward as nat).sums);
    }

    /// The estimate of `i` exceeds that of `j`.
    fn better(&self, i: usize, j: usize) -> (r: bool)
        requires
            self.wf(),
            i < self@.size(),
            j < self@.size(),
        ensures
            r == self@.better(i as int, j as int),
    {
        let (ni, di) = self.estimate(i);
        let (nj, dj) = self.estimate(j);
        proof {
            lemma_product_fits(ni, dj);
            lemma_product_fits(nj, di);
        }
        (ni as u128) * (dj as u128) > (nj as u128) * (di as u128)
    }

    /// The first action of largest estimate.
    pub fn greedy_action(&self) -> (r: usize)
        requires
            self.wf(),
        ensures
            r == self@.greedy(),
            self@.is_first_max(r as int),
    {
        let k = self.ns.len();
        let mut best: usize = 0;
        let mut i: usize = 1;
        while i < k
            invariant
                self.wf(),
                k == self@.size(),
                1 <= i <= k,
                best == self@.greedy_upto(i as int),
                best < i,
            decreases k - i,
        {
            if self.better(i, best) {
                best = i;
            }
            i = i + 1;
        }
        proof {
            lemma_greedy_is_first_max(self@);
        }
        best
    }

    /// The action chosen on given draws: `index` when `explore` falls below
    /// the numerator of epsilon, the greedy action otherwise.
    pub fn choose_action(&self, explore: u64, index: usize) -> (r: usize)
        requires
            self.wf(),
            index < self@.size(),
        ensures
            r == self@.chosen(explore, index),
            r < self@.size(),
    {
        if explore < self.epsilon_num {
            index
        } else {
            self.greedy_action()
        }
    }

    /// Chooses an action: with probability epsilon a uniformly drawn one,
    /// otherwise the first one of largest estimate.
    pub fn get_action(&self) -> (r: usize)
        requires
            self.wf(),
        ensures
            r < self@.size(),
            self@.epsilon_num == 0 ==> r == self@.greedy(),
            self@.epsilon_num == 0 ==> self@.is_first_max(r as int),
    {
        let explore = random_below(self.epsilon_den);
        if explore < self.epsilon_num {
            random_below(self.ns.len() as u64) as usize
        } else {
            self.greedy_action()
        }
    }
}

/// The sum of a sequence of rewards.
pub open spec fn reward_sum(rs: Seq<u32>) -> nat
    decreases rs.len(),
{
    if rs.len() == 0 {
        0
    } else {
        reward_sum(rs.drop_last()) + rs.last() as nat
    }
}

/// The state after observing the rewards `rs`, in order, all for `action`.
pub open spec fn updated_all(m: AgentModel, action: int, rs: Seq<u32>) -> AgentModel
    decreases rs.len(),
{
    if rs.len() == 0 {
        m
    } else {
        updated_all(m, action, rs.drop_last()).updated(action, rs.last() as nat)
    }
}

/// After `n` rewards `r_1, ..., r_n` for one action, its count has grown by
/// `n` and its sum by `r_1 + ... + r_n`, and no other action has changed. So
/// for an action without earlier rewards the count is exactly `n` and the
/// estimate is exactly the mean `(r_1 + ... + r_n) / n`, while an action that
/// was never updated keeps count `0` and estimate `0`.
pub proof fn lemma_updates_keep_mean(m: AgentModel, action: int, rs: Seq<u32>)
    requires
        m.wf(),
        0 <= action < m.size(),
    ensures
        updated_all(m, action, rs).wf(),
        updated_all(m, action, rs).size() == m.size(),
        updated_all(m, action, rs).ns[action] == m.ns[action] + rs.len(),
        updated_all(m, action, rs).sums[action] == m.sums[action] + reward_sum(rs),
        forall|b: int|
            0 <= b < m.size() && b != action ==> updated_all(m, action, rs).ns[b] == m.ns[b]
                && updated_all(m, action, rs).sums[b] == m.sums[b],
        m.ns[action] == 0 && rs.len() > 0 ==> updated_all(m, action, rs).value_num(action)
            == reward_sum(rs) && updated_all(m, action, rs).value_den(action) == rs.len(),
    decreases rs.len(),
{
    if rs.len() > 0 {
        lemma_updates_keep_mean(m, action, rs.drop_last());
    }
}

/// The stored form agrees with the incremental-mean recurrence
/// `q' = q + (r - q) / (n + 1)`: from the mean `q = s / n` of `n > 0`
/// rewards, the recurrence gives the fraction
/// `(s * (n + 1) + (r * n - s)) / (n * (n + 1))`, which equals the new mean
/// `(s + r) / (n + 1)` that `updated` keeps.
pub proof fn lemma_incremental_mean(s: int, n: int, r: int)
    requires
        n > 0,
    ensures
        (s * (n + 1) + (r * n - s)) * (n + 1) == (s + r) * (n * (n + 1)),
{
    assert((s * (n + 1) + (r * n - s)) * (n + 1) == (s + r) * (n * (n + 1))) by (nonlinear_arith);
}

/// The sum of a sequence of counts or reward sums.
pub open spec fn seq_sum(s: Seq<nat>) -> nat
    decreases s.len(),
{
    if s.len() == 0 {
        0
    } else {
        seq_sum(s.drop_last()) + s.last()
    }
}

proof fn lemma_seq_sum_update(s: Seq<nat>, i: int, v: nat)
    requires
        0 <= i < s.len(),
    ensures
        seq_sum(s.update(i, v)) + s[i] == seq_sum(s) + v,
    decreases s.len(),
{
    let t = s.update(i, v);
    if i == s.len() - 1 {
        assert(t.drop_last() =~= s.drop_last());
    } else {
        assert(t.drop_last() =~= s.drop_last().update(i, v));
        lemma_seq_sum_update(s.drop_last(), i, v);
    }
}

/// Every update adds exactly one to the total count over all actions and
/// exactly its reward to the total of all reward sums.
pub proof fn lemma_update_totals(m: AgentModel, action: int, reward: nat)
    requires
        m.wf(),
        0 <= action < m.size(),
    ensures
        seq_sum(m.updated(action, reward).ns) == seq_sum(m.ns) + 1,
        seq_sum(m.updated(action, reward).sums) == seq_sum(m.sums) + reward,
{
    lemma_seq_sum_update(m.ns, action, m.ns[action] + 1);
    lemma_seq_sum_update(m.sums, action, m.sums[action] + reward);
}

} // verus!
