//! The bandit: a fixed row of arms, each with a hidden win rate.
//!
//! A rate `p` of type `u32` stands for the probability `p / 2^32`. A pull
//! draws a sample uniformly from all of `u32` and pays `1` exactly when the
//! arm's rate exceeds it, so the rates and the samples share one range and
//! each arm wins with its stated probability.
use crate::draw::random_u32;
use vstd::prelude::*;

verus! {

/// The reward that an arm of rate `rate` pays on the sample `sample`.
pub open spec fn reward_spec(rate: u32, sample: u32) -> nat {
    if rate > sample {
        1
    } else {
        0
    }
}

pub struct Bandit {
    rates: Vec<u32>,
}

impl View for Bandit {
    type V = Seq<u32>;

    closed spec fn view(&self) -> Seq<u32> {
        self.rates@
    }
}

impl Bandit {
    /// A bandit with `arms` arms, each rate drawn uniformly from `u32`.
    pub fn new(arms: usize) -> (b: Bandit)
        ensures
            b@.len() == arms,
    {
        let mut rates: Vec<u32> = Vec::new();
        let mut i: usize = 0;
        while i < arms
            invariant
                i <= arms,
                rates@.len() == i,
            decreases arms - i,
        {
            rates.push(random_u32());
            i = i + 1;
        }
        Bandit { rates }
    }

    /// A bandit with the given rates, one arm each.
    pub fn from_rates(rates: Vec<u32>) -> (b: Bandit)
        ensures
            b@ == rates@,
    {
        Bandit { rates }
    }

    pub fn arms(&self) -> (n: usize)
        ensures
            n == self@.len(),
    {
        self.rates.len()
    }

    /// The reward that `arm` pays against the sample `sample`.
    pub fn play_with(&self, arm: usize, sample: u32) -> (r: u32)
        requires
            arm < self@.len(),
        ensures
            r == reward_spec(self@[arm as int], sample),
    {
        if self.rates[arm] > sample {
            1
        } else {
            0
        }
    }

    /// Pulls `arm` once against a fresh sample: the reward is `0` or `1`.
    pub fn play(&self, arm: usize) -> (r: u32)
        requires
            arm < self@.len(),
        ensures
            r <= 1,
            self@[arm as int] == 0 ==> r == 0,
    {
        let sample = random_u32();
        self.play_with(arm, sample)
    }
}

} // verus!
