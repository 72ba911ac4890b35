//! The runs that a test stands for.

use vstd::prelude::*;

verus! {

/// What is wrong with the configurations of a test.
#[derive(Debug, Clone, Copy, PartialEq, Eq, Structural)]
pub enum PlanError {
    /// "can't check determinism with repeated test".
    Repeated,
    /// A configuration is to be run zero times.
    ZeroRepeats,
}

/// One run of a test.
#[derive(Debug, Clone, Copy, PartialEq, Eq, Structural)]
pub struct Run {
    /// The seed.
    pub seed: u64,
    /// Which configuration.
    pub config: usize,
}

/// The rounds of a test that are still to come.
#[derive(Debug, Clone, Copy, PartialEq, Eq, Structural)]
pub struct TestPlan {
    /// The seed of the next round.
    pub seed: u64,
    /// How many rounds there are.
    pub rounds: u64,
    /// The test is checked for determinism.
    pub check: bool,
}

/// `n` runs of configuration `config`, with consecutive seeds from `seed` on.
pub open spec fn runs_of(seed: int, config: int, n: nat) -> Seq<Run> {
    Seq::new(n, |i: int| Run { seed: (seed + i) as u64, config: config as usize })
}

/// The numbers of runs, all together.
pub open spec fn total(repeats: Seq<usize>) -> nat
    decreases repeats.len(),
{
    if repeats.len() == 0 {
        0
    } else {
        total(repeats.drop_last()) + repeats.last() as nat
    }
}

/// The runs of a round in which each configuration is run as often as `repeats` says, with
/// consecutive seeds from `seed` on.
pub open spec fn round_runs(seed: int, repeats: Seq<usize>) -> Seq<Run>
    decreases repeats.len(),
{
    if repeats.len() == 0 {
        Seq::empty()
    } else {
        let before = repeats.drop_last();
        round_runs(seed, before) + runs_of(
            seed + total(before),
            before.len() as int,
            repeats.last() as nat,
        )
    }
}

/// What is wrong with a configuration that is to be run `repeat` times.
pub open spec fn repeat_error(check: bool, repeat: usize) -> Option<PlanError> {
    if repeat == 0 {
        Some(PlanError::ZeroRepeats)
    } else if check && repeat != 1 {
        Some(PlanError::Repeated)
    } else {
        None
    }
}

/// How many configurations come before the first with which something is wrong.
pub open spec fn sound_configs(check: bool, repeats: Seq<usize>) -> nat
    decreases repeats.len(),
{
    if repeats.len() == 0 {
        0
    } else {
        let before = sound_configs(check, repeats.drop_last());
        if before == repeats.len() - 1 && repeat_error(check, repeats.last()) is None {
            repeats.len()
        } else {
            before
        }
    }
}

/// The number of rounds of a test that is to be run `count` times.
pub open spec fn rounds_of(count: u64, check: bool) -> u64 {
    if check && count < 2 {
        2
    } else {
        count
    }
}

impl TestPlan {
    /// The rounds of a test that is to be run `count` times from `seed` on. To check determinism
    /// takes at least two rounds.
    pub fn new(seed: u64, count: u64, check: bool) -> (r: TestPlan)
        ensures
            r.seed == seed,
            r.check == check,
            r.rounds == rounds_of(count, check),
    {
        let rounds: u64 = if check && count < 2 {
            2
        } else {
            count
        };
        TestPlan { seed, rounds, check }
    }

    /// What a round gives, in which the test has as many configurations as `repeats` has
    /// entries, each to be run as often as its entry says: the runs up to the first configuration
    /// with which something is wrong, and what that is.
    pub open spec fn round(self, repeats: Seq<usize>) -> (Seq<Run>, Option<PlanError>) {
        let sound = sound_configs(self.check, repeats) as int;
        if self.check && repeats.len() != 1 {
            (Seq::empty(), Some(PlanError::Repeated))
        } else {
            (
                round_runs(self.seed as int, repeats.take(sound)),
                if sound < repeats.len() {
                    repeat_error(self.check, repeats[sound])
                } else {
                    None
                },
            )
        }
    }

    /// Lists the runs of a round, and says what is wrong with the configuration after the last
    /// run, if that is so.
    pub fn plan_round(&self, repeats: &Vec<usize>) -> (r: (Vec<Run>, Option<PlanError>))
        requires
            self.seed + total(repeats@) <= u64::MAX,
        ensures
            (r.0@, r.1) == self.round(repeats@),
    {
        let mut runs: Vec<Run> = Vec::new();
        if self.check && repeats.len() != 1 {
            return (runs, Some(PlanError::Repeated));
        }
        let mut inner_seed: u64 = self.seed;
        let mut config: usize = 0;
        assert(repeats@.take(0) =~= Seq::empty());
        while config < repeats.len()
            invariant
                config <= repeats@.len(),
                !self.check || repeats@.len() == 1,
                self.seed + total(repeats@) <= u64::MAX,
                inner_seed == self.seed + total(repeats@.take(config as int)),
                sound_configs(self.check, repeats@.take(config as int)) == config,
                runs@ == round_runs(self.seed as int, repeats@.take(config as int)),
            decreases repeats@.len() - config,
        {
            let ghost done = repeats@.take(config as int);
            let ghost more = repeats@.take(config + 1);
            proof {
                assert(more.drop_last() =~= done);
                lemma_total_grows(repeats@, config + 1);
            }
            let repeat: usize = repeats[config];
            if repeat == 0 {
                proof {
                    lemma_sound_stays(self.check, repeats@, config as int);
                }
                return (runs, Some(PlanError::ZeroRepeats));
            }
            if self.check && repeat != 1 {
                proof {
                    lemma_sound_stays(self.check, repeats@, config as int);
                }
                return (runs, Some(PlanError::Repeated));
            }
            let ghost before = runs@;
            let ghost start: int = inner_seed as int;
            let mut j: usize = 0;
            assert(before + runs_of(start, config as int, 0) =~= before);
            while j < repeat
                invariant
                    j <= repeat,
                    inner_seed == start + j,
                    start + repeat <= u64::MAX,
                    runs@ == before + runs_of(start, config as int, j as nat),
                decreases repeat - j,
            {
                runs.push(Run { seed: inner_seed, config });
                inner_seed = inner_seed + 1;
                j = j + 1;
                assert(runs@ =~= before + runs_of(start, config as int, j as nat));
            }
            config = config + 1;
        }
        assert(repeats@.take(config as int) =~= repeats@);
        (runs, None)
    }

    /// The plan once a round of `runs` runs is over: the seed increases by 1 for each run, unless
    /// determinism is checked, for which it stays the same.
    pub open spec fn after_round(self, runs: nat) -> TestPlan {
        TestPlan {
            seed: if self.check {
                self.seed
            } else {
                (self.seed + runs) as u64
            },
            rounds: (self.rounds - 1) as u64,
            check: self.check,
        }
    }

    /// Goes on to the next round, after one that consisted of `runs`.
    pub fn next_round(&mut self, runs: &Vec<Run>)
        requires
            old(self).rounds > 0,
            old(self).seed + runs@.len() <= u64::MAX,
        ensures
            *final(self) == old(self).after_round(runs@.len()),
    {
        if !self.check {
            self.seed = self.seed + runs.len() as u64;
        }
        self.rounds = self.rounds - 1;
    }
}

/// The first numbers are no more than all of them, all together.
proof fn lemma_total_grows(repeats: Seq<usize>, n: int)
    requires
        0 <= n <= repeats.len(),
    ensures
        total(repeats.take(n)) <= total(repeats),
    decreases repeats.len() - n,
{
    if n < repeats.len() {
        assert(repeats.take(n + 1).drop_last() =~= repeats.take(n));
        lemma_total_grows(repeats, n + 1);
    } else {
        assert(repeats.take(n) =~= repeats);
    }
}

/// What comes after a configuration with which something is wrong does not count.
proof fn lemma_sound_stays(check: bool, repeats: Seq<usize>, n: int)
    requires
        0 <= n < repeats.len(),
        sound_configs(check, repeats.take(n)) == n,
        repeat_error(check, repeats[n]) is Some,
    ensures
        sound_configs(check, repeats) == n,
    decreases repeats.len(),
{
    let before = repeats.drop_last();
    if n < repeats.len() - 1 {
        assert(before.take(n) =~= repeats.take(n));
        lemma_sound_stays(check, before, n);
    } else {
        assert(before =~= repeats.take(n));
    }
}

/// The runs of a round all have different seeds: consecutive ones, from the seed of the round on.
pub proof fn law_seeds_of_a_round_are_consecutive(seed: int, repeats: Seq<usize>, i: int)
    requires
        0 <= seed,
        seed + total(repeats) <= u64::MAX,
        0 <= i < round_runs(seed, repeats).len(),
    ensures
        round_runs(seed, repeats)[i].seed == seed + i,
        round_runs(seed, repeats).len() == total(repeats),
    decreases repeats.len(),
{
    lemma_round_length(seed, repeats);
    if repeats.len() > 0 {
        let before = repeats.drop_last();
        lemma_round_length(seed, before);
        if i < round_runs(seed, before).len() {
            law_seeds_of_a_round_are_consecutive(seed, before, i);
        }
    }
}

proof fn lemma_round_length(seed: int, repeats: Seq<usize>)
    ensures
        round_runs(seed, repeats).len() == total(repeats),
    decreases repeats.len(),
{
    if repeats.len() > 0 {
        lemma_round_length(seed, repeats.drop_last());
    }
}

/// The seed increases by 1 for each run, from one round to the next too: the first run of a round
/// has the seed after that of the last run of the round before.
pub proof fn law_rounds_go_on_where_the_last_ended(
    plan: TestPlan,
    repeats: Seq<usize>,
    next_repeats: Seq<usize>,
)
    requires
        !plan.check,
        plan.round(repeats).1 is None,
        plan.round(repeats).0.len() > 0,
        plan.seed + total(repeats) + total(next_repeats) <= u64::MAX,
        plan.after_round(plan.round(repeats).0.len()).round(next_repeats).0.len() > 0,
    ensures
        ({
            let runs = plan.round(repeats).0;
            let next = plan.after_round(runs.len()).round(next_repeats).0;
            next[0].seed == runs.last().seed + 1
        }),
{
    let runs = plan.round(repeats).0;
    let sound = sound_configs(false, repeats) as int;
    lemma_sound_bounded(false, repeats);
    lemma_total_grows(repeats, sound);
    law_seeds_of_a_round_are_consecutive(plan.seed as int, repeats.take(sound), runs.len() - 1);
    let later = plan.after_round(runs.len());
    let next_sound = sound_configs(false, next_repeats) as int;
    lemma_sound_bounded(false, next_repeats);
    lemma_total_grows(next_repeats, next_sound);
    law_seeds_of_a_round_are_consecutive(later.seed as int, next_repeats.take(next_sound), 0);
}

proof fn lemma_sound_bounded(check: bool, repeats: Seq<usize>)
    ensures
        sound_configs(check, repeats) <= repeats.len(),
    decreases repeats.len(),
{
    if repeats.len() > 0 {
        lemma_sound_bounded(check, repeats.drop_last());
    }
}

/// A round that is checked for determinism is a single run, with the seed of the plan: every
/// round does the same.
pub proof fn law_checked_round_is_one_run(plan: TestPlan, repeats: Seq<usize>)
    requires
        plan.check,
        plan.round(repeats).1 is None,
    ensures
        plan.round(repeats).0 == seq![Run { seed: plan.seed, config: 0 }],
        plan.after_round(1).round(repeats) == plan.round(repeats),
{
    let none = repeats.drop_last();
    assert(repeats.len() == 1);
    assert(sound_configs(true, none) == 0);
    assert(repeats.take(1) =~= repeats);
    assert(round_runs(plan.seed as int, none) =~= Seq::empty());
    assert(total(none) == 0);
    assert(round_runs(plan.seed as int, repeats) =~= seq![Run { seed: plan.seed, config: 0 }]);
}

} // verus!
