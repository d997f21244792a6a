//! A stage of the analysis as a script of sandboxed commands: each command
//! has an expected exit status, and the stage stops at the first command
//! that misses it.

use vstd::prelude::*;

use crate::util_docker::ExitStatus;

verus! {

/// Default mount point of the packet directory in a stage's sandbox.
pub const DOCKER_MNT: &'static str = "/test";

/// What a command's exit status must be for the stage to go on.
#[derive(Clone, Copy, Debug, PartialEq, Eq, Structural)]
pub enum Expect {
    /// It must succeed.
    Success,
    /// It must run into its timeout.
    Timeout,
    /// It must not fail; a timeout is fine.
    NotFailure,
    /// Any status will do.
    Any,
}

/// Whether status `s` meets expectation `e`.
pub open spec fn meets(e: Expect, s: ExitStatus) -> bool {
    match e {
        Expect::Success => s == ExitStatus::Success,
        Expect::Timeout => s == ExitStatus::Timeout,
        Expect::NotFailure => s != ExitStatus::Failure,
        Expect::Any => true,
    }
}

fn check(e: Expect, s: ExitStatus) -> (r: bool)
    ensures
        r == meets(e, s),
{
    match e {
        Expect::Success => matches!(s, ExitStatus::Success),
        Expect::Timeout => matches!(s, ExitStatus::Timeout),
        Expect::NotFailure => !matches!(s, ExitStatus::Failure),
        Expect::Any => true,
    }
}

/// One sandboxed command of a stage.
pub struct Step {
    pub cmd: Vec<String>,
    /// Wall-clock limit in milliseconds; the sandbox default when absent.
    pub timeout_ms: Option<u64>,
    pub expect: Expect,
}

/// What a script asks for next.
#[derive(Clone, Copy, Debug, PartialEq, Eq, Structural)]
pub enum Next {
    /// Run step `i` and record its status.
    Run(usize),
    /// A step missed its expectation: the stage did not complete.
    Incomplete,
    /// Every step met its expectation.
    Complete,
}

/// The steps of a stage and the statuses they returned so far.
pub struct Script {
    pub steps: Vec<Step>,
    pub statuses: Vec<ExitStatus>,
}

/// Every recorded status met its step's expectation; a status beyond the
/// last step has nothing to meet.
pub open spec fn all_met(steps: Seq<Step>, statuses: Seq<ExitStatus>) -> bool {
    forall|i: int|
        0 <= i < statuses.len() && i < steps.len() ==> meets(steps[i].expect, #[trigger] statuses[i])
}

impl Script {
    /// A script that has run nothing yet.
    pub fn new(steps: Vec<Step>) -> (r: Script)
        ensures
            r.steps == steps,
            r.statuses@.len() == 0,
    {
        Script { steps, statuses: Vec::new() }
    }

    /// Record the status of the step last asked for.
    pub fn record(&mut self, s: ExitStatus)
        ensures
            final(self).steps == old(self).steps,
            final(self).statuses@ == old(self).statuses@.push(s),
    {
        self.statuses.push(s);
    }

    /// What to do next: stop at a missed expectation, finish once every
    /// step has a status, else run the next step.
    pub fn next(&self) -> (r: Next)
        ensures
            r == Next::Incomplete <==> !all_met(self.steps@, self.statuses@),
            r == Next::Complete <==> all_met(self.steps@, self.statuses@)
                && self.statuses@.len() >= self.steps@.len(),
            r matches Next::Run(i) ==> i == self.statuses@.len() && i < self.steps@.len(),
    {
        let k = self.statuses.len();
        let n = self.steps.len();
        let mut i: usize = 0;
        while i < k && i < n
            invariant
                k == self.statuses@.len(),
                n == self.steps@.len(),
                i <= k,
                forall|j: int| 0 <= j < i ==> meets(self.steps@[j].expect, #[trigger] self.statuses@[j]),
            decreases k - i,
        {
            if !check(self.steps[i].expect, self.statuses[i]) {
                return Next::Incomplete;
            }
            i = i + 1;
        }
        if k >= n {
            Next::Complete
        } else {
            Next::Run(k)
        }
    }
}

/// The number of times `x` occurs in `s`.
pub open spec fn occurrences(s: Seq<ExitStatus>, x: ExitStatus) -> nat
    decreases s.len(),
{
    if s.len() == 0 {
        0
    } else {
        occurrences(s.drop_last(), x) + if s.last() == x {
            1nat
        } else {
            0nat
        }
    }
}

/// The number of times `x` occurs in `s` from `from` up to `to`.
pub fn count_status(s: &Vec<ExitStatus>, from: usize, to: usize, x: ExitStatus) -> (r: usize)
    requires
        from <= to <= s@.len(),
    ensures
        r == occurrences(s@.subrange(from as int, to as int), x),
        r <= to - from,
{
    let mut n: usize = 0;
    let mut i: usize = from;
    while i < to
        invariant
            from <= i <= to <= s@.len(),
            n == occurrences(s@.subrange(from as int, i as int), x),
            n <= i - from,
        decreases to - i,
    {
        proof {
            assert(s@.subrange(from as int, i + 1).drop_last() =~= s@.subrange(from as int, i as int));
        }
        if s[i] == x {
            n = n + 1;
        }
        i = i + 1;
    }
    n
}

/// The views of a command line.
pub open spec fn words(v: Seq<String>) -> Seq<Seq<char>> {
    v.map_values(|s: String| s@)
}

/// A command line from its words.
pub fn command(parts: &[&str]) -> (r: Vec<String>)
    ensures
        words(r@) == parts@.map_values(|p: &str| p@),
{
    let mut r: Vec<String> = Vec::new();
    let mut i: usize = 0;
    while i < parts.len()
        invariant
            i <= parts@.len(),
            words(r@) == parts@.map_values(|p: &str| p@).subrange(0, i as int),
        decreases parts@.len() - i,
    {
        let ghost prev = r@;
        r.push(String::from_str(parts[i]));
        proof {
            assert(words(r@) =~= words(prev).push(parts@[i as int]@));
            assert(words(r@) =~= parts@.map_values(|p: &str| p@).subrange(0, i + 1));
        }
        i = i + 1;
    }
    proof {
        assert(parts@.map_values(|p: &str| p@).subrange(0, parts@.len() as int) =~= parts@.map_values(
            |p: &str| p@,
        ));
    }
    r
}

} // verus!
