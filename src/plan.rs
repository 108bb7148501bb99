//! Plans of outside work: the library decides the commands and files, the
//! caller carries them out in order and stops at the first failure.

use vstd::prelude::*;
use crate::text::views;

verus! {

/// A program to run: its arguments, the directory to run it in, and the file
/// that receives its standard output.
#[derive(Clone, Debug, PartialEq, Eq)]
pub struct Command {
    pub program: String,
    pub args: Vec<String>,
    pub cwd: Option<String>,
    pub stdout_to: Option<String>,
}

/// One step of a plan.
#[derive(Clone, Debug, PartialEq, Eq)]
pub enum Step {
    /// Create a directory (its parent exists).
    MakeDir(String),
    /// Write a file with the given text.
    WriteFile(String, String),
    /// Copy a file to a new path.
    Copy(String, String),
    /// Run a command; a non-zero exit status fails the step.
    Run(Command),
}

/// A step, over character sequences.
pub enum StepV {
    MakeDir(Seq<char>),
    WriteFile(Seq<char>, Seq<char>),
    Copy(Seq<char>, Seq<char>),
    Run(Seq<char>, Seq<Seq<char>>, Option<Seq<char>>, Option<Seq<char>>),
}

pub open spec fn opt_view(o: Option<String>) -> Option<Seq<char>> {
    match o {
        Some(s) => Some(s@),
        None => None,
    }
}

pub open spec fn step_view(s: Step) -> StepV {
    match s {
        Step::MakeDir(p) => StepV::MakeDir(p@),
        Step::WriteFile(p, t) => StepV::WriteFile(p@, t@),
        Step::Copy(a, b) => StepV::Copy(a@, b@),
        Step::Run(c) => StepV::Run(c.program@, views(c.args@), opt_view(c.cwd), opt_view(c.stdout_to)),
    }
}

pub open spec fn steps_view(v: Seq<Step>) -> Seq<StepV> {
    v.map_values(|s: Step| step_view(s))
}

/// A command step.
pub fn run(program: &str, args: Vec<String>, cwd: Option<String>, stdout_to: Option<String>) -> (r: Step)
    ensures
        step_view(r) == StepV::Run(program@, views(args@), opt_view(cwd), opt_view(stdout_to)),
{
    Step::Run(Command { program: program.to_owned(), args, cwd, stdout_to })
}

/// Appends `s` to `plan`.
pub fn push_step(plan: &mut Vec<Step>, s: Step)
    ensures
        steps_view(final(plan)@) == steps_view(old(plan)@).push(step_view(s)),
{
    let ghost before = plan@;
    plan.push(s);
    assert(steps_view(plan@) =~= steps_view(before).push(step_view(s)));
}

/// Where a plan's execution stands: `next` steps have succeeded, and
/// `failed` tells whether the step after them failed, which ends the run.
/// `outcomes` records the result of every step run so far.
pub struct Runner {
    pub next: usize,
    pub failed: bool,
    pub outcomes: Ghost<Seq<bool>>,
}

impl Runner {
    /// The outcomes match the counters: every counted step succeeded, and a
    /// failure is the last outcome.
    pub open spec fn wf(&self) -> bool {
        &&& self.outcomes@.len() == self.next + (if self.failed { 1int } else { 0int })
        &&& forall|k: int| 0 <= k < self.next ==> self.outcomes@[k]
        &&& self.failed ==> !self.outcomes@[self.next as int]
    }

    /// A run that has not started.
    pub fn new() -> (r: Runner)
        ensures
            r.wf(),
            r.next == 0,
            !r.failed,
    {
        Runner { next: 0, failed: false, outcomes: Ghost(Seq::empty()) }
    }

    /// The step to run now, if any, in a plan of `len` steps.
    pub fn current(&self, len: usize) -> (r: Option<usize>)
        requires
            self.wf(),
        ensures
            r == (if !self.failed && self.next < len {
                Some(self.next)
            } else {
                None::<usize>
            }),
            r matches Some(i) ==> forall|k: int| 0 <= k < i ==> self.outcomes@[k],
    {
        if !self.failed && self.next < len {
            Some(self.next)
        } else {
            None
        }
    }

    /// Records the outcome of the current step.
    pub fn record(&mut self, ok: bool)
        requires
            old(self).wf(),
            !old(self).failed,
            old(self).next < usize::MAX,
        ensures
            final(self).wf(),
            final(self).outcomes@ == old(self).outcomes@.push(ok),
            ok ==> final(self).next == old(self).next + 1 && !final(self).failed,
            !ok ==> final(self).next == old(self).next && final(self).failed,
    {
        let ghost before = self.outcomes@;
        self.outcomes = Ghost(before.push(ok));
        if ok {
            self.next = self.next + 1;
        } else {
            self.failed = true;
        }
    }
}

/// A step is started only after every earlier step of the plan succeeded.
pub proof fn lemma_runs_in_order(r: Runner, i: int, k: int)
    requires
        r.wf(),
        !r.failed,
        i == r.next,
        0 <= k < i,
    ensures
        r.outcomes@[k],
{
}

} // verus!
