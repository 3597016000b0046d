use vstd::prelude::*;

verus! {

/// Where a batch of asset loads stands.
#[derive(Debug, Clone, Copy, PartialEq, Eq, Structural)]
pub enum Completion {
    Complete,
    Failed,
    Loading,
}

/// A batch is failed as soon as one asset failed, complete once every
/// scheduled asset succeeded, and loading otherwise.
pub open spec fn spec_completion(assets: nat, finished: nat, failed: nat) -> Completion {
    if failed > 0 {
        Completion::Failed
    } else if finished == assets {
        Completion::Complete
    } else {
        Completion::Loading
    }
}

/// Counts the assets of a batch and how each load ended, keeping the error
/// of each failed one.
#[derive(Debug)]
pub struct ProgressCounter {
    num_assets: usize,
    num_finished: usize,
    errors: Vec<String>,
}

impl ProgressCounter {
    /// The number of assets scheduled.
    pub closed spec fn assets(&self) -> nat {
        self.num_assets as nat
    }

    /// The number of assets loaded successfully.
    pub closed spec fn finished(&self) -> nat {
        self.num_finished as nat
    }

    /// The errors of the failed assets, in the order they were reported.
    pub closed spec fn failures(&self) -> Seq<String> {
        self.errors@
    }

    /// No more loads have ended than were scheduled.
    pub open spec fn wf(&self) -> bool {
        self.finished() + self.failures().len() <= self.assets()
    }

    /// The number of scheduled assets whose load has not ended yet.
    pub open spec fn pending(&self) -> nat {
        (self.assets() - self.finished() - self.failures().len()) as nat
    }

    pub open spec fn spec_complete(&self) -> Completion {
        spec_completion(self.assets(), self.finished(), self.failures().len())
    }

    pub fn new() -> (r: ProgressCounter)
        ensures
            r.wf(),
            r.assets() == 0,
            r.finished() == 0,
            r.failures() == Seq::<String>::empty(),
    {
        ProgressCounter { num_assets: 0, num_finished: 0, errors: Vec::new() }
    }

    /// Schedules `n` more assets.
    pub fn add_assets(&mut self, n: usize)
        requires
            old(self).wf(),
            old(self).assets() + n <= usize::MAX,
        ensures
            final(self).wf(),
            final(self).assets() == old(self).assets() + n,
            final(self).finished() == old(self).finished(),
            final(self).failures() == old(self).failures(),
    {
        self.num_assets = self.num_assets + n;
    }

    /// Reports that one scheduled asset loaded. With no load pending this
    /// changes nothing and returns `false`.
    pub fn success(&mut self) -> (r: bool)
        requires
            old(self).wf(),
        ensures
            final(self).wf(),
            r == (old(self).pending() > 0),
            final(self).assets() == old(self).assets(),
            final(self).finished() == old(self).finished() + (if r {
                1nat
            } else {
                0nat
            }),
            final(self).failures() == old(self).failures(),
    {
        if self.num_finished + self.errors.len() < self.num_assets {
            self.num_finished = self.num_finished + 1;
            true
        } else {
            false
        }
    }

    /// Reports that one scheduled asset failed to load, with its error. With
    /// no load pending this changes nothing and returns `false`.
    pub fn fail(&mut self, error: String) -> (r: bool)
        requires
            old(self).wf(),
        ensures
            final(self).wf(),
            r == (old(self).pending() > 0),
            final(self).assets() == old(self).assets(),
            final(self).finished() == old(self).finished(),
            final(self).failures() == (if r {
                old(self).failures().push(error)
            } else {
                old(self).failures()
            }),
    {
        if self.num_finished + self.errors.len() < self.num_assets {
            self.errors.push(error);
            true
        } else {
            false
        }
    }

    /// Where the batch stands.
    pub fn complete(&self) -> (r: Completion)
        requires
            self.wf(),
        ensures
            r == self.spec_complete(),
    {
        if self.errors.len() > 0 {
            Completion::Failed
        } else if self.num_finished == self.num_assets {
            Completion::Complete
        } else {
            Completion::Loading
        }
    }

    /// The errors of the failed assets, in the order they were reported.
    pub fn errors(&self) -> (r: &Vec<String>)
        ensures
            r@ == self.failures(),
    {
        &self.errors
    }

    pub fn num_assets(&self) -> (r: usize)
        ensures
            r == self.assets(),
    {
        self.num_assets
    }

    pub fn num_finished(&self) -> (r: usize)
        ensures
            r == self.finished(),
    {
        self.num_finished
    }

    pub fn num_failed(&self) -> (r: usize)
        ensures
            r == self.failures().len(),
    {
        self.errors.len()
    }
}

/// The phases of the application around asset loading. `Failed` is final.
#[derive(Debug, Clone, Copy, PartialEq, Eq, Structural)]
pub enum Phase {
    Loading,
    Running,
    Failed,
}

/// What the application does after a tick of the loading phase: keep
/// loading, switch to the running game, or shut down.
#[derive(Debug, Clone, Copy, PartialEq, Eq, Structural)]
pub enum Trans {
    Wait,
    Switch,
    Quit,
}

/// The phase the loading state moves to from `s` when the batch stands at `c`.
pub open spec fn next_state(s: Phase, c: Completion) -> Phase {
    match s {
        Phase::Loading => match c {
            Completion::Complete => Phase::Running,
            Completion::Failed => Phase::Failed,
            Completion::Loading => Phase::Loading,
        },
        _ => s,
    }
}

/// What the application is told when the loading state moves from `s` with the
/// batch at `c`.
pub open spec fn transition(s: Phase, c: Completion) -> Trans {
    match s {
        Phase::Loading => match c {
            Completion::Complete => Trans::Switch,
            Completion::Failed => Trans::Quit,
            Completion::Loading => Trans::Wait,
        },
        _ => Trans::Wait,
    }
}

/// The loading phase: holds the application until the assets are loaded.
#[derive(Debug)]
pub struct Load {
    pub state: Phase,
}

impl Load {
    pub fn new() -> (r: Load)
        ensures
            r.state == Phase::Loading,
    {
        Load { state: Phase::Loading }
    }

    /// One tick: looks at the batch and moves on to running once every
    /// asset loaded, to failed once one did not, and stays otherwise. Only
    /// the loading phase moves; the errors stay readable in `progress`.
    pub fn update(&mut self, progress: &ProgressCounter) -> (r: Trans)
        requires
            progress.wf(),
        ensures
            final(self).state == next_state(old(self).state, progress.spec_complete()),
            r == transition(old(self).state, progress.spec_complete()),
    {
        match self.state {
            Phase::Loading => match progress.complete() {
                Completion::Complete => {
                    self.state = Phase::Running;
                    Trans::Switch
                },
                Completion::Failed => {
                    self.state = Phase::Failed;
                    Trans::Quit
                },
                Completion::Loading => Trans::Wait,
            },
            _ => Trans::Wait,
        }
    }
}

} // verus!
