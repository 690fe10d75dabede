//! The once-only latch that guards the set-up of the native engine.
//!
//! The engine must be set up exactly once in a process, however many
//! callers ask for it. The latch keeps the outcome of that one set-up.
//! A caller asks the latch what to do ([`InitLatch::arrive`]): the first
//! is told to run the set-up and reports how it went
//! ([`InitLatch::settle`]); every later one is handed the outcome that
//! the first reported. The caller holds the latch exclusively from the
//! question to the report, so nobody sees it in between.

use vstd::prelude::*;
use crate::error::{ErrorView, PdfiumError};

verus! {

/// What the latch tells a caller to do.
#[derive(Debug)]
pub enum Admission {
    /// Nobody has set the engine up: run the set-up, then settle.
    RunSetup,
    /// The set-up has been run; this is how it went.
    Settled(Result<(), PdfiumError>),
}

/// What every caller is told once the set-up went well or did not.
pub open spec fn verdict(ready: bool) -> Result<(), ErrorView> {
    if ready {
        Ok(())
    } else {
        Err(ErrorView::InitializationFailed)
    }
}

/// The mathematical value of what a caller is told.
pub open spec fn verdict_view(outcome: Result<(), PdfiumError>) -> Result<(), ErrorView> {
    match outcome {
        Ok(_) => Ok(()),
        Err(error) => Err(error@),
    }
}

/// The latch after a report: the first report stays.
pub open spec fn settled(latch: Option<bool>, ready: bool) -> Option<bool> {
    match latch {
        Some(_) => latch,
        None => Some(ready),
    }
}

/// Whether a caller who meets the latch in this state runs the set-up.
pub open spec fn runs_setup(latch: Option<bool>) -> bool {
    latch is None
}

/// The latch. Its value is the outcome of the set-up, or `None` while
/// nobody has run it.
pub struct InitLatch {
    outcome: Option<bool>,
}

impl View for InitLatch {
    type V = Option<bool>;

    closed spec fn view(&self) -> Option<bool> {
        self.outcome
    }
}

impl InitLatch {
    /// A latch that nobody has passed yet.
    pub fn new() -> (latch: InitLatch)
        ensures
            latch@ is None,
    {
        InitLatch { outcome: None }
    }

    /// Tells the caller to run the set-up if nobody has, and else how
    /// the set-up went.
    pub fn arrive(&self) -> (admission: Admission)
        ensures
            runs_setup(self@) <==> admission is RunSetup,
            !runs_setup(self@) ==> admission is Settled && verdict_view(admission->Settled_0)
                == verdict(self@->0),
    {
        match self.outcome {
            None => Admission::RunSetup,
            Some(true) => Admission::Settled(Ok(())),
            Some(false) => Admission::Settled(Err(PdfiumError::InitializationFailed)),
        }
    }

    /// Takes the report of the caller who ran the set-up and returns
    /// what every caller is told from now on. A report to a latch that
    /// has one already changes nothing.
    pub fn settle(&mut self, ready: bool) -> (outcome: Result<(), PdfiumError>)
        ensures
            final(self)@ == settled(old(self)@, ready),
            verdict_view(outcome) == verdict(final(self)@->0),
    {
        if self.outcome.is_none() {
            self.outcome = Some(ready);
        }
        match self.outcome {
            Some(true) => Ok(()),
            _ => Err(PdfiumError::InitializationFailed),
        }
    }
}

/// One request for initialization as a whole, on a latch in state
/// `latch`, where the set-up would go as `ready` says if it is run: the
/// latch afterwards.
pub open spec fn latch_after(latch: Option<bool>, ready: bool) -> Option<bool> {
    if runs_setup(latch) {
        settled(latch, ready)
    } else {
        latch
    }
}

/// The outcome that this request observes.
pub open spec fn observed(latch: Option<bool>, ready: bool) -> bool {
    latch_after(latch, ready)->0
}

/// The latch after the first `n` of a row of requests; `setups[i]`
/// says how the set-up would go if request `i` ran it.
pub open spec fn latch_after_requests(setups: Seq<bool>, n: nat) -> Option<bool>
    decreases n,
{
    if n == 0 {
        None
    } else {
        latch_after(latch_after_requests(setups, (n - 1) as nat), setups[n - 1])
    }
}

/// How many of the first `n` requests run the set-up.
pub open spec fn setups_run(setups: Seq<bool>, n: nat) -> nat
    decreases n,
{
    if n == 0 {
        0
    } else {
        let before = setups_run(setups, (n - 1) as nat);
        if runs_setup(latch_after_requests(setups, (n - 1) as nat)) {
            before + 1
        } else {
            before
        }
    }
}

/// However many requests for initialization follow one another, the
/// set-up is run exactly once, by the first, and every request
/// observes the outcome of that one run.
pub proof fn lemma_setup_runs_once(setups: Seq<bool>, n: nat)
    requires
        0 < n <= setups.len(),
    ensures
        setups_run(setups, n) == 1,
        latch_after_requests(setups, n) == Some(setups[0]),
        forall|i: nat|
            i < n ==> observed(#[trigger] latch_after_requests(setups, i), setups[i as int])
                == setups[0],
        forall|i: nat|
            i < n ==> (runs_setup(#[trigger] latch_after_requests(setups, i)) <==> i == 0),
    decreases n,
{
    if n > 1 {
        lemma_setup_runs_once(setups, (n - 1) as nat);
    }
    assert(setups_run(setups, 1) == 1) by {
        assert(setups_run(setups, 0) == 0);
    }
}

} // verus!
