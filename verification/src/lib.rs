//! Framework for writing service checkers: programs that plant a secret
//! flag in a network service, later verify it is still retrievable, and
//! probe general service health, reporting exactly one outcome per run
//! to an external controller.

pub mod codec;
pub mod context;
pub mod error;
pub mod flag;
pub mod ipc;
pub mod local;
pub mod log;

pub use context::Context;
pub use error::Error;

use vstd::prelude::*;

verus! {

/// The fixed outcome vocabulary reported to the controller: exactly one
/// of these is stored per completed run.
#[derive(Debug, Clone, Copy, PartialEq, Eq, Structural)]
pub enum CheckerResult {
    Okay,
    Down,
    Faulty,
    FlagNotFound,
    Recovering,
}

/// The controller-facing name of each outcome.
pub open spec fn result_name(r: CheckerResult) -> Seq<char> {
    match r {
        CheckerResult::Okay => "OK"@,
        CheckerResult::Down => "DOWN"@,
        CheckerResult::Faulty => "FAULTY"@,
        CheckerResult::FlagNotFound => "FLAG_NOT_FOUND"@,
        CheckerResult::Recovering => "RECOVERING"@,
    }
}

impl CheckerResult {
    /// Renders the outcome under its controller-facing name.
    pub fn result_string(&self) -> (r: String)
        ensures
            r@ == result_name(*self),
    {
        match self {
            CheckerResult::Okay => String::from_str("OK"),
            CheckerResult::Down => String::from_str("DOWN"),
            CheckerResult::Faulty => String::from_str("FAULTY"),
            CheckerResult::FlagNotFound => String::from_str("FLAG_NOT_FOUND"),
            CheckerResult::Recovering => String::from_str("RECOVERING"),
        }
    }
}

/// Author-supplied checker logic: plant a flag, verify a flag at a given
/// tick, probe service health. Each call returns success or an `Error`;
/// a structured verdict travels as `Error::CheckerError`.
pub trait Checker<B: crate::ipc::ControlInterface> {
    /// Plants this run's flag in the service. Reporting an outcome is the
    /// driver's job alone, so the backend's reported outcomes must be
    /// left untouched.
    fn place_flag(&mut self, context: &mut Context<B>) -> (r: Result<(), Error>)
        requires
            old(context).wf(),
        ensures
            final(context).wf(),
            final(context).ctrl.results() == old(context).ctrl.results(),
    ;

    /// Verifies the flag planted at the given tick is still retrievable.
    /// The backend's reported outcomes must be left untouched.
    fn check_flag(&mut self, context: &mut Context<B>, tick: u32) -> (r: Result<(), Error>)
        requires
            old(context).wf(),
        ensures
            final(context).wf(),
            final(context).ctrl.results() == old(context).ctrl.results(),
    ;

    /// Probes general service health. The backend's reported outcomes
    /// must be left untouched.
    fn check_service(&mut self, context: &mut Context<B>) -> (r: Result<(), Error>)
        requires
            old(context).wf(),
        ensures
            final(context).wf(),
            final(context).ctrl.results() == old(context).ctrl.results(),
    ;
}

/// The ticks one run verifies flags at, in driver order.
pub open spec fn tick_schedule() -> Seq<u32> {
    seq![0u32, 1u32, 2u32, 3u32, 4u32]
}

/// The tick schedule is exactly 0,1,2,3,4: five ticks, starting at zero,
/// strictly increasing, never repeated.
pub proof fn lemma_tick_schedule()
    ensures
        tick_schedule().len() == 5,
        forall|a: int| 0 <= a < 5 ==> tick_schedule()[a] == a,
        forall|a: int, b: int| 0 <= a < b < 5 ==> tick_schedule()[a] < tick_schedule()[b],
{
    assert(tick_schedule()[0] == 0);
    assert(tick_schedule()[1] == 1);
    assert(tick_schedule()[2] == 2);
    assert(tick_schedule()[3] == 3);
    assert(tick_schedule()[4] == 4);
}

/// The tick schedule, as the driver iterates it.
pub fn tick_values() -> (v: Vec<u32>)
    ensures
        v@ == tick_schedule(),
{
    let mut v: Vec<u32> = Vec::new();
    v.push(0);
    v.push(1);
    v.push(2);
    v.push(3);
    v.push(4);
    proof { assert(v@ =~= tick_schedule()); }
    v
}

/// The outcome the driver stores for a lifecycle result: unqualified
/// success becomes `Okay`, a structured checker outcome becomes itself,
/// and every other failure kind maps to none (fatal, nothing stored).
pub open spec fn outcome_spec(r: Result<(), Error>) -> Option<CheckerResult> {
    match r {
        Ok(()) => Some(CheckerResult::Okay),
        Err(Error::CheckerError(c)) => Some(c),
        Err(_) => None,
    }
}

/// Maps a lifecycle result to the outcome to store.
pub fn outcome_for(r: &Result<(), Error>) -> (o: Option<CheckerResult>)
    ensures
        o == outcome_spec(*r),
{
    match r {
        Ok(()) => Some(CheckerResult::Okay),
        Err(Error::CheckerError(c)) => Some(*c),
        Err(_) => None,
    }
}

/// Runs the fixed lifecycle fail-fast: place_flag, then check_flag at
/// each scheduled tick in order, then check_service; the first failure
/// aborts the remaining sequence.
pub fn run_lifecycle<B: crate::ipc::ControlInterface, C: Checker<B>>(
    context: &mut Context<B>,
    checker: &mut C,
) -> (r: Result<(), Error>)
    requires
        old(context).wf(),
    ensures
        final(context).wf(),
        final(context).ctrl.results() == old(context).ctrl.results(),
{
    match checker.place_flag(context) {
        Err(e) => { return Err(e); },
        _ => {},
    }
    let ticks = tick_values();
    let mut i: usize = 0;
    while i < ticks.len()
        invariant
            context.wf(),
            context.ctrl.results() == old(context).ctrl.results(),
            i <= ticks@.len(),
            ticks@ == tick_schedule(),
        decreases ticks@.len() - i,
    {
        let t = ticks[i];
        match checker.check_flag(context, t) {
            Err(e) => { return Err(e); },
            _ => {},
        }
        i = i + 1;
    }
    checker.check_service(context)
}

/// Stores the outcome a lifecycle result maps to. On success, exactly
/// one outcome — the mapped one — has been reported; on failure none has:
/// a fatal lifecycle failure (one that maps to no outcome) is returned
/// unconverted, and a failed report is returned as its own error.
pub fn store_outcome<B: crate::ipc::ControlInterface>(
    context: &mut Context<B>,
    lifecycle: Result<(), Error>,
) -> (r: Result<CheckerResult, Error>)
    requires
        old(context).wf(),
    ensures
        final(context).wf(),
        (match r {
            Ok(c) => outcome_spec(lifecycle) == Some(c)
                && final(context).ctrl.results() == old(context).ctrl.results().push(c),
            Err(_) => final(context).ctrl.results() == old(context).ctrl.results(),
        }),
        (match lifecycle {
            Err(e) => outcome_spec(lifecycle) is None
                ==> r == Err::<CheckerResult, Error>(e),
            Ok(()) => true,
        }),
        (old(context).ctrl.reporting_infallible() && outcome_spec(lifecycle) is Some)
            ==> r is Ok,
{
    match outcome_for(&lifecycle) {
        Some(outcome) => match context.store_result(&outcome) {
            Ok(()) => Ok(outcome),
            Err(e) => Err(e),
        },
        None => match lifecycle {
            Err(e) => Err(e),
            Ok(()) => {
                proof { assert(false); }
                Err(Error::IoError)
            },
        },
    }
}

/// Runs one whole check: the fixed lifecycle on the given context and
/// checker, then the outcome mapping. On success exactly one outcome —
/// the returned one — has been reported for the whole run; on failure
/// none has, and the fatal error is returned for the caller to surface
/// by abnormal termination.
pub fn run_check<B: crate::ipc::ControlInterface, C: Checker<B>>(
    context: &mut Context<B>,
    checker: &mut C,
) -> (r: Result<CheckerResult, Error>)
    requires
        old(context).wf(),
    ensures
        final(context).wf(),
        (match r {
            Ok(c) => final(context).ctrl.results() == old(context).ctrl.results().push(c),
            Err(_) => final(context).ctrl.results() == old(context).ctrl.results(),
        }),
{
    let lifecycle = run_lifecycle(context, checker);
    store_outcome(context, lifecycle)
}


} // verus!
