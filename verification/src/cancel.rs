//! Cancellation: an interrupt that the user asks for, and errors that remember
//! it.

use vstd::prelude::*;

use crate::duration::{Duration, NANOS_PER_MILLISECOND};

verus! {

/// How long a sleeper goes without looking for an interrupt.
pub const CANCELLATION_POLL_MILLISECONDS: u64 = 50;

/// The exit code of a program that was interrupted.
pub const INTERRUPTED_EXIT_CODE: i32 = 130;

/// Says that an operation was interrupted.
#[derive(Clone, Copy, Debug, PartialEq, Eq, Structural)]
pub struct Cancelled;

impl Cancelled {
    /// The words for it.
    pub fn message(&self) -> (r: &'static str)
        ensures
            r@ == "operation interrupted"@,
    {
        "operation interrupted"
    }
}

/// What a sleeper does next.
#[derive(Clone, Copy, Debug, PartialEq, Eq, Structural)]
pub enum SleepStep {
    Interrupted,
    Over,
    SleepFor(Duration),
}

/// What the handler of an interrupt does.
#[derive(Clone, Copy, Debug, PartialEq, Eq, Structural)]
pub enum InterruptAction {
    Remember,
    ExitAtOnce(i32),
}

/// The interrupts of a process: whether one came. A process has one such state,
/// which all its cancellations look at and nothing resets.
#[derive(Debug)]
pub struct Interrupts {
    requested: bool,
}

impl Interrupts {
    /// Whether an interrupt was asked for.
    pub closed spec fn asked(self) -> bool {
        self.requested
    }

    /// The state of a process that was not interrupted yet.
    pub fn new() -> (r: Interrupts)
        ensures
            !r.asked(),
    {
        Interrupts { requested: false }
    }

    /// Notes an interrupt: the first is remembered, any other ends the program
    /// at once.
    pub fn note_interrupt(&mut self) -> (r: InterruptAction)
        ensures
            final(self).asked(),
            r == if old(self).asked() {
                InterruptAction::ExitAtOnce(INTERRUPTED_EXIT_CODE)
            } else {
                InterruptAction::Remember
            },
    {
        if self.requested {
            return InterruptAction::ExitAtOnce(INTERRUPTED_EXIT_CODE);
        }
        self.requested = true;
        InterruptAction::Remember
    }
}

/// A look at the interrupts of the process.
#[derive(Clone, Copy, Debug, Default, PartialEq, Eq, Structural)]
pub struct Cancellation;

impl Cancellation {
    /// A cancellation that installs no interrupt handler. It sees the interrupts
    /// that another one's handler notes.
    pub fn passive() -> (r: Cancellation)
        ensures
            r == Cancellation,
    {
        Cancellation
    }

    /// A cancellation whose interrupt handler was installed, or the error number
    /// of the attempt to install it.
    pub fn install(installed: Result<(), i32>) -> (r: Result<Cancellation, i32>)
        ensures
            match installed {
                Ok(_) => r == Ok::<Cancellation, i32>(Cancellation),
                Err(e) => r == Err::<Cancellation, i32>(e),
            },
    {
        match installed {
            Ok(_) => Ok(Cancellation),
            Err(e) => Err(e),
        }
    }

    /// Whether an interrupt was asked for.
    pub fn is_requested(self, state: &Interrupts) -> (r: bool)
        ensures
            r == state.asked(),
    {
        state.requested
    }

    /// An error where an interrupt was asked for.
    pub fn check(self, state: &Interrupts) -> (r: Result<(), Cancelled>)
        ensures
            r == if state.asked() {
                Err::<(), Cancelled>(Cancelled)
            } else {
                Ok::<(), Cancelled>(())
            },
    {
        if self.is_requested(state) {
            Err(Cancelled)
        } else {
            Ok(())
        }
    }

    /// What a sleeper with the given time left does next: an interrupt comes
    /// first, and no sleep is longer than the interval between two looks.
    pub fn sleep_step(self, state: &Interrupts, remaining: Duration) -> (r: SleepStep)
        ensures
            if state.asked() {
                r is Interrupted
            } else if remaining@ == 0 {
                r is Over
            } else {
                r matches SleepStep::SleepFor(d) && d@ == if remaining@
                    <= CANCELLATION_POLL_MILLISECONDS * NANOS_PER_MILLISECOND {
                    remaining@
                } else {
                    (CANCELLATION_POLL_MILLISECONDS * NANOS_PER_MILLISECOND) as nat
                }
            },
    {
        if self.is_requested(state) {
            return SleepStep::Interrupted;
        }
        if remaining.is_zero() {
            return SleepStep::Over;
        }
        let interval = Duration::from_millis(CANCELLATION_POLL_MILLISECONDS);
        if remaining.at_most(&interval) {
            SleepStep::SleepFor(remaining)
        } else {
            SleepStep::SleepFor(interval)
        }
    }
}

/// Whether the states of a process come one after another: between two of them
/// an interrupt was noted, or nothing happened.
pub open spec fn is_history(states: Seq<Interrupts>) -> bool {
    forall|i: int|
        0 <= i < states.len() - 1 ==> (#[trigger] states[i + 1]) == states[i]
            || states[i + 1].asked()
}

/// Once an interrupt was asked for, every later look finds it, whichever
/// cancellation looks: the request belongs to the process and is never
/// withdrawn.
pub proof fn law_a_request_is_never_withdrawn(
    states: Seq<Interrupts>,
    i: int,
    j: int,
    first: Cancellation,
    second: Cancellation,
    seen: bool,
    outcome: Result<(), Cancelled>,
)
    requires
        is_history(states),
        0 <= i <= j < states.len(),
        call_ensures(Cancellation::is_requested, (first, &states[i]), true),
        call_ensures(Cancellation::is_requested, (second, &states[j]), seen),
        call_ensures(Cancellation::check, (second, &states[j]), outcome),
    ensures
        seen,
        outcome == Err::<(), Cancelled>(Cancelled),
{
    lemma_still_asked(states, i, j);
}

proof fn lemma_still_asked(states: Seq<Interrupts>, i: int, j: int)
    requires
        is_history(states),
        0 <= i <= j < states.len(),
        states[i].asked(),
    ensures
        states[j].asked(),
    decreases j - i,
{
    if i < j {
        lemma_still_asked(states, i, j - 1);
        assert(states[(j - 1) + 1] == states[j]);
    }
}

/// One cause of an error.
#[derive(Clone, Debug, PartialEq, Eq)]
pub enum Cause {
    Cancelled,
    Message(String),
}

/// An error with its causes, the outermost first.
#[derive(Clone, Debug, PartialEq, Eq)]
pub struct ErrorChain {
    pub causes: Vec<Cause>,
}

/// Whether an interrupt is among causes.
pub open spec fn holds_cancellation(causes: Seq<Cause>) -> bool {
    exists|i: int| 0 <= i < causes.len() && (#[trigger] causes[i]) is Cancelled
}

impl ErrorChain {
    /// An error with one cause.
    pub fn new(cause: Cause) -> (r: ErrorChain)
        ensures
            r.causes@ == seq![cause],
    {
        let mut causes: Vec<Cause> = Vec::new();
        causes.push(cause);
        assert(causes@ =~= seq![cause]);
        ErrorChain { causes }
    }

    /// The error of an interrupt.
    pub fn cancelled() -> (r: ErrorChain)
        ensures
            r.causes@ == seq![Cause::Cancelled],
    {
        ErrorChain::new(Cause::Cancelled)
    }

    /// The same error with a message around it.
    pub fn context(self, message: String) -> (r: ErrorChain)
        ensures
            r.causes@ == seq![Cause::Message(message)] + self.causes@,
            holds_cancellation(r.causes@) == holds_cancellation(self.causes@),
    {
        let mut causes = self.causes;
        let ghost before = causes@;
        causes.insert(0, Cause::Message(message));
        assert(causes@ =~= seq![Cause::Message(message)] + before);
        proof {
            if holds_cancellation(before) {
                let i = choose|i: int| 0 <= i < before.len() && (#[trigger] before[i]) is Cancelled;
                assert(causes@[i + 1] is Cancelled);
            }
            if holds_cancellation(causes@) {
                let i = choose|i: int|
                    0 <= i < causes@.len() && (#[trigger] causes@[i]) is Cancelled;
                assert(before[i - 1] is Cancelled);
            }
        }
        ErrorChain { causes }
    }

    /// The words of the outermost cause.
    pub open spec fn words(self) -> Seq<char> {
        if self.causes@.len() == 0 {
            Seq::empty()
        } else {
            match self.causes@[0] {
                Cause::Cancelled => "operation interrupted"@,
                Cause::Message(m) => m@,
            }
        }
    }

    /// The words of the outermost cause.
    pub fn message(&self) -> (out: String)
        ensures
            out@ == self.words(),
    {
        if self.causes.len() == 0 {
            return String::new();
        }
        match &self.causes[0] {
            Cause::Cancelled => "operation interrupted".to_owned(),
            Cause::Message(m) => m.clone(),
        }
    }
}

/// Whether an interrupt is among the causes of an error.
pub fn error_is_cancelled(error: &ErrorChain) -> (r: bool)
    ensures
        r == holds_cancellation(error.causes@),
{
    let mut i: usize = 0;
    while i < error.causes.len()
        invariant
            i <= error.causes@.len(),
            forall|k: int| 0 <= k < i ==> !((#[trigger] error.causes@[k]) is Cancelled),
        decreases error.causes@.len() - i,
    {
        if let Cause::Cancelled = &error.causes[i] {
            assert(error.causes@[i as int] is Cancelled);
            return true;
        }
        i = i + 1;
    }
    false
}

} // verus!
