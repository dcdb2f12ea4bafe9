//! How many trace requests an operation can make in a row.
//!
//! Every operation on the target ends after a bounded number of requests:
//! each answer to a trace request brings the session closer to a request
//! that is not for the traced process.

use vstd::prelude::*;
use crate::breakpoint::Breakpoint;
use crate::materialize::Materialize;
use crate::patch::{BytePatch, PatchStage};
use crate::protocol::{Reply, Request};
use crate::resume::Resume;
use crate::session::{Outcome, Phase, Session};
use crate::step_over::{StepOver, StepOverStage};
use crate::tracer::{answers, is_trace_request};
use crate::unwind::Unwind;
use crate::wait::StopWait;

verus! {

impl BytePatch {
    /// The requests that a byte write still makes at most.
    pub open spec fn turns_left(self) -> nat {
        match self.stage {
            PatchStage::Reading => 2,
            PatchStage::Writing(_, _) => 1,
        }
    }
}

impl StopWait {
    /// The requests that a wait still makes at most.
    pub open spec fn turns_left(self) -> nat {
        match self {
            StopWait::Waiting => 2,
            StopWait::Locating(_) => 1,
        }
    }
}

impl StepOver {
    /// The requests that a step over a breakpoint still makes at most.
    pub open spec fn turns_left(self) -> nat {
        match self.stage {
            StepOverStage::Restoring(patch) => patch.turns_left() + 6,
            StepOverStage::Rewinding => 6,
            StepOverStage::Stepping => 5,
            StepOverStage::Settling(wait) => wait.turns_left() + 2,
            StepOverStage::Rearming(patch) => patch.turns_left(),
        }
    }
}

impl Resume {
    /// The requests that a resume still makes at most.
    pub open spec fn turns_left(self) -> nat {
        match self {
            Resume::Inspecting => 12,
            Resume::SteppingOver(step) => step.turns_left() + 3,
            Resume::Continuing => 3,
            Resume::Waiting(wait) => wait.turns_left(),
        }
    }
}

impl Materialize {
    /// The requests that the installing of the breakpoints of `entries`,
    /// and the resume after it, still make at most.
    pub open spec fn turns_left(self, entries: Seq<Breakpoint>) -> nat {
        (2 * (entries.len() - self.number - 1) + self.patch.turns_left() + 12) as nat
    }
}

impl Unwind {
    /// The trace requests that a backtrace still makes at most before it
    /// looks something up.
    pub open spec fn turns_left(self) -> nat {
        match self {
            Unwind::Inspecting => 1,
            Unwind::ReturnAddress(_) => 2,
            Unwind::CallerBase(_, _) => 1,
            _ => 0,
        }
    }
}

impl Session {
    /// The trace requests that the session still makes at most before it
    /// asks for something else.
    pub open spec fn turns_left(self) -> nat {
        match self.phase {
            Phase::Materializing(m) => m.turns_left(self.breakpoints),
            Phase::Resuming(resume) => resume.turns_left(),
            Phase::Unwinding(unwind) => unwind.turns_left(),
            Phase::Installing(patch) => patch.turns_left(),
            _ => 0,
        }
    }
}

impl Session {
    /// What the answer `first` and then the answers `rest`, one after the
    /// other, lead to: the session after the last one, everything that was
    /// to be shown on the way, and the request after the last answer.
    pub open spec fn ran_all(self, first: Reply, rest: Seq<Reply>) -> Outcome
        decreases rest.len(),
    {
        if rest.len() == 0 {
            self.ran(first)
        } else {
            let before = self.ran_all(first, rest.drop_last());
            let last = before.session.ran(rest.last());
            Outcome {
                session: last.session,
                reports: before.reports + last.reports,
                request: last.request,
            }
        }
    }

    /// Each of the answers `rest` answers a trace request: after `first`
    /// and the answers before it, the session asks for an operation on the
    /// traced process, and the answer is of the kind of that request and one
    /// that the session takes.
    pub open spec fn all_traced(self, first: Reply, rest: Seq<Reply>) -> bool
        decreases rest.len(),
    {
        rest.len() > 0 ==> {
            let asked = self.ran_all(first, rest.drop_last()).request;
            &&& self.all_traced(first, rest.drop_last())
            &&& is_trace_request(asked)
            &&& answers(asked, rest.last())
            &&& rest.last().is_handled()
        }
    }
}

/// The request that the session hands out is the one that it then waits for.
pub proof fn lemma_request_is_awaited(session: Session, reply: Reply)
    requires
        session.wf(),
    ensures
        session.ran(reply).session.awaits(session.ran(reply).request),
{
}

/// Each answer to a trace request leaves the session fewer trace requests
/// to make in a row: no command keeps the traced process busy for ever.
pub proof fn lemma_trace_requests_run_out(session: Session, request: Request, reply: Reply)
    requires
        session.wf(),
        session.awaits(request),
        is_trace_request(request),
    ensures
        session.ran(reply).session.turns_left() < session.turns_left(),
{
}

} // verus!
