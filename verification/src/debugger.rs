//! The debugger: one session over one program.

use vstd::prelude::*;
use crate::bound::{lemma_request_is_awaited, lemma_trace_requests_run_out};
use crate::breakpoint::{Breakpoint, BreakpointTable, TRAP_BYTE};
use crate::command::DebuggerCommand;
use crate::inferior::Inferior;
use crate::laws::lemma_operations_need_a_stopped_target;
use crate::materialize::Materialize;
use crate::numeral::BreakpointSpec;
use crate::protocol::{Progress, Reply, Request};
use crate::resume::Resume;
use crate::session::{InvalidBreakpointSpec, Outcome, Phase, Report, Session, TargetState};
use crate::status::{LaunchError, Status, TraceError};
use crate::tracer::{answers, is_trace_request};
use crate::unwind::{Frame, Unwind, UnwindError};

verus! {

/// What the debugger hands out after each answer.
#[derive(Debug, PartialEq, Eq)]
pub struct Turn {
    /// What to show to the user, in order.
    pub reports: Vec<Report>,
    /// What to do next.
    pub request: Request,
}

impl Turn {
    /// The turn shows and asks what `outcome` says.
    pub open spec fn tells(self, outcome: Outcome) -> bool {
        self.reports@ == outcome.reports && self.request == outcome.request
    }
}

/// A debugging session: the program, its breakpoints, and the live target if any.
pub struct Debugger {
    target: String,
    inferior: Option<Inferior>,
    breakpoints: BreakpointTable,
    phase: Phase,
}

impl View for Debugger {
    type V = Session;

    closed spec fn view(&self) -> Session {
        Session {
            target: self.target,
            inferior: match self.inferior {
                Some(inferior) => Some(inferior@),
                None => None,
            },
            breakpoints: self.breakpoints@,
            phase: self.phase,
        }
    }
}

fn no_reports() -> (reports: Vec<Report>)
    ensures
        reports@ == Seq::<Report>::empty(),
{
    Vec::new()
}

fn one_report(report: Report) -> (reports: Vec<Report>)
    ensures
        reports@ == seq![report],
{
    let mut reports: Vec<Report> = Vec::new();
    reports.push(report);
    assert(reports@ =~= seq![report]);
    reports
}

impl Debugger {
    /// A session for the program at the path `target`, at the prompt: the
    /// first request is for a command.
    pub fn new(target: &str) -> (debugger: Debugger)
        ensures
            debugger@.target@ == target@,
            debugger@ == Session::fresh(debugger@.target),
            debugger@.wf(),
    {
        Debugger {
            target: target.to_owned(),
            inferior: None,
            breakpoints: BreakpointTable::new(),
            phase: Phase::Prompt,
        }
    }

    /// The process id of the live target, if there is one.
    pub fn inferior(&self) -> (pid: Option<i32>)
        ensures
            pid == self@.inferior,
    {
        match &self.inferior {
            Some(inferior) => Some(inferior.pid()),
            None => None,
        }
    }

    /// The breakpoints in the order of their numbers.
    pub fn breakpoints(&self) -> (table: &BreakpointTable)
        ensures
            table@ == self@.breakpoints,
    {
        &self.breakpoints
    }

    /// How the target stands.
    pub fn target_state(&self) -> (state: TargetState)
        ensures
            state == self@.target_state(),
    {
        match (&self.inferior, &self.phase) {
            (None, _) => TargetState::NoTarget,
            (Some(_), Phase::Resuming(resume)) => {
                if resume.is_waiting() {
                    TargetState::Running
                } else {
                    TargetState::Stopped
                }
            },
            _ => TargetState::Stopped,
        }
    }

    /// Whether the session is over.
    pub fn is_over(&self) -> (over: bool)
        ensures
            over == (self@.phase is Over),
    {
        match self.phase {
            Phase::Over => true,
            _ => false,
        }
    }

    fn to_prompt(&mut self, reports: Vec<Report>) -> (turn: Turn)
        ensures
            final(self)@ == old(self)@.prompt(reports@).session,
            turn.tells(old(self)@.prompt(reports@)),
            final(self).breakpoints == old(self).breakpoints,
    {
        self.phase = Phase::Prompt;
        Turn { reports, request: Request::Command }
    }

    fn drop_target(&mut self)
        requires
            old(self).breakpoints.wf(),
        ensures
            final(self)@ == old(self)@.without_target(),
            final(self).breakpoints.wf(),
    {
        self.inferior = None;
        self.breakpoints.disarm_all();
    }

    fn live(&self) -> (inferior: &Inferior)
        requires
            self.inferior is Some,
        ensures
            Some(*inferior) == self.inferior,
    {
        self.inferior.as_ref().unwrap()
    }

    fn begin_resume(&mut self) -> (turn: Turn)
        requires
            old(self).inferior is Some,
        ensures
            final(self)@ == old(self)@.resume().session,
            turn.tells(old(self)@.resume()),
            final(self).breakpoints == old(self).breakpoints,
    {
        let resume = self.live().cont();
        let request = resume.request();
        self.phase = Phase::Resuming(resume);
        Turn { reports: no_reports(), request }
    }

    fn follow_resume(&mut self, next: Progress<Resume, Result<Status, TraceError>>) -> (turn: Turn)
        requires
            old(self).breakpoints.wf(),
        ensures
            final(self)@ == old(self)@.after_resume(old(self)@.breakpoints, next).session,
            turn.tells(old(self)@.after_resume(old(self)@.breakpoints, next)),
            final(self).breakpoints.wf(),
    {
        match next {
            Progress::Pending(resume) => {
                let request = resume.request();
                self.phase = Phase::Resuming(resume);
                Turn { reports: no_reports(), request }
            },
            Progress::Done(Ok(Status::Exited(code))) => {
                self.drop_target();
                self.to_prompt(one_report(Report::Exited(code)))
            },
            Progress::Done(Ok(Status::Signaled(signal))) => {
                self.drop_target();
                self.to_prompt(one_report(Report::Signaled(signal)))
            },
            Progress::Done(Ok(Status::Stopped(signal, ip))) => {
                self.phase = Phase::Locating(signal, ip);
                Turn { reports: no_reports(), request: Request::LineOf(ip) }
            },
            Progress::Done(Err(e)) => self.to_prompt(one_report(Report::TraceFailed(e))),
        }
    }

    fn follow_materialize(&mut self, next: Progress<Materialize, Result<(), TraceError>>) -> (turn:
        Turn)
        requires
            old(self).inferior is Some,
        ensures
            final(self)@ == old(self)@.after_materialize(old(self)@.breakpoints, next).session,
            turn.tells(old(self)@.after_materialize(old(self)@.breakpoints, next)),
            final(self).breakpoints == old(self).breakpoints,
    {
        match next {
            Progress::Pending(m) => {
                let request = m.request();
                self.phase = Phase::Materializing(m);
                Turn { reports: no_reports(), request }
            },
            Progress::Done(Ok(_)) => self.begin_resume(),
            Progress::Done(Err(e)) => self.to_prompt(one_report(Report::TraceFailed(e))),
        }
    }

    fn set_breakpoint(&mut self, addr: usize) -> (turn: Turn)
        requires
            old(self).breakpoints.wf(),
        ensures
            final(self)@ == old(self)@.set_breakpoint(addr).session,
            turn.tells(old(self)@.set_breakpoint(addr)),
            final(self).breakpoints.wf(),
    {
        let found: Option<usize> = self.breakpoints.find(addr);
        let held: bool = match found {
            Some(number) => self.breakpoints.get(number).is_active,
            None => false,
        };
        if self.inferior.is_some() && !held {
            let patch = self.live().write_byte(addr, TRAP_BYTE);
            let request = patch.request();
            self.phase = Phase::Installing(patch);
            Turn { reports: no_reports(), request }
        } else {
            let number: usize = self.breakpoints.record(addr);
            self.to_prompt(one_report(Report::BreakpointSet(number, addr)))
        }
    }

    fn installed(&mut self, addr: usize, saved: u8) -> (turn: Turn)
        requires
            old(self).breakpoints.wf(),
        ensures
            final(self)@ == old(self)@.installed(addr, saved).session,
            turn.tells(old(self)@.installed(addr, saved)),
            final(self).breakpoints.wf(),
    {
        let ghost before = self.breakpoints@;
        let found: Option<usize> = self.breakpoints.find(addr);
        let number: usize = self.breakpoints.record(addr);
        self.breakpoints.arm(number, saved);
        proof {
            if found.is_none() {
                assert(self.breakpoints@ =~= before.push(
                    Breakpoint { address: addr, saved_byte: Some(saved), is_active: true },
                ));
            }
        }
        self.to_prompt(one_report(Report::BreakpointSet(number, addr)))
    }

    fn on_break(&mut self, arg: String) -> (turn: Turn)
        requires
            old(self).breakpoints.wf(),
        ensures
            final(self)@ == old(self)@.on_break(arg).session,
            turn.tells(old(self)@.on_break(arg)),
            final(self).breakpoints.wf(),
    {
        match BreakpointSpec::parse(arg) {
            Some(BreakpointSpec::ByAddress(addr)) => self.set_breakpoint(addr),
            Some(BreakpointSpec::ByLine(line)) => {
                self.phase = Phase::ResolvingLine(line);
                Turn { reports: no_reports(), request: Request::AddressOfLine(line) }
            },
            Some(BreakpointSpec::ByFunction(name)) => {
                let request = Request::AddressOfFunction(name.clone());
                self.phase = Phase::ResolvingFunction(name);
                Turn { reports: no_reports(), request }
            },
            None => self.to_prompt(
                one_report(Report::InvalidBreakpoint(InvalidBreakpointSpec::Address)),
            ),
        }
    }

    fn on_command(&mut self, cmd: DebuggerCommand) -> (turn: Turn)
        requires
            old(self).breakpoints.wf(),
        ensures
            final(self)@ == old(self)@.on_command(cmd).session,
            turn.tells(old(self)@.on_command(cmd)),
            final(self).breakpoints.wf(),
    {
        let live: Option<i32> = self.inferior();
        match cmd {
            DebuggerCommand::Quit => match live {
                Some(pid) => {
                    let request = self.live().kill();
                    self.phase = Phase::Quitting;
                    Turn { reports: one_report(Report::Killing(pid)), request }
                },
                None => {
                    self.phase = Phase::Over;
                    Turn { reports: no_reports(), request: Request::Quit }
                },
            },
            DebuggerCommand::Run(args) => match live {
                Some(pid) => {
                    let request = self.live().kill();
                    self.phase = Phase::Replacing(args);
                    Turn { reports: one_report(Report::Killing(pid)), request }
                },
                None => {
                    self.phase = Phase::Launching;
                    Turn {
                        reports: no_reports(),
                        request: Request::Launch(self.target.clone(), args),
                    }
                },
            },
            DebuggerCommand::Continue => match live {
                Some(_) => self.begin_resume(),
                None => self.to_prompt(one_report(Report::NoInferior)),
            },
            DebuggerCommand::Backtrace => match live {
                Some(_) => {
                    let unwind = self.live().print_backtrace();
                    let request = unwind.request();
                    self.phase = Phase::Unwinding(unwind);
                    Turn { reports: no_reports(), request }
                },
                None => self.to_prompt(one_report(Report::NoInferior)),
            },
            DebuggerCommand::Break(arg) => self.on_break(arg),
        }
    }

    fn on_launch(&mut self, reply: Reply) -> (turn: Turn)
        requires
            old(self).breakpoints.wf(),
        ensures
            final(self)@ == old(self)@.on_launch(reply).session,
            turn.tells(old(self)@.on_launch(reply)),
            final(self).breakpoints.wf(),
    {
        match reply {
            Reply::Launched(pid, initial) => match Inferior::new(pid, initial) {
                Ok(inferior) => {
                    self.inferior = Some(inferior);
                    let next = Materialize::new(&self.breakpoints, 0);
                    self.follow_materialize(next)
                },
                Err(e) => {
                    if initial.ended() {
                        self.to_prompt(one_report(Report::LaunchFailed(e)))
                    } else {
                        self.phase = Phase::Discarding;
                        Turn { reports: no_reports(), request: Request::Kill }
                    }
                },
            },
            _ => self.to_prompt(one_report(Report::LaunchFailed(LaunchError::SpawnFailed))),
        }
    }

    fn follow_unwind(
        &mut self,
        frame: Option<Frame>,
        next: Progress<Unwind, Result<(), UnwindError>>,
    ) -> (turn: Turn)
        requires
            next matches Progress::Pending(unwind) ==> unwind.wf(),
        ensures
            final(self)@ == old(self)@.after_unwind(frame, next).session,
            turn.tells(old(self)@.after_unwind(frame, next)),
            final(self).breakpoints == old(self).breakpoints,
    {
        let mut shown: Vec<Report> = match frame {
            Some(frame) => one_report(Report::Frame(frame)),
            None => no_reports(),
        };
        match next {
            Progress::Pending(unwind) => {
                let request = unwind.request();
                self.phase = Phase::Unwinding(unwind);
                Turn { reports: shown, request }
            },
            Progress::Done(Ok(_)) => self.to_prompt(shown),
            Progress::Done(Err(e)) => {
                shown.push(Report::UnwindFailed(e));
                self.to_prompt(shown)
            },
        }
    }

    /// Takes the answer to the last request and runs the session until it
    /// asks for something that is not an operation on the traced process:
    /// the operations in between are carried out on the live target at once.
    ///
    /// The session ends up where the answer, followed by some answers that
    /// the target gave to the trace requests in between, leads to. Only if
    /// a wait saw a status change that the debugger does not handle is the
    /// request handed out still that wait.
    pub fn advance(&mut self, reply: Reply) -> (turn: Turn)
        requires
            old(self)@.wf(),
            reply.is_handled(),
        ensures
            final(self)@.wf(),
            exists|traced: Seq<Reply>|
                {
                    &&& old(self)@.all_traced(reply, traced)
                    &&& final(self)@ == (#[trigger] old(self)@.ran_all(reply, traced)).session
                    &&& turn.tells(old(self)@.ran_all(reply, traced))
                },
            is_trace_request(turn.request) ==> turn.request == Request::Wait,
    {
        let mut turn = self.run(reply);
        let ghost mut traced: Seq<Reply> = Seq::empty();
        proof {
            lemma_request_is_awaited(old(self)@, reply);
        }
        loop
            invariant
                self@.wf(),
                self@.awaits(turn.request),
                old(self)@.all_traced(reply, traced),
                self@ == old(self)@.ran_all(reply, traced).session,
                turn.tells(old(self)@.ran_all(reply, traced)),
            decreases self@.turns_left(),
        {
            let answer = match self.perform(&turn.request) {
                Some(answer) => answer,
                None => {
                    proof {
                        lemma_operations_need_a_stopped_target(self@, turn.request);
                    }
                    return turn;
                },
            };
            if !answer.handled() {
                return turn;
            }
            let ghost before = self@;
            let ghost shown = turn.reports@;
            let ghost longer = traced.push(answer);
            proof {
                lemma_request_is_awaited(self@, answer);
                lemma_trace_requests_run_out(self@, turn.request, answer);
                assert(longer.drop_last() =~= traced);
            }
            let Turn { mut reports, request } = self.run(answer);
            turn.reports.append(&mut reports);
            turn.request = request;
            proof {
                traced = longer;
            }
        }
    }

    /// Carries out a trace request on the live target and gives the answer.
    /// Without a target, and for requests that are not for the traced
    /// process, nothing is carried out.
    pub fn perform(&self, request: &Request) -> (reply: Option<Reply>)
        ensures
            match reply {
                Some(reply) => self@.inferior is Some && is_trace_request(*request) && answers(
                    *request,
                    reply,
                ),
                None => self@.inferior is None || !is_trace_request(*request),
            },
    {
        match &self.inferior {
            Some(inferior) => inferior.perform(request),
            None => None,
        }
    }

    /// Takes the answer to the last request and runs the session up to its
    /// next request.
    pub fn run(&mut self, reply: Reply) -> (turn: Turn)
        requires
            old(self)@.wf(),
            reply.is_handled(),
        ensures
            final(self)@ == old(self)@.ran(reply).session,
            turn.tells(old(self)@.ran(reply)),
            final(self)@.wf(),
    {
        let mut phase = Phase::Prompt;
        core::mem::swap(&mut self.phase, &mut phase);
        match phase {
            Phase::Prompt => match reply {
                Reply::Command(cmd) => self.on_command(cmd),
                _ => self.to_prompt(no_reports()),
            },
            Phase::Replacing(args) => {
                self.drop_target();
                self.phase = Phase::Launching;
                Turn { reports: no_reports(), request: Request::Launch(self.target.clone(), args) }
            },
            Phase::Launching => self.on_launch(reply),
            Phase::Discarding => self.to_prompt(
                one_report(Report::LaunchFailed(LaunchError::UnexpectedInitialStatus)),
            ),
            Phase::Materializing(m) => {
                let next = m.resume(&mut self.breakpoints, reply);
                self.follow_materialize(next)
            },
            Phase::Resuming(resume) => {
                let next = resume.resume(&mut self.breakpoints, reply);
                self.follow_resume(next)
            },
            Phase::Locating(signal, ip) => match reply {
                Reply::Text(line) => self.to_prompt(one_report(Report::Stopped(signal, ip, line))),
                _ => self.to_prompt(one_report(Report::Stopped(signal, ip, None))),
            },
            Phase::Unwinding(unwind) => {
                let (frame, next) = unwind.resume(reply);
                self.follow_unwind(frame, next)
            },
            Phase::ResolvingLine(_) => match reply {
                Reply::Address(Some(addr)) => self.set_breakpoint(addr),
                _ => self.to_prompt(
                    one_report(Report::InvalidBreakpoint(InvalidBreakpointSpec::Line)),
                ),
            },
            Phase::ResolvingFunction(_) => match reply {
                Reply::Address(Some(addr)) => self.set_breakpoint(addr),
                _ => self.to_prompt(
                    one_report(Report::InvalidBreakpoint(InvalidBreakpointSpec::Function)),
                ),
            },
            Phase::Installing(patch) => match patch.resume(reply) {
                Progress::Pending(patch) => {
                    let request = patch.request();
                    self.phase = Phase::Installing(patch);
                    Turn { reports: no_reports(), request }
                },
                Progress::Done(Ok(saved)) => self.installed(patch.addr, saved),
                Progress::Done(Err(e)) => self.to_prompt(one_report(Report::TraceFailed(e))),
            },
            Phase::Quitting => {
                self.drop_target();
                self.phase = Phase::Over;
                Turn { reports: no_reports(), request: Request::Quit }
            },
            Phase::Over => {
                self.phase = Phase::Over;
                Turn { reports: no_reports(), request: Request::Quit }
            },
        }
    }
}

} // verus!
