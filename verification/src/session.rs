//! The debugging session as a state machine.
//!
//! A session stands at the prompt or in the middle of one command. Each
//! answer from outside moves it on: it may change the breakpoint table and
//! the target it owns, tells what to show to the user, and names the next
//! request.

use vstd::prelude::*;
use crate::breakpoint::{all_disarmed, number_at, well_formed, Breakpoint, TRAP_BYTE};
use crate::command::DebuggerCommand;
use crate::inferior::stopped_at_entry;
use crate::materialize::{armed, Materialize};
use crate::numeral::{breakpoint_spec_of, BreakpointSpec};
use crate::patch::BytePatch;
use crate::protocol::{Progress, Reply, Request};
use crate::resume::Resume;
use crate::status::{LaunchError, Status, TraceError};
use crate::unwind::{Frame, Unwind, UnwindError};

verus! {

/// Which kind of breakpoint argument could not be turned into an address.
#[derive(Clone, Copy, Debug, PartialEq, Eq, Structural)]
pub enum InvalidBreakpointSpec {
    /// What follows `*` is not an address.
    Address,
    /// No code is known for the line.
    Line,
    /// No function of that name is known.
    Function,
}

/// Something to show to the user.
#[derive(Clone, Debug, PartialEq, Eq)]
pub enum Report {
    /// The target with this process id is being killed.
    Killing(i32),
    /// The program could not be started under trace.
    LaunchFailed(LaunchError),
    /// The target ended normally with this exit code.
    Exited(i32),
    /// The target was ended by this signal.
    Signaled(i32),
    /// The target was stopped by the signal at the address; the source line, if known.
    Stopped(i32, usize, Option<String>),
    /// The command needs a target and there is none.
    NoInferior,
    /// One frame of the backtrace.
    Frame(Frame),
    /// The backtrace ends here, before the entry function.
    UnwindFailed(UnwindError),
    /// The breakpoint with this number stands at this address.
    BreakpointSet(usize, usize),
    /// No breakpoint was set.
    InvalidBreakpoint(InvalidBreakpointSpec),
    /// A trace operation was refused; the command was given up.
    TraceFailed(TraceError),
}

/// How the target of a session stands.
#[derive(Clone, Copy, Debug, PartialEq, Eq, Structural)]
pub enum TargetState {
    /// There is no live target.
    NoTarget,
    /// The target runs; the session waits for it to stop or end.
    Running,
    /// The target is stopped.
    Stopped,
}

/// Where a session stands.
#[derive(Clone, Debug, PartialEq, Eq)]
pub enum Phase {
    /// At the prompt, waiting for a command.
    Prompt,
    /// The old target is being killed; the new one is to get these arguments.
    Replacing(Vec<String>),
    /// The program is being launched.
    Launching,
    /// A launched process that did not stop as expected is being killed.
    Discarding,
    /// The recorded breakpoints are being installed into the new target.
    Materializing(Materialize),
    /// The target is being let go on.
    Resuming(Resume),
    /// The line of a stop is being looked up; holds the signal and the address.
    Locating(i32, usize),
    /// A backtrace is being made.
    Unwinding(Unwind),
    /// The address of this line is being looked up for a breakpoint.
    ResolvingLine(usize),
    /// The address of this function is being looked up for a breakpoint.
    ResolvingFunction(String),
    /// The trap of a new breakpoint is being written into the live target.
    Installing(BytePatch),
    /// The target is being killed before the session ends.
    Quitting,
    /// The session is over.
    Over,
}

/// A session as contracts see it.
pub struct Session {
    /// The path of the program to debug.
    pub target: String,
    /// The process id of the live target, if there is one.
    pub inferior: Option<i32>,
    /// The breakpoints in the order of their numbers.
    pub breakpoints: Seq<Breakpoint>,
    /// Where the session stands.
    pub phase: Phase,
}

/// What one answer leads to.
pub struct Outcome {
    /// The session afterwards.
    pub session: Session,
    /// What to show, in order.
    pub reports: Seq<Report>,
    /// What to do next.
    pub request: Request,
}

impl Session {
    /// The session of a program that has not been run and has no breakpoints.
    pub open spec fn fresh(target: String) -> Session {
        Session { target, inferior: None, breakpoints: Seq::empty(), phase: Phase::Prompt }
    }

    /// The table is well-formed, an operation in progress belongs to it,
    /// every operation on a target has a target, and a launch has none yet.
    pub open spec fn wf(self) -> bool {
        &&& well_formed(self.breakpoints)
        &&& match self.phase {
            Phase::Materializing(m) => m.wf(self.breakpoints) && self.inferior.is_some(),
            Phase::Resuming(resume) => resume.wf(self.breakpoints) && self.inferior.is_some(),
            Phase::Unwinding(unwind) => unwind.wf() && self.inferior.is_some(),
            Phase::Installing(patch) => patch.val == TRAP_BYTE && self.inferior.is_some(),
            Phase::Locating(_, _) => self.inferior.is_some(),
            Phase::Launching => self.inferior.is_none(),
            Phase::Discarding => self.inferior.is_none(),
            _ => true,
        }
    }

    /// How the target stands: it runs exactly while the session waits for
    /// its next status change.
    pub open spec fn target_state(self) -> TargetState {
        if self.inferior is None {
            TargetState::NoTarget
        } else if self.phase matches Phase::Resuming(resume) && resume.awaited() == Request::Wait {
            TargetState::Running
        } else {
            TargetState::Stopped
        }
    }

    /// Back at the prompt, with `reports` to show.
    pub open spec fn prompt(self, reports: Seq<Report>) -> Outcome {
        Outcome {
            session: Session { phase: Phase::Prompt, ..self },
            reports,
            request: Request::Command,
        }
    }

    /// The session without its target: no breakpoint is active any more.
    pub open spec fn without_target(self) -> Session {
        Session { inferior: None, breakpoints: all_disarmed(self.breakpoints), ..self }
    }

    /// The target begins to be let go on.
    pub open spec fn resume(self) -> Outcome {
        Outcome {
            session: Session { phase: Phase::Resuming(Resume::Inspecting), ..self },
            reports: Seq::empty(),
            request: Request::GetRegisters,
        }
    }

    /// What follows one turn of a resume. An exit or a killing signal ends
    /// the target; a stop has its line looked up; an error gives the command up.
    pub open spec fn after_resume(
        self,
        table: Seq<Breakpoint>,
        next: Progress<Resume, Result<Status, TraceError>>,
    ) -> Outcome {
        let session = Session { breakpoints: table, ..self };
        match next {
            Progress::Pending(resume) => Outcome {
                session: Session { phase: Phase::Resuming(resume), ..session },
                reports: Seq::empty(),
                request: resume.awaited(),
            },
            Progress::Done(Ok(Status::Exited(code))) => session.without_target().prompt(
                seq![Report::Exited(code)],
            ),
            Progress::Done(Ok(Status::Signaled(signal))) => session.without_target().prompt(
                seq![Report::Signaled(signal)],
            ),
            Progress::Done(Ok(Status::Stopped(signal, ip))) => Outcome {
                session: Session { phase: Phase::Locating(signal, ip), ..session },
                reports: Seq::empty(),
                request: Request::LineOf(ip),
            },
            Progress::Done(Err(e)) => session.prompt(seq![Report::TraceFailed(e)]),
        }
    }

    /// What follows one turn of installing the recorded breakpoints. Once
    /// all are installed the target is let go on; an error gives the command up.
    pub open spec fn after_materialize(
        self,
        table: Seq<Breakpoint>,
        next: Progress<Materialize, Result<(), TraceError>>,
    ) -> Outcome {
        let session = Session { breakpoints: table, ..self };
        match next {
            Progress::Pending(m) => Outcome {
                session: Session { phase: Phase::Materializing(m), ..session },
                reports: Seq::empty(),
                request: m.awaited(),
            },
            Progress::Done(Ok(_)) => session.resume(),
            Progress::Done(Err(e)) => session.prompt(seq![Report::TraceFailed(e)]),
        }
    }

    /// A breakpoint is to stand at `addr`.
    ///
    /// With a live target that does not hold its trap yet, the trap is
    /// written first. Otherwise the breakpoint is recorded at once, unless the
    /// address has one already, and its number is shown: an address keeps the
    /// number and the saved byte of its first breakpoint.
    pub open spec fn set_breakpoint(self, addr: usize) -> Outcome {
        let found = number_at(self.breakpoints, addr);
        let held = found matches Some(i) && self.breakpoints[i as int].is_active;
        if self.inferior.is_some() && !held {
            Outcome {
                session: Session {
                    phase: Phase::Installing(BytePatch::start(addr, TRAP_BYTE)),
                    ..self
                },
                reports: Seq::empty(),
                request: BytePatch::start(addr, TRAP_BYTE).awaited(),
            }
        } else {
            match found {
                Some(number) => self.prompt(seq![Report::BreakpointSet(number, addr)]),
                None => Session {
                    breakpoints: self.breakpoints.push(
                        Breakpoint { address: addr, saved_byte: None, is_active: false },
                    ),
                    ..self
                }.prompt(seq![Report::BreakpointSet(self.breakpoints.len() as usize, addr)]),
            }
        }
    }

    /// The trap of the breakpoint at `addr` is in the target, in place of
    /// `saved`: the breakpoint is recorded, if it is new, and active.
    pub open spec fn installed(self, addr: usize, saved: u8) -> Outcome {
        match number_at(self.breakpoints, addr) {
            Some(number) => Session {
                breakpoints: armed(self.breakpoints, number, saved),
                ..self
            }.prompt(seq![Report::BreakpointSet(number, addr)]),
            None => Session {
                breakpoints: self.breakpoints.push(
                    Breakpoint { address: addr, saved_byte: Some(saved), is_active: true },
                ),
                ..self
            }.prompt(seq![Report::BreakpointSet(self.breakpoints.len() as usize, addr)]),
        }
    }

    /// What a break command leads to. An address is used as it is; lines
    /// and functions have their address looked up first.
    pub open spec fn on_break(self, arg: String) -> Outcome {
        match breakpoint_spec_of(arg) {
            Some(BreakpointSpec::ByAddress(addr)) => self.set_breakpoint(addr),
            Some(BreakpointSpec::ByLine(line)) => Outcome {
                session: Session { phase: Phase::ResolvingLine(line), ..self },
                reports: Seq::empty(),
                request: Request::AddressOfLine(line),
            },
            Some(BreakpointSpec::ByFunction(name)) => Outcome {
                session: Session { phase: Phase::ResolvingFunction(name), ..self },
                reports: Seq::empty(),
                request: Request::AddressOfFunction(name),
            },
            None => self.prompt(seq![Report::InvalidBreakpoint(InvalidBreakpointSpec::Address)]),
        }
    }

    /// What a command leads to at the prompt.
    ///
    /// `run` and `quit` first kill a live target. `continue` and `backtrace`
    /// without a target only say so.
    pub open spec fn on_command(self, cmd: DebuggerCommand) -> Outcome {
        match cmd {
            DebuggerCommand::Quit => match self.inferior {
                Some(pid) => Outcome {
                    session: Session { phase: Phase::Quitting, ..self },
                    reports: seq![Report::Killing(pid)],
                    request: Request::Kill,
                },
                None => Outcome {
                    session: Session { phase: Phase::Over, ..self },
                    reports: Seq::empty(),
                    request: Request::Quit,
                },
            },
            DebuggerCommand::Run(args) => match self.inferior {
                Some(pid) => Outcome {
                    session: Session { phase: Phase::Replacing(args), ..self },
                    reports: seq![Report::Killing(pid)],
                    request: Request::Kill,
                },
                None => Outcome {
                    session: Session { phase: Phase::Launching, ..self },
                    reports: Seq::empty(),
                    request: Request::Launch(self.target, args),
                },
            },
            DebuggerCommand::Continue => match self.inferior {
                Some(_) => self.resume(),
                None => self.prompt(seq![Report::NoInferior]),
            },
            DebuggerCommand::Backtrace => match self.inferior {
                Some(_) => Outcome {
                    session: Session { phase: Phase::Unwinding(Unwind::Inspecting), ..self },
                    reports: Seq::empty(),
                    request: Request::GetRegisters,
                },
                None => self.prompt(seq![Report::NoInferior]),
            },
            DebuggerCommand::Break(arg) => self.on_break(arg),
        }
    }

    /// What the answer to a launch leads to.
    ///
    /// A process that stopped at its entry becomes the target and gets the
    /// recorded breakpoints. One that did not is killed unless it has ended
    /// already, and the launch has failed.
    pub open spec fn on_launch(self, reply: Reply) -> Outcome {
        match reply {
            Reply::Launched(pid, initial) => if stopped_at_entry(initial) {
                Session { inferior: Some(pid), ..self }.after_materialize(
                    self.breakpoints,
                    Materialize::start(self.breakpoints, 0),
                )
            } else if initial.is_final() {
                self.prompt(seq![Report::LaunchFailed(LaunchError::UnexpectedInitialStatus)])
            } else {
                Outcome {
                    session: Session { phase: Phase::Discarding, ..self },
                    reports: Seq::empty(),
                    request: Request::Kill,
                }
            },
            _ => self.prompt(seq![Report::LaunchFailed(LaunchError::SpawnFailed)]),
        }
    }

    /// What follows one turn of a backtrace: each frame is shown as it
    /// becomes known, and an error after the frames before it.
    pub open spec fn after_unwind(
        self,
        frame: Option<Frame>,
        next: Progress<Unwind, Result<(), UnwindError>>,
    ) -> Outcome {
        let shown = match frame {
            Some(frame) => seq![Report::Frame(frame)],
            None => Seq::empty(),
        };
        match next {
            Progress::Pending(unwind) => Outcome {
                session: Session { phase: Phase::Unwinding(unwind), ..self },
                reports: shown,
                request: unwind.awaited(),
            },
            Progress::Done(Ok(_)) => self.prompt(shown),
            Progress::Done(Err(e)) => self.prompt(shown.push(Report::UnwindFailed(e))),
        }
    }

    /// What `reply` leads to.
    pub open spec fn ran(self, reply: Reply) -> Outcome {
        match self.phase {
            Phase::Prompt => match reply {
                Reply::Command(cmd) => self.on_command(cmd),
                _ => self.prompt(Seq::empty()),
            },
            Phase::Replacing(args) => Outcome {
                session: Session { phase: Phase::Launching, ..self.without_target() },
                reports: Seq::empty(),
                request: Request::Launch(self.target, args),
            },
            Phase::Launching => self.on_launch(reply),
            Phase::Discarding => self.prompt(
                seq![Report::LaunchFailed(LaunchError::UnexpectedInitialStatus)],
            ),
            Phase::Materializing(m) => self.after_materialize(
                m.resumed(self.breakpoints, reply).0,
                m.resumed(self.breakpoints, reply).1,
            ),
            Phase::Resuming(resume) => self.after_resume(
                resume.resumed(self.breakpoints, reply).0,
                resume.resumed(self.breakpoints, reply).1,
            ),
            Phase::Locating(signal, ip) => match reply {
                Reply::Text(line) => self.prompt(seq![Report::Stopped(signal, ip, line)]),
                _ => self.prompt(seq![Report::Stopped(signal, ip, None)]),
            },
            Phase::Unwinding(unwind) => self.after_unwind(
                unwind.resumed(reply).0,
                unwind.resumed(reply).1,
            ),
            Phase::ResolvingLine(_) => match reply {
                Reply::Address(Some(addr)) => self.set_breakpoint(addr),
                _ => self.prompt(seq![Report::InvalidBreakpoint(InvalidBreakpointSpec::Line)]),
            },
            Phase::ResolvingFunction(_) => match reply {
                Reply::Address(Some(addr)) => self.set_breakpoint(addr),
                _ => self.prompt(seq![Report::InvalidBreakpoint(InvalidBreakpointSpec::Function)]),
            },
            Phase::Installing(patch) => match patch.resumed(reply) {
                Progress::Pending(patch) => Outcome {
                    session: Session { phase: Phase::Installing(patch), ..self },
                    reports: Seq::empty(),
                    request: patch.awaited(),
                },
                Progress::Done(Ok(saved)) => self.installed(patch.addr, saved),
                Progress::Done(Err(e)) => self.prompt(seq![Report::TraceFailed(e)]),
            },
            Phase::Quitting => Outcome {
                session: Session { phase: Phase::Over, ..self.without_target() },
                reports: Seq::empty(),
                request: Request::Quit,
            },
            Phase::Over => Outcome { session: self, reports: Seq::empty(), request: Request::Quit },
        }
    }
}

} // verus!
