use deet::breakpoint::{Breakpoint, TRAP_BYTE};
use deet::command::DebuggerCommand;
use deet::debugger::Debugger;
use deet::protocol::{Reply, Request};
use deet::registers::RegisterSnapshot;
use deet::session::{InvalidBreakpointSpec, Report, TargetState};
use deet::status::{LaunchError, TraceError, WaitStatus, SIGTRAP};
use deet::unwind::{Frame, UnwindError};
use std::collections::HashMap;

const PID: i32 = 4242;
const MAIN: usize = 0x401000;
const MAIN_AFTER_CALL: usize = 0x401004;
const FOO: usize = 0x401010;
const FOO_AFTER_CALL: usize = 0x401014;
const BAR: usize = 0x401023;
const BAR_NEXT: usize = 0x401027;
const MAIN_FRAME: usize = 0x7ffd_0000_0300;
const FOO_FRAME: usize = 0x7ffd_0000_0200;
const BAR_FRAME: usize = 0x7ffd_0000_0100;

fn registers(rip: usize, rbp: usize) -> RegisterSnapshot {
    RegisterSnapshot {
        r15: 15, r14: 14, r13: 13, r12: 12, rbp: rbp as u64, rbx: 1, r11: 11, r10: 10, r9: 9,
        r8: 8, rax: 2, rcx: 3, rdx: 4, rsi: 5, rdi: 6, orig_rax: 7, rip: rip as u64, cs: 0x33,
        eflags: 0x246, rsp: 0x7ffd_0000_0080, ss: 0x2b, fs_base: 0, gs_base: 0, ds: 0, es: 0,
        fs: 0, gs: 0,
    }
}

/// A make-believe program under trace: `main` calls `foo`, and `foo` calls
/// `bar` twice. Each instruction is one step of `path`.
struct World {
    mem: HashMap<usize, u64>,
    regs: RegisterSnapshot,
    path: Vec<(usize, usize)>,
    at: usize,
    alive: bool,
    status: Option<WaitStatus>,
    log: Vec<Request>,
    launches: Vec<Vec<String>>,
    refuse: Option<Request>,
    first_status: WaitStatus,
    can_spawn: bool,
    traps_at_first_run: Option<Vec<u8>>,
    watch: Vec<usize>,
    unknown_function_at: Option<usize>,
    unknown_line_at: Option<usize>,
}

impl World {
    fn new() -> World {
        World {
            mem: HashMap::new(),
            regs: registers(MAIN, MAIN_FRAME),
            path: vec![
                (MAIN, MAIN_FRAME),
                (FOO, FOO_FRAME),
                (BAR, BAR_FRAME),
                (BAR_NEXT, BAR_FRAME),
                (FOO_AFTER_CALL, FOO_FRAME),
                (BAR, BAR_FRAME),
                (BAR_NEXT, BAR_FRAME),
                (MAIN_AFTER_CALL, MAIN_FRAME),
            ],
            at: 0,
            alive: false,
            status: None,
            log: Vec::new(),
            launches: Vec::new(),
            refuse: None,
            first_status: WaitStatus::Stopped(SIGTRAP),
            can_spawn: true,
            traps_at_first_run: None,
            watch: Vec::new(),
            unknown_function_at: None,
            unknown_line_at: None,
        }
    }

    fn image() -> HashMap<usize, u64> {
        let mut mem = HashMap::new();
        mem.insert(0x401000, 0x0807_0605_0403_0201);
        mem.insert(0x401008, 0x100f_0e0d_0c0b_0a09);
        mem.insert(0x401010, 0x1817_1615_1413_1211);
        mem.insert(0x401018, 0x201f_1e1d_1c1b_1a19);
        mem.insert(0x401020, 0x2827_2625_2423_2221);
        mem.insert(0x401028, 0x302f_2e2d_2c2b_2a29);
        mem.insert(BAR_FRAME, FOO_FRAME as u64);
        mem.insert(BAR_FRAME + 8, FOO_AFTER_CALL as u64);
        mem.insert(FOO_FRAME, MAIN_FRAME as u64);
        mem.insert(FOO_FRAME + 8, MAIN_AFTER_CALL as u64);
        mem
    }

    fn byte(&self, addr: usize) -> u8 {
        let word = self.mem.get(&(addr & !7)).copied().unwrap_or(0);
        ((word >> (8 * (addr % 8))) & 0xff) as u8
    }

    fn function_of(&self, addr: usize) -> Option<String> {
        if self.unknown_function_at == Some(addr) {
            return None;
        }
        match addr {
            0x401000..=0x40100f => Some(String::from("main")),
            0x401010..=0x40101f => Some(String::from("foo")),
            0x401020..=0x40102f => Some(String::from("bar")),
            _ => None,
        }
    }

    fn line_of(&self, addr: usize) -> Option<String> {
        if self.unknown_line_at == Some(addr) {
            return None;
        }
        let line = match addr {
            0x401000..=0x401003 => 30,
            0x401004..=0x40100f => 31,
            0x401010..=0x401013 => 10,
            0x401014..=0x40101f => 11,
            0x401020..=0x401026 => 20,
            0x401027..=0x40102f => 21,
            _ => return None,
        };
        Some(format!("sample.c:{}", line))
    }

    fn address_of_line(&self, line: usize) -> Option<usize> {
        match line {
            0..=10 => Some(FOO),
            11 => Some(FOO_AFTER_CALL),
            12..=20 => Some(BAR),
            21 => Some(BAR_NEXT),
            22..=30 => Some(MAIN),
            31 => Some(MAIN_AFTER_CALL),
            _ => None,
        }
    }

    fn address_of_function(&self, name: &str) -> Option<usize> {
        match name {
            "main" => Some(MAIN),
            "foo" => Some(FOO),
            "bar" => Some(BAR),
            _ => None,
        }
    }

    /// Executes the instruction at the instruction pointer. A trap byte
    /// stops the program one byte past it.
    fn execute(&mut self) -> bool {
        let rip = self.regs.rip as usize;
        assert_eq!(rip, self.path[self.at].0, "the program counter is off the path");
        if self.byte(rip) == TRAP_BYTE {
            self.regs.rip += 1;
            self.status = Some(WaitStatus::Stopped(SIGTRAP));
            return false;
        }
        self.at += 1;
        if self.at == self.path.len() {
            self.alive = false;
            self.status = Some(WaitStatus::Exited(7));
            return false;
        }
        self.regs.rip = self.path[self.at].0 as u64;
        self.regs.rbp = self.path[self.at].1 as u64;
        true
    }

    fn answer(&mut self, request: &Request) -> Reply {
        self.log.push(request.clone());
        if self.refuse.as_ref() == Some(request) {
            return Reply::Failed(5);
        }
        match request {
            Request::Launch(target, args) => {
                assert_eq!(target, "sample");
                assert!(!self.alive, "the old target was not killed");
                self.launches.push(args.clone());
                if !self.can_spawn {
                    return Reply::Failed(2);
                }
                self.mem = World::image();
                self.regs = registers(MAIN, MAIN_FRAME);
                self.at = 0;
                self.alive = !self.first_status.ended();
                Reply::Launched(PID, self.first_status)
            }
            Request::Kill => {
                self.alive = false;
                Reply::Done
            }
            Request::ReadWord(addr) => {
                assert!(self.alive);
                Reply::Word(self.mem.get(addr).copied().unwrap_or(0))
            }
            Request::WriteWord(addr, word) => {
                assert!(self.alive);
                self.mem.insert(*addr, *word);
                Reply::Done
            }
            Request::GetRegisters => {
                assert!(self.alive);
                Reply::Registers(self.regs)
            }
            Request::SetRegisters(regs) => {
                assert!(self.alive);
                self.regs = *regs;
                Reply::Done
            }
            Request::Step => {
                assert!(self.alive);
                if self.execute() {
                    self.status = Some(WaitStatus::Stopped(SIGTRAP));
                }
                Reply::Done
            }
            Request::Cont => {
                assert!(self.alive);
                if self.traps_at_first_run.is_none() {
                    let seen = self.watch.iter().map(|addr| self.byte(*addr)).collect();
                    self.traps_at_first_run = Some(seen);
                }
                while self.execute() {}
                Reply::Done
            }
            Request::Wait => Reply::Status(self.status.take().expect("nothing to wait for")),
            Request::LineOf(addr) => Reply::Text(self.line_of(*addr)),
            Request::FunctionOf(addr) => Reply::Text(self.function_of(*addr)),
            Request::AddressOfLine(line) => Reply::Address(self.address_of_line(*line)),
            Request::AddressOfFunction(name) => Reply::Address(self.address_of_function(name)),
            Request::Command | Request::Quit => unreachable!(),
        }
    }
}

/// Gives the command to a session at the prompt and serves it until it is
/// back at the prompt or over. Returns what it showed.
fn issue(debugger: &mut Debugger, world: &mut World, cmd: DebuggerCommand) -> Vec<Report> {
    let mut shown = Vec::new();
    let mut turn = debugger.run(Reply::Command(cmd));
    loop {
        shown.append(&mut turn.reports);
        match turn.request {
            Request::Command | Request::Quit => return shown,
            request => {
                let reply = world.answer(&request);
                turn = debugger.run(reply);
            }
        }
    }
}

fn run_cmd() -> DebuggerCommand {
    DebuggerCommand::Run(vec![])
}

fn break_at(arg: &str) -> DebuggerCommand {
    DebuggerCommand::Break(String::from(arg))
}

fn stopped(ip: usize, line: &str) -> Report {
    Report::Stopped(SIGTRAP, ip, Some(String::from(line)))
}

fn frame(line: &str, function: &str) -> Report {
    Report::Frame(Frame { line: String::from(line), function: String::from(function) })
}

fn entry(debugger: &Debugger, number: usize) -> Breakpoint {
    debugger.breakpoints().get(number)
}

#[test]
fn a_new_session_waits_for_a_command() {
    let mut debugger = Debugger::new("sample");
    assert_eq!(debugger.inferior(), None);
    assert_eq!(debugger.breakpoints().len(), 0);
    assert!(!debugger.is_over());
    let turn = debugger.run(Reply::Done);
    assert_eq!(turn.reports, vec![]);
    assert_eq!(turn.request, Request::Command);
}

#[test]
fn break_on_a_line_then_run_stops_there_and_backtrace_names_the_chain() {
    let mut world = World::new();
    let mut debugger = Debugger::new("sample");
    assert_eq!(
        issue(&mut debugger, &mut world, break_at("20")),
        vec![Report::BreakpointSet(0, BAR)]
    );
    assert_eq!(issue(&mut debugger, &mut world, run_cmd()), vec![stopped(BAR + 1, "sample.c:20")]);
    assert_eq!(debugger.inferior(), Some(PID));
    assert_eq!(
        issue(&mut debugger, &mut world, DebuggerCommand::Backtrace),
        vec![
            frame("sample.c:20", "bar"),
            frame("sample.c:11", "foo"),
            frame("sample.c:31", "main"),
        ]
    );
}

#[test]
fn a_stop_one_call_deep_has_two_frames() {
    let mut world = World::new();
    let mut debugger = Debugger::new("sample");
    issue(&mut debugger, &mut world, break_at("foo"));
    assert_eq!(issue(&mut debugger, &mut world, run_cmd()), vec![stopped(FOO + 1, "sample.c:10")]);
    assert_eq!(
        issue(&mut debugger, &mut world, DebuggerCommand::Backtrace),
        vec![frame("sample.c:10", "foo"), frame("sample.c:31", "main")]
    );
}

#[test]
fn a_breakpoint_set_before_the_run_is_in_the_first_target() {
    let mut world = World::new();
    world.watch = vec![BAR, FOO_AFTER_CALL];
    let mut debugger = Debugger::new("sample");
    assert_eq!(
        issue(&mut debugger, &mut world, break_at("*0x401023")),
        vec![Report::BreakpointSet(0, BAR)]
    );
    assert_eq!(
        issue(&mut debugger, &mut world, break_at("*401014")),
        vec![Report::BreakpointSet(1, FOO_AFTER_CALL)]
    );
    assert!(world.log.is_empty());
    assert_eq!(entry(&debugger, 0), Breakpoint { address: BAR, saved_byte: None, is_active: false });
    issue(&mut debugger, &mut world, run_cmd());
    assert_eq!(world.traps_at_first_run, Some(vec![TRAP_BYTE, TRAP_BYTE]));
    assert_eq!(
        entry(&debugger, 0),
        Breakpoint { address: BAR, saved_byte: Some(0x24), is_active: true }
    );
    assert_eq!(
        entry(&debugger, 1),
        Breakpoint { address: FOO_AFTER_CALL, saved_byte: Some(0x15), is_active: true }
    );
    // the bytes next to the traps are the program's own
    assert_eq!(world.mem[&0x401020], 0x2827_2625_cc23_2221);
    assert_eq!(world.mem[&0x401010], 0x1817_16cc_1413_1211);
}

#[test]
fn continue_steps_over_the_breakpoint_and_arms_it_again() {
    let mut world = World::new();
    let mut debugger = Debugger::new("sample");
    issue(&mut debugger, &mut world, break_at("bar"));
    assert_eq!(issue(&mut debugger, &mut world, run_cmd()), vec![stopped(BAR + 1, "sample.c:20")]);
    world.log.clear();
    // the second call of bar passes the same address and stops again
    assert_eq!(
        issue(&mut debugger, &mut world, DebuggerCommand::Continue),
        vec![stopped(BAR + 1, "sample.c:20")]
    );
    let mut rewound = registers(BAR + 1, BAR_FRAME);
    rewound.rip = BAR as u64;
    assert_eq!(
        world.log,
        vec![
            Request::GetRegisters,
            Request::ReadWord(0x401020),
            Request::WriteWord(0x401020, 0x2827_2625_2423_2221),
            Request::SetRegisters(rewound),
            Request::Step,
            Request::Wait,
            Request::GetRegisters,
            Request::ReadWord(0x401020),
            Request::WriteWord(0x401020, 0x2827_2625_cc23_2221),
            Request::Cont,
            Request::Wait,
            Request::GetRegisters,
            Request::LineOf(BAR + 1),
        ]
    );
    assert_eq!(
        entry(&debugger, 0),
        Breakpoint { address: BAR, saved_byte: Some(0x24), is_active: true }
    );
    // after the last stop the program runs to its end
    assert_eq!(issue(&mut debugger, &mut world, DebuggerCommand::Continue), vec![Report::Exited(7)]);
    assert_eq!(debugger.inferior(), None);
    assert_eq!(
        entry(&debugger, 0),
        Breakpoint { address: BAR, saved_byte: Some(0x24), is_active: false }
    );
}

#[test]
fn continue_without_a_target_asks_nothing_of_a_process() {
    let mut world = World::new();
    let mut debugger = Debugger::new("sample");
    assert_eq!(issue(&mut debugger, &mut world, DebuggerCommand::Continue), vec![Report::NoInferior]);
    assert_eq!(issue(&mut debugger, &mut world, DebuggerCommand::Backtrace), vec![Report::NoInferior]);
    assert!(world.log.is_empty());
}

#[test]
fn continue_after_the_target_was_killed_reports_no_target() {
    let mut world = World::new();
    let mut debugger = Debugger::new("sample");
    issue(&mut debugger, &mut world, break_at("bar"));
    issue(&mut debugger, &mut world, run_cmd());
    assert_eq!(debugger.inferior(), Some(PID));
    // a second run kills the target; this time the program cannot be started
    world.can_spawn = false;
    assert_eq!(
        issue(&mut debugger, &mut world, DebuggerCommand::Run(vec![String::from("again")])),
        vec![Report::Killing(PID), Report::LaunchFailed(LaunchError::SpawnFailed)]
    );
    assert!(!world.alive);
    assert_eq!(debugger.inferior(), None);
    world.log.clear();
    assert_eq!(issue(&mut debugger, &mut world, DebuggerCommand::Continue), vec![Report::NoInferior]);
    assert!(world.log.is_empty());
}

#[test]
fn run_replaces_a_live_target_and_hands_on_the_arguments() {
    let mut world = World::new();
    let mut debugger = Debugger::new("sample");
    issue(&mut debugger, &mut world, break_at("bar"));
    issue(&mut debugger, &mut world, DebuggerCommand::Run(vec![String::from("one")]));
    let shown = issue(
        &mut debugger,
        &mut world,
        DebuggerCommand::Run(vec![String::from("two"), String::from("three")]),
    );
    assert_eq!(shown, vec![Report::Killing(PID), stopped(BAR + 1, "sample.c:20")]);
    assert_eq!(
        world.launches,
        vec![vec![String::from("one")], vec![String::from("two"), String::from("three")]]
    );
    assert_eq!(
        entry(&debugger, 0),
        Breakpoint { address: BAR, saved_byte: Some(0x24), is_active: true }
    );
}

#[test]
fn run_without_breakpoints_runs_to_the_end() {
    let mut world = World::new();
    let mut debugger = Debugger::new("sample");
    assert_eq!(issue(&mut debugger, &mut world, run_cmd()), vec![Report::Exited(7)]);
    assert_eq!(
        world.log,
        vec![
            Request::Launch(String::from("sample"), vec![]),
            Request::GetRegisters,
            Request::Cont,
            Request::Wait,
        ]
    );
    assert_eq!(debugger.inferior(), None);
}

#[test]
fn a_breakpoint_set_in_a_live_target_is_written_at_once() {
    let mut world = World::new();
    let mut debugger = Debugger::new("sample");
    issue(&mut debugger, &mut world, break_at("foo"));
    issue(&mut debugger, &mut world, run_cmd());
    world.log.clear();
    assert_eq!(
        issue(&mut debugger, &mut world, break_at("21")),
        vec![Report::BreakpointSet(1, BAR_NEXT)]
    );
    assert_eq!(
        world.log,
        vec![
            Request::AddressOfLine(21),
            Request::ReadWord(0x401020),
            Request::WriteWord(0x401020, 0xcc27_2625_2423_2221),
        ]
    );
    assert_eq!(
        entry(&debugger, 1),
        Breakpoint { address: BAR_NEXT, saved_byte: Some(0x28), is_active: true }
    );
    assert_eq!(
        issue(&mut debugger, &mut world, DebuggerCommand::Continue),
        vec![stopped(BAR_NEXT + 1, "sample.c:21")]
    );
}

#[test]
fn a_second_breakpoint_at_an_address_keeps_number_and_saved_byte() {
    let mut world = World::new();
    let mut debugger = Debugger::new("sample");
    issue(&mut debugger, &mut world, break_at("bar"));
    issue(&mut debugger, &mut world, break_at("foo"));
    assert_eq!(
        issue(&mut debugger, &mut world, break_at("*0x401023")),
        vec![Report::BreakpointSet(0, BAR)]
    );
    assert_eq!(debugger.breakpoints().len(), 2);
    issue(&mut debugger, &mut world, run_cmd());
    world.log.clear();
    assert_eq!(
        issue(&mut debugger, &mut world, break_at("20")),
        vec![Report::BreakpointSet(0, BAR)]
    );
    assert_eq!(world.log, vec![Request::AddressOfLine(20)]);
    assert_eq!(debugger.breakpoints().len(), 2);
    assert_eq!(
        entry(&debugger, 0),
        Breakpoint { address: BAR, saved_byte: Some(0x24), is_active: true }
    );
    assert_eq!(world.byte(BAR), TRAP_BYTE);
}

#[test]
fn a_breakpoint_argument_that_resolves_to_nothing_sets_nothing() {
    let mut world = World::new();
    let mut debugger = Debugger::new("sample");
    assert_eq!(
        issue(&mut debugger, &mut world, break_at("*0x40zz")),
        vec![Report::InvalidBreakpoint(InvalidBreakpointSpec::Address)]
    );
    assert_eq!(
        issue(&mut debugger, &mut world, break_at("*")),
        vec![Report::InvalidBreakpoint(InvalidBreakpointSpec::Address)]
    );
    assert_eq!(
        issue(&mut debugger, &mut world, break_at("99")),
        vec![Report::InvalidBreakpoint(InvalidBreakpointSpec::Line)]
    );
    assert_eq!(
        issue(&mut debugger, &mut world, break_at("baz")),
        vec![Report::InvalidBreakpoint(InvalidBreakpointSpec::Function)]
    );
    assert_eq!(
        world.log,
        vec![Request::AddressOfLine(99), Request::AddressOfFunction(String::from("baz"))]
    );
    assert_eq!(debugger.breakpoints().len(), 0);
}

#[test]
fn a_launch_that_does_not_stop_at_a_trap_fails() {
    let mut world = World::new();
    world.first_status = WaitStatus::Exited(1);
    let mut debugger = Debugger::new("sample");
    assert_eq!(
        issue(&mut debugger, &mut world, run_cmd()),
        vec![Report::LaunchFailed(LaunchError::UnexpectedInitialStatus)]
    );
    assert_eq!(world.log, vec![Request::Launch(String::from("sample"), vec![])]);
    assert_eq!(debugger.inferior(), None);

    // a process that is still there is killed before it is given up
    for status in [WaitStatus::Stopped(19), WaitStatus::Other] {
        let mut world = World::new();
        world.first_status = status;
        let mut debugger = Debugger::new("sample");
        assert_eq!(
            issue(&mut debugger, &mut world, run_cmd()),
            vec![Report::LaunchFailed(LaunchError::UnexpectedInitialStatus)]
        );
        assert_eq!(
            world.log,
            vec![Request::Launch(String::from("sample"), vec![]), Request::Kill]
        );
        assert!(!world.alive);
        assert_eq!(debugger.inferior(), None);
    }
}

#[test]
fn a_program_that_cannot_be_started_fails_the_launch() {
    let mut world = World::new();
    world.can_spawn = false;
    let mut debugger = Debugger::new("sample");
    assert_eq!(
        issue(&mut debugger, &mut world, run_cmd()),
        vec![Report::LaunchFailed(LaunchError::SpawnFailed)]
    );
    assert_eq!(debugger.inferior(), None);
}

#[test]
fn a_refused_write_leaves_the_table_as_it_was() {
    let mut world = World::new();
    let mut debugger = Debugger::new("sample");
    issue(&mut debugger, &mut world, break_at("foo"));
    issue(&mut debugger, &mut world, run_cmd());
    world.refuse = Some(Request::WriteWord(0x401020, 0x2827_2625_cc23_2221));
    assert_eq!(
        issue(&mut debugger, &mut world, break_at("bar")),
        vec![Report::TraceFailed(TraceError::Memory(5))]
    );
    assert_eq!(debugger.breakpoints().len(), 1);
    assert_eq!(world.byte(BAR), 0x24);
    assert_eq!(debugger.inferior(), Some(PID));
}

#[test]
fn a_refused_write_at_launch_gives_the_run_up() {
    let mut world = World::new();
    world.refuse = Some(Request::WriteWord(0x401020, 0x2827_2625_cc23_2221));
    let mut debugger = Debugger::new("sample");
    issue(&mut debugger, &mut world, break_at("foo"));
    issue(&mut debugger, &mut world, break_at("bar"));
    assert_eq!(
        issue(&mut debugger, &mut world, run_cmd()),
        vec![Report::TraceFailed(TraceError::Memory(5))]
    );
    assert!(!world.log.contains(&Request::Cont));
    assert_eq!(
        entry(&debugger, 0),
        Breakpoint { address: FOO, saved_byte: Some(0x11), is_active: true }
    );
    assert_eq!(entry(&debugger, 1), Breakpoint { address: BAR, saved_byte: None, is_active: false });
}

#[test]
fn refused_register_and_control_operations_give_the_command_up() {
    for (refuse, error) in [
        (Request::GetRegisters, TraceError::Register(5)),
        (Request::Cont, TraceError::Control(5)),
    ] {
        let mut world = World::new();
        world.refuse = Some(refuse);
        let mut debugger = Debugger::new("sample");
        assert_eq!(issue(&mut debugger, &mut world, run_cmd()), vec![Report::TraceFailed(error)]);
        assert_eq!(debugger.inferior(), Some(PID));
    }
    let mut world = World::new();
    let mut debugger = Debugger::new("sample");
    issue(&mut debugger, &mut world, break_at("bar"));
    issue(&mut debugger, &mut world, run_cmd());
    world.refuse = Some(Request::Step);
    assert_eq!(
        issue(&mut debugger, &mut world, DebuggerCommand::Continue),
        vec![Report::TraceFailed(TraceError::Control(5))]
    );
    // the original byte is back in memory, so the breakpoint is not active
    assert_eq!(world.byte(BAR), 0x24);
    assert_eq!(
        entry(&debugger, 0),
        Breakpoint { address: BAR, saved_byte: Some(0x24), is_active: false }
    );
}

#[test]
fn an_answer_of_the_wrong_kind_gives_the_command_up() {
    let mut debugger = Debugger::new("sample");
    debugger.run(Reply::Command(run_cmd()));
    let turn = debugger.run(Reply::Launched(PID, WaitStatus::Stopped(SIGTRAP)));
    assert_eq!(turn.request, Request::GetRegisters);
    let turn = debugger.run(Reply::Word(0));
    assert_eq!(turn.reports, vec![Report::TraceFailed(TraceError::Unexpected)]);
    assert_eq!(turn.request, Request::Command);
}

#[test]
fn a_backtrace_keeps_its_frames_when_it_breaks_off() {
    let mut world = World::new();
    let mut debugger = Debugger::new("sample");
    issue(&mut debugger, &mut world, break_at("bar"));
    issue(&mut debugger, &mut world, run_cmd());

    world.refuse = Some(Request::ReadWord(FOO_FRAME + 8));
    assert_eq!(
        issue(&mut debugger, &mut world, DebuggerCommand::Backtrace),
        vec![
            frame("sample.c:20", "bar"),
            frame("sample.c:11", "foo"),
            Report::UnwindFailed(UnwindError::Trace(TraceError::Memory(5))),
        ]
    );

    world.refuse = None;
    world.unknown_function_at = Some(FOO_AFTER_CALL);
    assert_eq!(
        issue(&mut debugger, &mut world, DebuggerCommand::Backtrace),
        vec![frame("sample.c:20", "bar"), Report::UnwindFailed(UnwindError::Unresolved(FOO_AFTER_CALL))]
    );

    world.unknown_function_at = None;
    world.unknown_line_at = Some(BAR + 1);
    assert_eq!(
        issue(&mut debugger, &mut world, DebuggerCommand::Backtrace),
        vec![Report::UnwindFailed(UnwindError::Unresolved(BAR + 1))]
    );

    world.unknown_line_at = None;
    world.refuse = Some(Request::GetRegisters);
    assert_eq!(
        issue(&mut debugger, &mut world, DebuggerCommand::Backtrace),
        vec![Report::UnwindFailed(UnwindError::Trace(TraceError::Register(5)))]
    );
    assert_eq!(debugger.inferior(), Some(PID));
}

#[test]
fn a_frame_base_at_the_top_of_memory_breaks_the_chain() {
    let mut world = World::new();
    let mut debugger = Debugger::new("sample");
    issue(&mut debugger, &mut world, break_at("bar"));
    issue(&mut debugger, &mut world, run_cmd());
    world.regs.rbp = (usize::MAX - 7) as u64;
    assert_eq!(
        issue(&mut debugger, &mut world, DebuggerCommand::Backtrace),
        vec![frame("sample.c:20", "bar"), Report::UnwindFailed(UnwindError::BrokenChain(usize::MAX - 7))]
    );
}

#[test]
fn a_signal_that_ends_the_target_clears_it() {
    let mut debugger = Debugger::new("sample");
    debugger.run(Reply::Command(run_cmd()));
    debugger.run(Reply::Launched(PID, WaitStatus::Stopped(SIGTRAP)));
    debugger.run(Reply::Registers(registers(MAIN, MAIN_FRAME)));
    let turn = debugger.run(Reply::Done);
    assert_eq!(turn.request, Request::Wait);
    let turn = debugger.run(Reply::Status(WaitStatus::Signaled(11)));
    assert_eq!(turn.reports, vec![Report::Signaled(11)]);
    assert_eq!(turn.request, Request::Command);
    assert_eq!(debugger.inferior(), None);
}

#[test]
fn a_stop_without_a_known_line_is_still_reported() {
    let mut debugger = Debugger::new("sample");
    debugger.run(Reply::Command(run_cmd()));
    debugger.run(Reply::Launched(PID, WaitStatus::Stopped(SIGTRAP)));
    debugger.run(Reply::Registers(registers(MAIN, MAIN_FRAME)));
    debugger.run(Reply::Done);
    let turn = debugger.run(Reply::Status(WaitStatus::Stopped(2)));
    assert_eq!(turn.request, Request::GetRegisters);
    let turn = debugger.run(Reply::Registers(registers(0x7000, MAIN_FRAME)));
    assert_eq!(turn.request, Request::LineOf(0x7000));
    let turn = debugger.run(Reply::Text(None));
    assert_eq!(turn.reports, vec![Report::Stopped(2, 0x7000, None)]);
    assert_eq!(debugger.inferior(), Some(PID));
}

#[test]
fn quit_kills_a_live_target_and_ends_the_session() {
    let mut world = World::new();
    let mut debugger = Debugger::new("sample");
    issue(&mut debugger, &mut world, break_at("bar"));
    issue(&mut debugger, &mut world, run_cmd());
    world.log.clear();
    assert_eq!(issue(&mut debugger, &mut world, DebuggerCommand::Quit), vec![Report::Killing(PID)]);
    assert_eq!(world.log, vec![Request::Kill]);
    assert!(debugger.is_over());
    assert_eq!(debugger.inferior(), None);
    let turn = debugger.run(Reply::Command(run_cmd()));
    assert_eq!(turn.request, Request::Quit);
    assert!(debugger.is_over());
}

#[test]
fn quit_without_a_target_ends_the_session_at_once() {
    let mut debugger = Debugger::new("sample");
    let turn = debugger.run(Reply::Command(DebuggerCommand::Quit));
    assert_eq!(turn.reports, vec![]);
    assert_eq!(turn.request, Request::Quit);
    assert!(debugger.is_over());
}

#[test]
fn the_target_runs_only_while_the_session_waits_for_it() {
    let mut debugger = Debugger::new("sample");
    assert_eq!(debugger.target_state(), TargetState::NoTarget);
    debugger.run(Reply::Command(break_at("*0x401023")));
    debugger.run(Reply::Command(run_cmd()));
    assert_eq!(debugger.target_state(), TargetState::NoTarget);
    let mut world = World::new();
    let mut turn = debugger.run(world.answer(&Request::Launch(String::from("sample"), vec![])));
    let mut seen = Vec::new();
    while turn.request != Request::Command {
        seen.push((turn.request.clone(), debugger.target_state()));
        turn = debugger.run(world.answer(&turn.request));
    }
    assert_eq!(debugger.target_state(), TargetState::Stopped);
    for (request, state) in &seen {
        let expected =
            if *request == Request::Wait { TargetState::Running } else { TargetState::Stopped };
        assert_eq!(*state, expected, "{:?}", request);
    }
    assert!(seen.contains(&(Request::Wait, TargetState::Running)));

    // over the breakpoint and on to the next stop: the target runs twice
    let mut turn = debugger.run(Reply::Command(DebuggerCommand::Continue));
    let mut waits = 0;
    while turn.request != Request::Command {
        if turn.request == Request::Wait {
            assert_eq!(debugger.target_state(), TargetState::Running);
            waits += 1;
        } else {
            assert_eq!(debugger.target_state(), TargetState::Stopped);
        }
        turn = debugger.run(world.answer(&turn.request));
    }
    assert_eq!(waits, 2);
}

/// The memory of the world with the saved byte in the place of each trap
/// that the table holds as active.
fn without_traps(world: &World, debugger: &Debugger) -> Vec<u8> {
    let mut bytes: Vec<u8> = (0x401000..0x401030).map(|addr| world.byte(addr)).collect();
    for number in 0..debugger.breakpoints().len() {
        let breakpoint = entry(debugger, number);
        if breakpoint.is_active {
            bytes[breakpoint.address - 0x401000] = breakpoint.saved_byte.unwrap();
        }
    }
    bytes
}

#[test]
fn the_program_under_the_traps_is_never_changed() {
    let mut world = World::new();
    world.mem = World::image();
    let mut debugger = Debugger::new("sample");
    let program = without_traps(&world, &debugger);
    let commands = vec![
        break_at("bar"),
        break_at("*0x401024"),
        run_cmd(),
        break_at("21"),
        break_at("*0x401028"),
        DebuggerCommand::Backtrace,
        DebuggerCommand::Continue,
        break_at("bar"),
        DebuggerCommand::Continue,
        run_cmd(),
        DebuggerCommand::Continue,
    ];
    for cmd in commands {
        let mut turn = debugger.run(Reply::Command(cmd));
        while turn.request != Request::Command {
            let reply = world.answer(&turn.request);
            turn = debugger.run(reply);
            if world.alive {
                assert_eq!(without_traps(&world, &debugger), program, "{:?}", world.log.last());
            }
        }
    }
    assert_eq!(debugger.breakpoints().len(), 4);
    assert_eq!(debugger.inferior(), Some(PID));
}
