//! The operator console and the supervisor of the servers: what a console
//! line asks for, when the console stops, and how the main loop answers
//! commands, interrupts and termination signals.
use vstd::prelude::*;
use crate::text::str_is;

verus! {

/// A command that the console (or a signal) sends to every part of the server.
#[derive(PartialEq, Eq, Structural, Clone, Copy, Debug)]
pub enum ConsoleCommand {
    Kill,
    Stop,
    Shutdown,
    Reload,
    Restart,
}

/// What one console line does: the command it sends (if any) and whether the
/// console stops reading afterwards.
#[derive(PartialEq, Eq, Structural, Clone, Copy, Debug)]
pub struct LineOutcome {
    pub command: Option<ConsoleCommand>,
    pub stop: bool,
}

/// The outcome of a console line (with its line feed): `kill`, `stop` and
/// `restart` send their command and stop the console; `shutdown` and `reload`
/// send theirs and keep reading; anything else is ignored.
pub open spec fn line_outcome(line: Seq<char>) -> LineOutcome {
    if line == "kill\n"@ {
        LineOutcome { command: Some(ConsoleCommand::Kill), stop: true }
    } else if line == "stop\n"@ {
        LineOutcome { command: Some(ConsoleCommand::Stop), stop: true }
    } else if line == "shutdown\n"@ {
        LineOutcome { command: Some(ConsoleCommand::Shutdown), stop: false }
    } else if line == "restart\n"@ {
        LineOutcome { command: Some(ConsoleCommand::Restart), stop: true }
    } else if line == "reload\n"@ {
        LineOutcome { command: Some(ConsoleCommand::Reload), stop: false }
    } else {
        LineOutcome { command: None, stop: false }
    }
}

/// What a console line asks for.
pub fn console_line(line: &str) -> (res: LineOutcome)
    ensures
        res == line_outcome(line@),
{
    if str_is(line, "kill\n") {
        LineOutcome { command: Some(ConsoleCommand::Kill), stop: true }
    } else if str_is(line, "stop\n") {
        LineOutcome { command: Some(ConsoleCommand::Stop), stop: true }
    } else if str_is(line, "shutdown\n") {
        LineOutcome { command: Some(ConsoleCommand::Shutdown), stop: false }
    } else if str_is(line, "restart\n") {
        LineOutcome { command: Some(ConsoleCommand::Restart), stop: true }
    } else if str_is(line, "reload\n") {
        LineOutcome { command: Some(ConsoleCommand::Reload), stop: false }
    } else {
        LineOutcome { command: None, stop: false }
    }
}

/// Whether a console stops when it receives `cmd` from elsewhere: every
/// command but `Reload` stops it.
pub fn stops_console(cmd: ConsoleCommand) -> (res: bool)
    ensures
        res == (cmd != ConsoleCommand::Reload),
{
    match cmd {
        ConsoleCommand::Reload => false,
        _ => true,
    }
}

// ---------------------------------------------------------------------------
// The supervisor of a server run
// ---------------------------------------------------------------------------

/// What happens while the servers run.
#[derive(PartialEq, Eq, Structural, Clone, Copy, Debug)]
pub enum SupervisorEvent {
    /// The servers ended by themselves.
    ServersDone,
    /// A command arrived.
    Command(ConsoleCommand),
    /// A command was lost (the channel lagged).
    CommandLost,
    /// An interrupt (Ctrl-C).
    Interrupt,
    /// A termination signal.
    Terminate,
}

/// What the supervisor does about an event.
#[derive(PartialEq, Eq, Structural, Clone, Copy, Debug)]
pub enum SupervisorAction {
    /// Leave the loop.
    Finish,
    /// Abort the servers, then leave the loop.
    AbortAndFinish,
    /// Wait for the servers to end, then leave the loop.
    AwaitAndFinish,
    /// Wait for the servers to end, then start them again.
    AwaitAndRespawn,
    /// Send a command to every part of the server.
    Broadcast(ConsoleCommand),
    /// End the process with this exit code.
    Exit(i32),
    /// Nothing to do.
    Ignore,
}

/// The supervisor's memory of one server run.
#[derive(PartialEq, Eq, Structural, Clone, Copy, Debug)]
pub struct Supervisor {
    /// How many interrupts have arrived.
    pub interrupts: u64,
    /// Whether the run is to be followed by another one with reloaded
    /// settings.
    pub restart: bool,
}

/// The supervisor after an event, with what it does.
pub open spec fn supervise(s: Supervisor, ev: SupervisorEvent) -> (Supervisor, SupervisorAction) {
    match ev {
        SupervisorEvent::ServersDone => (Supervisor { restart: false, ..s }, SupervisorAction::Finish),
        SupervisorEvent::Command(ConsoleCommand::Kill) => (s, SupervisorAction::AbortAndFinish),
        SupervisorEvent::Command(ConsoleCommand::Stop) => (s, SupervisorAction::AwaitAndFinish),
        SupervisorEvent::Command(ConsoleCommand::Shutdown) => (s, SupervisorAction::AwaitAndFinish),
        SupervisorEvent::Command(ConsoleCommand::Reload) => (s, SupervisorAction::AwaitAndRespawn),
        SupervisorEvent::Command(ConsoleCommand::Restart) => (Supervisor { restart: true, ..s }, SupervisorAction::AwaitAndFinish),
        SupervisorEvent::CommandLost => (s, SupervisorAction::Ignore),
        SupervisorEvent::Interrupt => {
            let next = Supervisor { interrupts: if s.interrupts < 2 { (s.interrupts + 1) as u64 } else { s.interrupts }, restart: false };
            if s.interrupts == 0 {
                (next, SupervisorAction::Broadcast(ConsoleCommand::Stop))
            } else if s.interrupts == 1 {
                (next, SupervisorAction::Broadcast(ConsoleCommand::Kill))
            } else {
                (next, SupervisorAction::Exit(1))
            }
        },
        SupervisorEvent::Terminate => (Supervisor { restart: false, ..s }, SupervisorAction::Broadcast(ConsoleCommand::Stop)),
    }
}

impl Supervisor {
    /// A supervisor before any event: no interrupts, no restart.
    pub fn new() -> (res: Self)
        ensures
            res == (Supervisor { interrupts: 0, restart: false }),
    {
        Supervisor { interrupts: 0, restart: false }
    }

    /// Takes an event: the first interrupt asks every part to stop, the second
    /// to be killed, a third ends the process; a termination signal asks them
    /// to stop; a `Restart` command marks the run for a restart, which an
    /// interrupt, a termination signal or the servers' own end clear.
    pub fn on_event(&mut self, ev: SupervisorEvent) -> (res: SupervisorAction)
        ensures
            (*final(self), res) == supervise(*old(self), ev),
    {
        match ev {
            SupervisorEvent::ServersDone => {
                self.restart = false;
                SupervisorAction::Finish
            },
            SupervisorEvent::Command(c) => match c {
                ConsoleCommand::Kill => SupervisorAction::AbortAndFinish,
                ConsoleCommand::Stop => SupervisorAction::AwaitAndFinish,
                ConsoleCommand::Shutdown => SupervisorAction::AwaitAndFinish,
                ConsoleCommand::Reload => SupervisorAction::AwaitAndRespawn,
                ConsoleCommand::Restart => {
                    self.restart = true;
                    SupervisorAction::AwaitAndFinish
                },
            },
            SupervisorEvent::CommandLost => SupervisorAction::Ignore,
            SupervisorEvent::Interrupt => {
                let n = self.interrupts;
                self.restart = false;
                if n < 2 {
                    self.interrupts = n + 1;
                }
                if n == 0 {
                    SupervisorAction::Broadcast(ConsoleCommand::Stop)
                } else if n == 1 {
                    SupervisorAction::Broadcast(ConsoleCommand::Kill)
                } else {
                    SupervisorAction::Exit(1)
                }
            },
            SupervisorEvent::Terminate => {
                self.restart = false;
                SupervisorAction::Broadcast(ConsoleCommand::Stop)
            },
        }
    }

    /// Whether another run follows this one.
    pub fn restart(&self) -> (res: bool)
        ensures
            res == self.restart,
    {
        self.restart
    }
}

/// The supervisor after a sequence of events.
pub open spec fn supervise_all(s: Supervisor, evs: Seq<SupervisorEvent>) -> Supervisor
    decreases evs.len(),
{
    if evs.len() == 0 {
        s
    } else {
        supervise(supervise_all(s, evs.drop_last()), evs.last()).0
    }
}

/// Only `kill` aborts the running servers; `stop` and `shutdown` wait for them
/// to finish, `restart` waits and marks the run for a restart, and `reload`
/// waits and starts them again. No command changes the count of interrupts.
pub proof fn lemma_only_kill_aborts(s: Supervisor, c: ConsoleCommand)
    ensures
        (supervise(s, SupervisorEvent::Command(c)).1 == SupervisorAction::AbortAndFinish) <==> c == ConsoleCommand::Kill,
        (c == ConsoleCommand::Stop || c == ConsoleCommand::Shutdown || c == ConsoleCommand::Restart)
            ==> supervise(s, SupervisorEvent::Command(c)).1 == SupervisorAction::AwaitAndFinish,
        c == ConsoleCommand::Reload ==> supervise(s, SupervisorEvent::Command(c)).1 == SupervisorAction::AwaitAndRespawn,
        supervise(s, SupervisorEvent::Command(c)).0.interrupts == s.interrupts,
        supervise(s, SupervisorEvent::Command(c)).0.restart == (s.restart || c == ConsoleCommand::Restart),
{
}

/// Three interrupts end the process: the first asks every part to stop, the
/// second to be killed, and the third (and every later one) exits with code 1.
pub proof fn lemma_third_interrupt_exits(s: Supervisor)
    requires
        s.interrupts == 0,
    ensures
        supervise(s, SupervisorEvent::Interrupt).1 == SupervisorAction::Broadcast(ConsoleCommand::Stop),
        supervise(supervise(s, SupervisorEvent::Interrupt).0, SupervisorEvent::Interrupt).1
            == SupervisorAction::Broadcast(ConsoleCommand::Kill),
        ({
            let s2 = supervise(supervise(s, SupervisorEvent::Interrupt).0, SupervisorEvent::Interrupt).0;
            &&& supervise(s2, SupervisorEvent::Interrupt).1 == SupervisorAction::Exit(1)
            &&& supervise(supervise(s2, SupervisorEvent::Interrupt).0, SupervisorEvent::Interrupt).1 == SupervisorAction::Exit(1)
        }),
{
}

/// A run is followed by another exactly when a `Restart` command came and no
/// interrupt, termination signal or end of the servers came after it.
pub proof fn lemma_restart_needs_restart_command(s: Supervisor, evs: Seq<SupervisorEvent>)
    requires
        !s.restart,
    ensures
        supervise_all(s, evs).restart <==> exists|i: int| 0 <= i < evs.len()
            && evs[i] == SupervisorEvent::Command(ConsoleCommand::Restart)
            && forall|j: int| i < j < evs.len() ==> !clears_restart(#[trigger] evs[j]),
    decreases evs.len(),
{
    if evs.len() > 0 {
        let init = evs.drop_last();
        lemma_restart_needs_restart_command(s, init);
        let last = evs.last();
        if supervise_all(s, evs).restart {
            if last == SupervisorEvent::Command(ConsoleCommand::Restart) {
                assert(evs[evs.len() - 1] == last);
            } else {
                let i = choose|i: int| 0 <= i < init.len()
                    && init[i] == SupervisorEvent::Command(ConsoleCommand::Restart)
                    && forall|j: int| i < j < init.len() ==> !clears_restart(#[trigger] init[j]);
                assert(evs[i] == init[i]);
                assert forall|j: int| i < j < evs.len() implies !clears_restart(#[trigger] evs[j]) by {
                    if j < init.len() {
                        assert(evs[j] == init[j]);
                    }
                }
            }
        } else {
            if exists|i: int| 0 <= i < evs.len()
                && evs[i] == SupervisorEvent::Command(ConsoleCommand::Restart)
                && forall|j: int| i < j < evs.len() ==> !clears_restart(#[trigger] evs[j]) {
                let i = choose|i: int| 0 <= i < evs.len()
                    && evs[i] == SupervisorEvent::Command(ConsoleCommand::Restart)
                    && forall|j: int| i < j < evs.len() ==> !clears_restart(#[trigger] evs[j]);
                if i < evs.len() - 1 {
                    assert(!clears_restart(evs[evs.len() - 1]));
                    assert(init[i] == evs[i]);
                    assert forall|j: int| i < j < init.len() implies !clears_restart(#[trigger] init[j]) by {
                        assert(init[j] == evs[j]);
                    }
                }
            }
        }
    }
}

/// An event that clears a pending restart.
pub open spec fn clears_restart(ev: SupervisorEvent) -> bool {
    ev == SupervisorEvent::ServersDone || ev == SupervisorEvent::Interrupt || ev == SupervisorEvent::Terminate
}

} // verus!
