use muon::console::{console_line, stops_console, ConsoleCommand, Supervisor, SupervisorAction, SupervisorEvent};

#[test]
fn console_lines() {
    let o = console_line("kill\n");
    assert_eq!(o.command, Some(ConsoleCommand::Kill));
    assert!(o.stop);
    let o = console_line("reload\n");
    assert_eq!(o.command, Some(ConsoleCommand::Reload));
    assert!(!o.stop);
    let o = console_line("shutdown\n");
    assert_eq!(o.command, Some(ConsoleCommand::Shutdown));
    assert!(!o.stop);
    assert!(console_line("restart\n").stop);
    assert!(console_line("stop\n").stop);
    let o = console_line("stop");
    assert_eq!(o.command, None);
    assert!(!o.stop);
    assert!(stops_console(ConsoleCommand::Stop));
    assert!(!stops_console(ConsoleCommand::Reload));
}

#[test]
fn three_interrupts_exit() {
    let mut s = Supervisor::new();
    assert_eq!(s.on_event(SupervisorEvent::Interrupt), SupervisorAction::Broadcast(ConsoleCommand::Stop));
    assert_eq!(s.on_event(SupervisorEvent::Interrupt), SupervisorAction::Broadcast(ConsoleCommand::Kill));
    assert_eq!(s.on_event(SupervisorEvent::Interrupt), SupervisorAction::Exit(1));
    assert_eq!(s.on_event(SupervisorEvent::Interrupt), SupervisorAction::Exit(1));
}

#[test]
fn restarts() {
    let mut s = Supervisor::new();
    assert_eq!(s.on_event(SupervisorEvent::Command(ConsoleCommand::Reload)), SupervisorAction::AwaitAndRespawn);
    assert!(!s.restart());
    assert_eq!(s.on_event(SupervisorEvent::Command(ConsoleCommand::Restart)), SupervisorAction::AwaitAndFinish);
    assert!(s.restart());
    assert_eq!(s.on_event(SupervisorEvent::CommandLost), SupervisorAction::Ignore);
    assert!(s.restart());
    assert_eq!(s.on_event(SupervisorEvent::Terminate), SupervisorAction::Broadcast(ConsoleCommand::Stop));
    assert!(!s.restart());
    assert_eq!(s.on_event(SupervisorEvent::Command(ConsoleCommand::Kill)), SupervisorAction::AbortAndFinish);
    assert_eq!(s.on_event(SupervisorEvent::ServersDone), SupervisorAction::Finish);
    assert!(!s.restart());
}
