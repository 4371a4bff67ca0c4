use steam_animation_daemon::config::Config;
use steam_animation_daemon::daemon::{dispatch, DaemonAction, MAINTENANCE_PAUSE_SECS};
use steam_animation_daemon::steam_monitor::{
    classify_journal_line, is_steam_process, journal_args, ProcessInfo, SteamEvent, SteamMonitor,
    SystemEvent,
};

fn process(pid: i32, args: &[&str]) -> ProcessInfo {
    ProcessInfo { pid, cmdline: args.iter().map(|a| a.to_string()).collect() }
}

#[test]
fn test_steam_monitor_creation() {
    let config = Config::default();
    let monitor = SteamMonitor::new(config);
    assert!(!monitor.is_running());
    assert!(!monitor.is_suspend_pending());
}

#[test]
fn starting_and_shutdown_once_per_edge() {
    let mut monitor = SteamMonitor::new(Config::default());
    let none: Vec<ProcessInfo> = vec![process(1, &["/sbin/init"])];
    let one = vec![process(1, &["/sbin/init"]), process(40, &["/usr/bin/steam", "-silent"])];
    let two = vec![
        process(40, &["/usr/bin/steam"]),
        process(41, &["/home/deck/.steam/steamwebhelper"]),
    ];
    let other = vec![process(77, &["bash", "-c", "steam-runtime"])];
    assert_eq!(monitor.check_steam_processes(&none), None);
    assert_eq!(monitor.check_steam_processes(&one), Some(SteamEvent::Starting));
    assert!(monitor.is_running());
    assert_eq!(monitor.check_steam_processes(&two), None);
    assert_eq!(monitor.check_steam_processes(&other), None);
    assert_eq!(monitor.check_steam_processes(&none), Some(SteamEvent::Shutdown));
    assert!(!monitor.is_running());
    assert_eq!(monitor.check_steam_processes(&none), None);
    assert_eq!(monitor.check_steam_processes(&two), Some(SteamEvent::Starting));
    assert_eq!(monitor.check_steam_processes(&Vec::new()), Some(SteamEvent::Shutdown));
}

#[test]
fn steam_process_is_told_by_any_argument() {
    assert!(is_steam_process(&vec!["python".to_string(), "/opt/steam/run.py".to_string()]));
    assert!(!is_steam_process(&vec!["python".to_string(), "/opt/stea/m.py".to_string()]));
    assert!(!is_steam_process(&Vec::new()));
    assert!(!is_steam_process(&vec!["Steam".to_string()]));
}

#[test]
fn resume_needs_a_pending_suspend() {
    let mut monitor = SteamMonitor::new(Config::default());
    assert_eq!(monitor.handle_system_event(SystemEvent::Resume), None);
    assert_eq!(monitor.handle_system_event(SystemEvent::Suspend), Some(SteamEvent::Suspending));
    assert!(monitor.is_suspend_pending());
    assert_eq!(monitor.handle_system_event(SystemEvent::Resume), Some(SteamEvent::Resuming));
    assert!(!monitor.is_suspend_pending());
    assert_eq!(monitor.handle_system_event(SystemEvent::Resume), None);
    assert_eq!(monitor.handle_system_event(SystemEvent::Suspend), Some(SteamEvent::Suspending));
    assert_eq!(monitor.handle_system_event(SystemEvent::Suspend), Some(SteamEvent::Suspending));
    assert_eq!(monitor.handle_system_event(SystemEvent::Resume), Some(SteamEvent::Resuming));
}

#[test]
fn suspend_is_reported_while_idle_and_leaves_processes_alone() {
    let mut monitor = SteamMonitor::new(Config::default());
    assert_eq!(monitor.handle_system_event(SystemEvent::Suspend), Some(SteamEvent::Suspending));
    assert!(!monitor.is_running());
    let one = vec![process(40, &["steam"])];
    assert_eq!(monitor.check_steam_processes(&one), Some(SteamEvent::Starting));
    assert!(monitor.is_suspend_pending());
}

#[test]
fn journal_lines_are_read_by_their_markers() {
    assert_eq!(classify_journal_line("Reached target suspend"), Some(SystemEvent::Suspend));
    assert_eq!(classify_journal_line("Suspending system..."), Some(SystemEvent::Suspend));
    assert_eq!(classify_journal_line("System resumed."), Some(SystemEvent::Resume));
    assert_eq!(classify_journal_line("about to resume"), Some(SystemEvent::Resume));
    assert_eq!(classify_journal_line("suspend then resume"), Some(SystemEvent::Suspend));
    assert_eq!(classify_journal_line("Started Hibernate."), None);
    assert_eq!(classify_journal_line(""), None);
}

#[test]
fn journal_is_followed_for_both_units() {
    let args = journal_args();
    assert_eq!(
        args,
        vec!["-f", "-u", "systemd-suspend.service", "-u", "systemd-hibernate.service"]
    );
}

#[test]
fn events_are_dispatched_to_their_actions() {
    assert_eq!(dispatch(SteamEvent::Starting), DaemonAction::PrepareBoot);
    assert_eq!(dispatch(SteamEvent::Suspending), DaemonAction::PrepareSuspend);
    assert_eq!(dispatch(SteamEvent::Resuming), DaemonAction::PrepareResume);
    assert_eq!(dispatch(SteamEvent::Shutdown), DaemonAction::Cleanup);
    assert_eq!(MAINTENANCE_PAUSE_SECS, 30);
}
