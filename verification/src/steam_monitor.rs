//! The lifecycle detector: turns process-table snapshots and journal lines
//! into lifecycle events.

use vstd::prelude::*;
use std::collections::HashSet;
use crate::config::Config;
use crate::text::{is_substring, str_contains};

verus! {

/// A change in the life of the Steam client or of the system under it.
#[derive(Debug, Clone, Copy, PartialEq, Eq, Structural)]
pub enum SteamEvent {
    Starting,
    Suspending,
    Resuming,
    Shutdown,
}

/// What a journal line says about the system's power state.
#[derive(Debug, Clone, Copy, PartialEq, Eq, Structural)]
pub enum SystemEvent {
    Suspend,
    Resume,
}

/// One row of a process-table snapshot.
#[derive(Debug)]
pub struct ProcessInfo {
    pub pid: i32,
    pub cmdline: Vec<String>,
}

/// Some argument of the command line holds the word `steam`.
pub open spec fn mentions_steam(cmdline: Seq<String>) -> bool {
    exists|i: int| 0 <= i < cmdline.len() && is_substring("steam"@, #[trigger] cmdline[i]@)
}

/// The ids of the Steam processes among the first `k` rows.
pub open spec fn matching_among(snapshot: Seq<ProcessInfo>, k: int) -> Set<i32>
    decreases k,
{
    if k <= 0 {
        Set::empty()
    } else if mentions_steam(snapshot[k - 1].cmdline@) {
        matching_among(snapshot, k - 1).insert(snapshot[k - 1].pid)
    } else {
        matching_among(snapshot, k - 1)
    }
}

/// The ids of the Steam processes in a snapshot.
pub open spec fn matching_pids(snapshot: Seq<ProcessInfo>) -> Set<i32> {
    matching_among(snapshot, snapshot.len() as int)
}

/// A snapshot shows the client running: some row is a Steam process.
pub open spec fn shows_steam(snapshot: Seq<ProcessInfo>) -> bool {
    exists|i: int| 0 <= i < snapshot.len() && mentions_steam((#[trigger] snapshot[i]).cmdline@)
}

/// The set of Steam process ids holds exactly the ids of the rows that are
/// Steam processes; it is empty exactly when the snapshot shows no client.
pub proof fn lemma_matching_pids(snapshot: Seq<ProcessInfo>, k: int)
    requires
        0 <= k <= snapshot.len(),
    ensures
        forall|pid: i32|
            matching_among(snapshot, k).contains(pid) <==> exists|i: int|
                0 <= i < k && (#[trigger] snapshot[i]).pid == pid && mentions_steam(
                    snapshot[i].cmdline@,
                ),
        matching_among(snapshot, k).finite(),
        k == snapshot.len() ==> (matching_pids(snapshot).is_empty() <==> !shows_steam(snapshot)),
    decreases k,
{
    if k > 0 {
        lemma_matching_pids(snapshot, k - 1);
        let earlier = matching_among(snapshot, k - 1);
        let now = matching_among(snapshot, k);
        assert forall|pid: i32| now.contains(pid) implies exists|i: int|
            0 <= i < k && (#[trigger] snapshot[i]).pid == pid && mentions_steam(
                snapshot[i].cmdline@,
            ) by {
            if earlier.contains(pid) {
                let i = choose|i: int|
                    0 <= i < k - 1 && (#[trigger] snapshot[i]).pid == pid && mentions_steam(
                        snapshot[i].cmdline@,
                    );
                assert(snapshot[i].pid == pid);
            } else {
                assert(snapshot[k - 1].pid == pid);
            }
        }
        assert forall|pid: i32|
            (exists|i: int|
                0 <= i < k && (#[trigger] snapshot[i]).pid == pid && mentions_steam(
                    snapshot[i].cmdline@,
                )) implies now.contains(pid) by {
            let i = choose|i: int|
                0 <= i < k && (#[trigger] snapshot[i]).pid == pid && mentions_steam(
                    snapshot[i].cmdline@,
                );
            if i < k - 1 {
                assert(earlier.contains(pid));
            }
        }
    }
    if k == snapshot.len() {
        let all = matching_pids(snapshot);
        if shows_steam(snapshot) {
            let i = choose|i: int|
                0 <= i < snapshot.len() && mentions_steam((#[trigger] snapshot[i]).cmdline@);
            assert(all.contains(snapshot[i].pid));
        } else {
            assert forall|pid: i32| !all.contains(pid) by {
                if all.contains(pid) {
                    let i = choose|i: int|
                        0 <= i < k && (#[trigger] snapshot[i]).pid == pid && mentions_steam(
                            snapshot[i].cmdline@,
                        );
                    assert(mentions_steam(snapshot[i].cmdline@));
                }
            }
            assert(all =~= Set::<i32>::empty());
        }
    }
}

/// The event of one polling tick: `Starting` where the client was absent
/// and is present, `Shutdown` where it was present and is absent, nothing
/// otherwise.
pub open spec fn presence_event(was_running: bool, is_running: bool) -> Option<SteamEvent> {
    if !was_running && is_running {
        Some(SteamEvent::Starting)
    } else if was_running && !is_running {
        Some(SteamEvent::Shutdown)
    } else {
        None
    }
}

/// The suspend guard after a journal marker, and the event the marker
/// gives. A suspend marker sets the guard and always gives `Suspending`; a
/// resume marker gives `Resuming` only under a set guard, and leaves the
/// guard clear.
pub open spec fn journal_step(pending: bool, marker: SystemEvent) -> (bool, Option<SteamEvent>) {
    match marker {
        SystemEvent::Suspend => (true, Some(SteamEvent::Suspending)),
        SystemEvent::Resume => if pending {
            (false, Some(SteamEvent::Resuming))
        } else {
            (false, None)
        },
    }
}

/// What a journal line says: a line with a suspend marker is a suspend, any
/// other line with a resume marker is a resume.
pub open spec fn journal_marker(line: Seq<char>) -> Option<SystemEvent> {
    if is_substring("suspend"@, line) || is_substring("Suspending system"@, line) {
        Some(SystemEvent::Suspend)
    } else if is_substring("resume"@, line) || is_substring("System resumed"@, line) {
        Some(SystemEvent::Resume)
    } else {
        None
    }
}

/// Reads one journal line.
pub fn classify_journal_line(line: &str) -> (marker: Option<SystemEvent>)
    ensures
        marker == journal_marker(line@),
{
    if str_contains(line, "suspend") || str_contains(line, "Suspending system") {
        Some(SystemEvent::Suspend)
    } else if str_contains(line, "resume") || str_contains(line, "System resumed") {
        Some(SystemEvent::Resume)
    } else {
        None
    }
}

/// Whether a command line belongs to the Steam client.
pub fn is_steam_process(cmdline: &Vec<String>) -> (found: bool)
    ensures
        found == mentions_steam(cmdline@),
{
    let mut i: usize = 0;
    while i < cmdline.len()
        invariant
            i <= cmdline.len(),
            forall|j: int| 0 <= j < i ==> !is_substring("steam"@, #[trigger] cmdline@[j]@),
        decreases cmdline.len() - i,
    {
        if str_contains(cmdline[i].as_str(), "steam") {
            return true;
        }
        i += 1;
    }
    false
}

/// The arguments with which the journal is followed: the suspend and the
/// hibernate unit, new lines only as they come.
pub fn journal_args() -> (args: Vec<String>)
    ensures
        args@.len() == 5,
        args@[0]@ == "-f"@,
        args@[1]@ == "-u"@,
        args@[2]@ == "systemd-suspend.service"@,
        args@[3]@ == "-u"@,
        args@[4]@ == "systemd-hibernate.service"@,
{
    let mut args: Vec<String> = Vec::new();
    args.push(String::from_str("-f"));
    args.push(String::from_str("-u"));
    args.push(String::from_str("systemd-suspend.service"));
    args.push(String::from_str("-u"));
    args.push(String::from_str("systemd-hibernate.service"));
    args
}

/// The detector's state: the Steam processes seen at the last tick and the
/// suspend guard.
pub struct SteamMonitor {
    config: Config,
    current_steam_pids: HashSet<i32>,
    was_suspended: bool,
}

impl SteamMonitor {
    /// The settings the monitor was made with.
    pub closed spec fn settings(&self) -> Config {
        self.config
    }

    /// The ids of the Steam processes seen at the last tick.
    pub closed spec fn pids(&self) -> Set<i32> {
        self.current_steam_pids@
    }

    /// The client was seen at the last tick.
    pub open spec fn running(&self) -> bool {
        !self.pids().is_empty()
    }

    /// A suspend was seen and no resume since.
    pub closed spec fn suspend_pending(&self) -> bool {
        self.was_suspended
    }

    /// A monitor that has seen no process and no suspend.
    pub fn new(config: Config) -> (monitor: SteamMonitor)
        ensures
            monitor.settings() == config,
            monitor.pids() == Set::<i32>::empty(),
            !monitor.suspend_pending(),
    {
        SteamMonitor { config, current_steam_pids: HashSet::new(), was_suspended: false }
    }

    /// Whether the client was seen at the last tick.
    pub fn is_running(&self) -> (running: bool)
        ensures
            running == self.running(),
    {
        !self.current_steam_pids.is_empty()
    }

    /// Whether a suspend waits for its resume.
    pub fn is_suspend_pending(&self) -> (pending: bool)
        ensures
            pending == self.suspend_pending(),
    {
        self.was_suspended
    }

    /// Takes one snapshot of the process table. The monitor remembers the
    /// Steam processes of the snapshot, and the event is that of the edge
    /// between absent and present; a change among present processes gives
    /// none.
    pub fn check_steam_processes(&mut self, snapshot: &Vec<ProcessInfo>) -> (event: Option<
        SteamEvent,
    >)
        ensures
            final(self).pids() == matching_pids(snapshot@),
            event == presence_event(old(self).running(), shows_steam(snapshot@)),
            final(self).suspend_pending() == old(self).suspend_pending(),
            final(self).settings() == old(self).settings(),
    {
        broadcast use vstd::std_specs::hash::group_hash_axioms;

        let mut current: HashSet<i32> = HashSet::new();
        let mut i: usize = 0;
        while i < snapshot.len()
            invariant
                i <= snapshot.len(),
                current@ == matching_among(snapshot@, i as int),
            decreases snapshot.len() - i,
        {
            if is_steam_process(&snapshot[i].cmdline) {
                current.insert(snapshot[i].pid);
            }
            i += 1;
        }
        proof {
            lemma_matching_pids(snapshot@, snapshot@.len() as int);
        }
        let was_running = !self.current_steam_pids.is_empty();
        let is_running = !current.is_empty();
        self.current_steam_pids = current;
        if !was_running && is_running {
            Some(SteamEvent::Starting)
        } else if was_running && !is_running {
            Some(SteamEvent::Shutdown)
        } else {
            None
        }
    }

    /// Takes one journal marker. A suspend sets the guard and gives
    /// `Suspending`, whether the client runs or not. A resume gives
    /// `Resuming` only under a set guard and clears it; without the guard
    /// it is dropped.
    pub fn handle_system_event(&mut self, marker: SystemEvent) -> (event: Option<SteamEvent>)
        ensures
            (final(self).suspend_pending(), event) == journal_step(
                old(self).suspend_pending(),
                marker,
            ),
            final(self).pids() == old(self).pids(),
            final(self).settings() == old(self).settings(),
    {
        match marker {
            SystemEvent::Suspend => {
                self.was_suspended = true;
                Some(SteamEvent::Suspending)
            },
            SystemEvent::Resume => {
                if self.was_suspended {
                    self.was_suspended = false;
                    Some(SteamEvent::Resuming)
                } else {
                    None
                }
            },
        }
    }
}

/// Whether the client runs just before tick `k` of a run of snapshots.
pub open spec fn running_before(initially: bool, ticks: Seq<Seq<ProcessInfo>>, k: int) -> bool {
    if k <= 0 {
        initially
    } else {
        shows_steam(ticks[k - 1])
    }
}

/// The event of tick `k` of a run of snapshots.
pub open spec fn tick_event(initially: bool, ticks: Seq<Seq<ProcessInfo>>, k: int) -> Option<
    SteamEvent,
> {
    presence_event(running_before(initially, ticks, k), shows_steam(ticks[k]))
}

/// How often `event` is given by the first `k` ticks.
pub open spec fn tick_count(
    initially: bool,
    ticks: Seq<Seq<ProcessInfo>>,
    event: SteamEvent,
    k: int,
) -> int
    decreases k,
{
    if k <= 0 {
        0
    } else {
        tick_count(initially, ticks, event, k - 1) + if tick_event(initially, ticks, k - 1)
            == Some(event) {
            1int
        } else {
            0int
        }
    }
}

/// How many of the first `k` ticks are an edge from absent to present
/// (`rising`) or from present to absent.
pub open spec fn edge_count(
    initially: bool,
    ticks: Seq<Seq<ProcessInfo>>,
    rising: bool,
    k: int,
) -> int
    decreases k,
{
    if k <= 0 {
        0
    } else {
        edge_count(initially, ticks, rising, k - 1) + if running_before(initially, ticks, k - 1)
            != rising && shows_steam(ticks[k - 1]) == rising {
            1int
        } else {
            0int
        }
    }
}

/// Over any run of snapshots, each edge from absent to present gives one
/// `Starting` and each edge from present to absent one `Shutdown`; a tick
/// without an edge gives nothing, and a tick never gives `Suspending` or
/// `Resuming`. Hence starts and shutdowns alternate: the starts outnumber
/// the shutdowns by one where the client has come up, and by none
/// otherwise.
pub proof fn lemma_one_event_per_edge(initially: bool, ticks: Seq<Seq<ProcessInfo>>, k: int)
    requires
        0 <= k <= ticks.len(),
    ensures
        tick_count(initially, ticks, SteamEvent::Starting, k) == edge_count(
            initially,
            ticks,
            true,
            k,
        ),
        tick_count(initially, ticks, SteamEvent::Shutdown, k) == edge_count(
            initially,
            ticks,
            false,
            k,
        ),
        tick_count(initially, ticks, SteamEvent::Suspending, k) == 0,
        tick_count(initially, ticks, SteamEvent::Resuming, k) == 0,
        forall|i: int|
            0 <= i < k && running_before(initially, ticks, i) == shows_steam(ticks[i])
                ==> #[trigger] tick_event(initially, ticks, i) is None,
        tick_count(initially, ticks, SteamEvent::Starting, k) - tick_count(
            initially,
            ticks,
            SteamEvent::Shutdown,
            k,
        ) == (if running_before(initially, ticks, k) {
            1int
        } else {
            0int
        }) - (if initially {
            1int
        } else {
            0int
        }),
    decreases k,
{
    if k > 0 {
        lemma_one_event_per_edge(initially, ticks, k - 1);
    }
}

/// The suspend guard just before marker `k` of a run of journal markers.
pub open spec fn pending_before(initially: bool, markers: Seq<SystemEvent>, k: int) -> bool
    decreases k,
{
    if k <= 0 {
        initially
    } else {
        journal_step(pending_before(initially, markers, k - 1), markers[k - 1]).0
    }
}

/// The event of marker `k` of a run of journal markers.
pub open spec fn marker_event(initially: bool, markers: Seq<SystemEvent>, k: int) -> Option<
    SteamEvent,
> {
    journal_step(pending_before(initially, markers, k), markers[k]).1
}

/// Over any run of journal markers, a marker gives `Resuming` exactly when
/// it is a resume and the marker before it was a suspend (for the first
/// marker: the guard was set at the outset). So no resume comes without a
/// suspend that no resume has used up, and the second of two resumes in a
/// row gives nothing.
pub proof fn lemma_resume_needs_suspend(initially: bool, markers: Seq<SystemEvent>, k: int)
    requires
        0 <= k < markers.len(),
    ensures
        k > 0 ==> pending_before(initially, markers, k) == (markers[k - 1] == SystemEvent::Suspend),
        marker_event(initially, markers, k) == Some(SteamEvent::Resuming) <==> markers[k]
            == SystemEvent::Resume && (if k == 0 {
            initially
        } else {
            markers[k - 1] == SystemEvent::Suspend
        }),
        k > 0 && markers[k] == SystemEvent::Resume && markers[k - 1] == SystemEvent::Resume
            ==> marker_event(initially, markers, k) is None,
        markers[k] == SystemEvent::Suspend ==> marker_event(initially, markers, k) == Some(
            SteamEvent::Suspending,
        ),
{
}

} // verus!
