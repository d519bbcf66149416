//! The Codex app's processes: reading `pgrep`'s answer, and quitting and
//! relaunching the app as a sequence of decisions between outside work.
use crate::paths::{app_root_of, normalize_macos_app_root};
use crate::text::{
    chars_of, concat2, copy_str, nat_text, parse_u32, parse_u32_chars, split_chars, split_on,
    string_of, trim, trim_bounds, u64_text,
};
use vstd::prelude::*;

verus! {

// ---------------------------------------------------------------------
// Process ids
// ---------------------------------------------------------------------

/// Whether `pid` is one of the process ids that `pgrep` printed in `out`: some
/// line, trimmed, reads as a `u32` that is neither 0 nor `current`.
pub open spec fn listed_pid(out: Seq<char>, current: u32, pid: u32) -> bool {
    &&& pid != 0
    &&& pid != current
    &&& exists|i: int| 0 <= i < split_on(out, '\n').len() && parse_u32(trim(#[trigger] split_on(out, '\n')[i])) == Some(pid)
}

pub open spec fn strictly_increasing(s: Seq<u32>) -> bool {
    forall|i: int, j: int| 0 <= i < j < s.len() ==> s[i] < s[j]
}

/// The Codex process ids in `pgrep`'s output `out` (its exit status `success`),
/// leaving out this process (`current`) and 0: each once, in increasing order;
/// none where `pgrep` failed and printed nothing.
pub fn parse_pids(out: &str, success: bool, current: u32) -> (pids: Vec<u32>)
    ensures
        strictly_increasing(pids@),
        !success && out@.len() == 0 ==> pids@.len() == 0,
        !(!success && out@.len() == 0) ==> forall|p: u32| pids@.contains(p) <==> listed_pid(out@, current, p),
{
    let v = chars_of(out);
    if !success && v.len() == 0 {
        return Vec::new();
    }
    let lines = split_chars(v.as_slice(), '\n');
    let ghost sp = split_on(out@, '\n');
    let mut pids: Vec<u32> = Vec::new();
    let mut i: usize = 0;
    while i < lines.len()
        invariant
            i <= lines@.len(),
            lines@.len() == sp.len(),
            sp == split_on(out@, '\n'),
            forall|k: int| 0 <= k < lines@.len() ==> #[trigger] lines@[k]@ == sp[k],
            strictly_increasing(pids@),
            forall|p: u32|
                pids@.contains(p) <==> (p != 0 && p != current && exists|k: int|
                    0 <= k < i && parse_u32(trim(#[trigger] sp[k])) == Some(p)),
        decreases lines@.len() - i,
    {
        let line = lines[i].as_slice();
        let (a, b) = trim_bounds(line);
        let mut t: Vec<char> = Vec::new();
        let mut k: usize = a;
        while k < b
            invariant
                a <= k <= b <= line@.len(),
                t@ == line@.subrange(a as int, k as int),
            decreases b - k,
        {
            t.push(line[k]);
            assert(line@.subrange(a as int, k + 1) =~= line@.subrange(a as int, k as int).push(
                line@[k as int],
            ));
            k = k + 1;
        }
        let parsed = parse_u32_chars(t.as_slice());
        assert(t@ == trim(sp[i as int]));
        let ghost before = pids@;
        match parsed {
            Some(p) => {
                if p != 0 && p != current {
                    insert_sorted(&mut pids, p);
                }
            },
            None => {},
        }
        assert forall|p: u32|
            pids@.contains(p) <==> (p != 0 && p != current && exists|k: int|
                0 <= k < i + 1 && parse_u32(trim(#[trigger] sp[k])) == Some(p)) by {
            if p != 0 && p != current && parse_u32(trim(sp[i as int])) == Some(p) {
                assert(pids@.contains(p));
            }
            if exists|k: int| 0 <= k < i + 1 && parse_u32(trim(#[trigger] sp[k])) == Some(p) {
                let k = choose|k: int| 0 <= k < i + 1 && parse_u32(trim(#[trigger] sp[k])) == Some(p);
                if k < i {
                    assert(exists|k2: int| 0 <= k2 < i && parse_u32(trim(#[trigger] sp[k2])) == Some(p));
                }
            }
        }
        i = i + 1;
    }
    pids
}

/// Put `p` into a strictly increasing `v`, unless it is there already.
fn insert_sorted(v: &mut Vec<u32>, p: u32)
    requires
        strictly_increasing(old(v)@),
    ensures
        strictly_increasing(final(v)@),
        forall|q: u32| final(v)@.contains(q) <==> (old(v)@.contains(q) || q == p),
{
    let mut i: usize = 0;
    while i < v.len() && v[i] < p
        invariant
            i <= v@.len(),
            v@ == old(v)@,
            strictly_increasing(v@),
            forall|k: int| 0 <= k < i ==> v@[k] < p,
        decreases v@.len() - i,
    {
        i = i + 1;
    }
    if i < v.len() && v[i] == p {
        assert(v@[i as int] == p);
        return;
    }
    let ghost before = v@;
    v.insert(i, p);
    assert(v@ =~= before.take(i as int) + seq![p] + before.skip(i as int));
    assert forall|a: int, b: int| 0 <= a < b < v@.len() implies v@[a] < v@[b] by {
        if b < i {
        } else if a < i && b == i {
        } else if a < i {
            assert(v@[b] == before[b - 1]);
        } else if a == i {
            assert(v@[b] == before[b - 1]);
            assert(before[i as int] > p);
            if b - 1 > i {
                assert(before[i as int] < before[b - 1]);
            }
        } else {
            assert(v@[a] == before[a - 1] && v@[b] == before[b - 1]);
        }
    }
    assert forall|q: u32| v@.contains(q) <==> (before.contains(q) || q == p) by {
        if v@.contains(q) {
            let k = choose|k: int| 0 <= k < v@.len() && v@[k] == q;
            if k < i {
                assert(before[k] == q);
            } else if k > i {
                assert(before[k - 1] == q);
            }
        }
        if before.contains(q) {
            let k = choose|k: int| 0 <= k < before.len() && before[k] == q;
            if k < i {
                assert(v@[k] == q);
            } else {
                assert(v@[k + 1] == q);
            }
        }
        if q == p {
            assert(v@[i as int] == p);
        }
    }
}

// ---------------------------------------------------------------------
// Quitting and relaunching Codex
// ---------------------------------------------------------------------

/// How long a Codex process is given to exit, in milliseconds.
pub const CLOSE_TIMEOUT_MS: u64 = 20000;

/// How long to wait between checks on a closing process, in milliseconds.
pub const POLL_INTERVAL_MS: u64 = 350;

/// The app a relaunch opens: the bundle root of the configured path, or
/// `/Applications/Codex.app` where the path holds no `.app`.
pub open spec fn launch_target(configured: Seq<char>) -> Seq<char> {
    match app_root_of(configured) {
        Some(r) => r,
        None => "/Applications/Codex.app"@,
    }
}

/// How running a command ended.
#[derive(Debug, Clone)]
pub enum CommandOutcome {
    /// It ran and succeeded.
    Succeeded,
    /// It could not be started; the system's message.
    NotStarted(String),
    /// It ran and failed; what it wrote to standard error.
    Failed(String),
}

/// Where a restart stands.
#[derive(Debug, Clone)]
pub enum RestartStage {
    Listing,
    AwaitingPids,
    Checking,
    Terminating,
    Timing,
    Polling,
    Sleeping,
    CheckingApp,
    Opening,
    Finished,
}

/// The outside work a restart asks for next.
#[derive(Debug)]
pub enum RestartAction {
    /// List the Codex processes (`pgrep`).
    ListPids,
    /// Say whether process `pid` is running (`kill -0`).
    IsRunning { pid: u32 },
    /// Ask process `pid` to quit (`kill -15`).
    Terminate { pid: u32 },
    /// Say how long ago the last `Terminate` succeeded, in milliseconds.
    Elapsed,
    /// Wait `millis` milliseconds.
    Sleep { millis: u64 },
    /// Say whether the app bundle `path` exists.
    AppExists { path: String },
    /// Launch a new instance of the app at `path` (`open -n -a`).
    Open { path: String },
    /// The restart is over: `true` once Codex was relaunched.
    Finish { result: Result<bool, String> },
}

/// What the last piece of work gave.
#[derive(Debug)]
pub enum RestartEvent {
    Start,
    Pids(Result<Vec<u32>, String>),
    Running(bool),
    Ran(CommandOutcome),
    ElapsedMillis(u64),
    Slept,
    Exists(bool),
}

/// A restart of the Codex app in progress.
#[derive(Debug, Clone)]
pub struct CodexRestart {
    pub stage: RestartStage,
    pub app_root: String,
    pub pids: Vec<u32>,
    pub next: usize,
}

/// The decimal text of `n`.
fn u32_string(n: u32) -> (s: String)
    ensures
        s@ == nat_text(n as nat),
{
    let v = u64_text(n as u64);
    string_of(v.as_slice())
}

/// `s` trimmed, as a string.
fn trimmed(s: &str) -> (r: String)
    ensures
        r@ == trim(s@),
{
    crate::text::trim_str(s)
}

/// Quit every running Codex process and relaunch the app configured at
/// `configured_app_path`; the restart asks first for the process list.
pub fn restart_codex(configured_app_path: &str) -> (r: CodexRestart)
    ensures
        r.stage is Listing,
        r.app_root@ == launch_target(configured_app_path@),
        r.pids@.len() == 0,
        r.next == 0,
        restart_wf(r),
{
    let app_root = match normalize_macos_app_root(configured_app_path) {
        Some(p) => p,
        None => copy_str("/Applications/Codex.app"),
    };
    CodexRestart { stage: RestartStage::Listing, app_root, pids: Vec::new(), next: 0 }
}

pub open spec fn restart_fits(stage: RestartStage, e: RestartEvent) -> bool {
    match stage {
        RestartStage::Listing => e is Start,
        RestartStage::AwaitingPids => e is Pids,
        RestartStage::Checking => e is Running,
        RestartStage::Terminating => e is Ran,
        RestartStage::Timing => e is ElapsedMillis,
        RestartStage::Polling => e is Running,
        RestartStage::Sleeping => e is Slept,
        RestartStage::CheckingApp => e is Exists,
        RestartStage::Opening => e is Ran,
        RestartStage::Finished => false,
    }
}

pub open spec fn restart_wf(r: CodexRestart) -> bool {
    &&& r.next <= r.pids@.len()
    &&& (r.stage is Checking || r.stage is Terminating || r.stage is Timing || r.stage is Polling
        || r.stage is Sleeping) ==> r.next < r.pids@.len()
}

impl CodexRestart {
    /// The action that closes the process at `next`, or checks the app once
    /// every process is closed.
    fn close_next(&mut self) -> (a: RestartAction)
        requires
            old(self).next <= old(self).pids@.len(),
        ensures
            final(self).pids == old(self).pids,
            final(self).next == old(self).next,
            final(self).app_root == old(self).app_root,
            restart_wf(*final(self)),
            if old(self).next < old(self).pids@.len() {
                final(self).stage is Checking && a == (RestartAction::IsRunning {
                    pid: old(self).pids@[old(self).next as int],
                })
            } else {
                final(self).stage is CheckingApp && (a matches RestartAction::AppExists { path }
                    && path@ == old(self).app_root@)
            },
    {
        if self.next < self.pids.len() {
            self.stage = RestartStage::Checking;
            RestartAction::IsRunning { pid: self.pids[self.next] }
        } else {
            self.stage = RestartStage::CheckingApp;
            RestartAction::AppExists { path: self.app_root.clone() }
        }
    }

    /// Whether the restart is over.
    pub fn is_finished(&self) -> (r: bool)
        ensures
            r == (self.stage is Finished),
    {
        match self.stage {
            RestartStage::Finished => true,
            _ => false,
        }
    }

    /// Take `event`, the answer to the last piece of work, and say what to do
    /// next. Each process in the list, in order, is left alone where it is no
    /// longer running; otherwise it is asked to quit and checked every
    /// `POLL_INTERVAL_MS` until it has gone, or fails the restart once
    /// `CLOSE_TIMEOUT_MS` have passed since it was asked. Then the app is
    /// opened where it exists.
    pub fn step(&mut self, event: RestartEvent) -> (a: RestartAction)
        requires
            restart_wf(*old(self)),
            restart_fits(old(self).stage, event),
        ensures
            restart_wf(*final(self)),
            final(self).app_root == old(self).app_root,
            match (old(self).stage, event) {
                (RestartStage::Listing, _) => final(self).stage is AwaitingPids && a is ListPids,
                (RestartStage::AwaitingPids, RestartEvent::Pids(Err(e))) => final(self).stage is Finished
                    && a == (RestartAction::Finish { result: Err(e) }),
                (RestartStage::AwaitingPids, RestartEvent::Pids(Ok(p))) => final(self).pids == p
                    && final(self).next == 0 && if p@.len() > 0 {
                    final(self).stage is Checking && a == (RestartAction::IsRunning { pid: p@[0] })
                } else {
                    final(self).stage is CheckingApp && (a matches RestartAction::AppExists { path }
                        && path@ == old(self).app_root@)
                },
                (RestartStage::Checking, RestartEvent::Running(false)) => final(self).next
                    == old(self).next + 1 && final(self).pids == old(self).pids && if final(self).next
                    < final(self).pids@.len() {
                    final(self).stage is Checking && a == (RestartAction::IsRunning {
                        pid: final(self).pids@[final(self).next as int],
                    })
                } else {
                    final(self).stage is CheckingApp && (a matches RestartAction::AppExists { path }
                        && path@ == old(self).app_root@)
                },
                (RestartStage::Checking, RestartEvent::Running(true)) => final(self).stage is Terminating
                    && a == (RestartAction::Terminate { pid: old(self).pids@[old(self).next as int] }),
                (RestartStage::Terminating, RestartEvent::Ran(CommandOutcome::Succeeded)) =>
                    final(self).stage is Timing && a is Elapsed,
                (RestartStage::Terminating, RestartEvent::Ran(CommandOutcome::NotStarted(e))) => a
                    matches RestartAction::Finish { result: Err(m) } && m@ == "run kill -15 "@
                    + nat_text(old(self).pids@[old(self).next as int] as nat) + ": "@ + e@,
                (RestartStage::Terminating, RestartEvent::Ran(CommandOutcome::Failed(e))) => a
                    matches RestartAction::Finish { result: Err(m) } && m@ == "kill -15 "@ + nat_text(
                    old(self).pids@[old(self).next as int] as nat,
                ) + " failed: "@ + trim(e@),
                (RestartStage::Timing, RestartEvent::ElapsedMillis(ms)) => if ms < CLOSE_TIMEOUT_MS {
                    final(self).stage is Polling && a == (RestartAction::IsRunning {
                        pid: old(self).pids@[old(self).next as int],
                    })
                } else {
                    a matches RestartAction::Finish { result: Err(m) } && m@ == "Codex process "@
                        + nat_text(old(self).pids@[old(self).next as int] as nat)
                        + " did not exit within 20s"@
                },
                (RestartStage::Polling, RestartEvent::Running(true)) => final(self).stage is Sleeping
                    && a == (RestartAction::Sleep { millis: POLL_INTERVAL_MS }),
                (RestartStage::Polling, RestartEvent::Running(false)) => final(self).next
                    == old(self).next + 1 && final(self).pids == old(self).pids && if final(self).next
                    < final(self).pids@.len() {
                    final(self).stage is Checking && a == (RestartAction::IsRunning {
                        pid: final(self).pids@[final(self).next as int],
                    })
                } else {
                    final(self).stage is CheckingApp && (a matches RestartAction::AppExists { path }
                        && path@ == old(self).app_root@)
                },
                (RestartStage::Sleeping, _) => final(self).stage is Timing && a is Elapsed,
                (RestartStage::CheckingApp, RestartEvent::Exists(true)) => final(self).stage is Opening
                    && (a matches RestartAction::Open { path } && path@ == old(self).app_root@),
                (RestartStage::CheckingApp, RestartEvent::Exists(false)) => a matches RestartAction::Finish {
                    result: Err(m),
                } && m@ == "Codex.app not found at "@ + old(self).app_root@,
                (RestartStage::Opening, RestartEvent::Ran(CommandOutcome::Succeeded)) => a == (
                RestartAction::Finish { result: Ok(true) }),
                (RestartStage::Opening, RestartEvent::Ran(CommandOutcome::NotStarted(e))) => a
                    matches RestartAction::Finish { result: Err(m) } && m@ == "run open -n -a "@
                    + old(self).app_root@ + ": "@ + e@,
                (RestartStage::Opening, RestartEvent::Ran(CommandOutcome::Failed(e))) => a matches RestartAction::Finish {
                    result: Err(m),
                } && m@ == "open Codex failed: "@ + trim(e@),
                _ => true,
            },
            a is Finish ==> final(self).stage is Finished,
            !(event matches RestartEvent::Pids(Ok(_))) ==> final(self).pids == old(self).pids,
            !(event matches RestartEvent::Pids(Ok(_))) && event != RestartEvent::Running(false)
                ==> final(self).next == old(self).next,
    {
        match event {
            RestartEvent::Start => {
                self.stage = RestartStage::AwaitingPids;
                RestartAction::ListPids
            },
            RestartEvent::Pids(Err(e)) => {
                self.stage = RestartStage::Finished;
                RestartAction::Finish { result: Err(e) }
            },
            RestartEvent::Pids(Ok(p)) => {
                self.pids = p;
                self.next = 0;
                self.close_next()
            },
            RestartEvent::Running(running) => {
                match self.stage {
                    RestartStage::Checking => {
                        if running {
                            self.stage = RestartStage::Terminating;
                            RestartAction::Terminate { pid: self.pids[self.next] }
                        } else {
                            let _len = self.pids.len();
                            self.next = self.next + 1;
                            self.close_next()
                        }
                    },
                    _ => {
                        if running {
                            self.stage = RestartStage::Sleeping;
                            RestartAction::Sleep { millis: POLL_INTERVAL_MS }
                        } else {
                            let _len = self.pids.len();
                            self.next = self.next + 1;
                            self.close_next()
                        }
                    },
                }
            },
            RestartEvent::Ran(outcome) => {
                match self.stage {
                    RestartStage::Terminating => {
                        let pid = u32_string(self.pids[self.next]);
                        match outcome {
                            CommandOutcome::Succeeded => {
                                self.stage = RestartStage::Timing;
                                RestartAction::Elapsed
                            },
                            CommandOutcome::NotStarted(e) => {
                                self.stage = RestartStage::Finished;
                                let m = concat2("run kill -15 ", pid.as_str());
                                let m = concat2(m.as_str(), ": ");
                                let m = concat2(m.as_str(), e.as_str());
                                RestartAction::Finish { result: Err(m) }
                            },
                            CommandOutcome::Failed(e) => {
                                self.stage = RestartStage::Finished;
                                let m = concat2("kill -15 ", pid.as_str());
                                let m = concat2(m.as_str(), " failed: ");
                                let t = trimmed(e.as_str());
                                let m = concat2(m.as_str(), t.as_str());
                                RestartAction::Finish { result: Err(m) }
                            },
                        }
                    },
                    _ => {
                        self.stage = RestartStage::Finished;
                        match outcome {
                            CommandOutcome::Succeeded => RestartAction::Finish { result: Ok(true) },
                            CommandOutcome::NotStarted(e) => {
                                let m = concat2("run open -n -a ", self.app_root.as_str());
                                let m = concat2(m.as_str(), ": ");
                                let m = concat2(m.as_str(), e.as_str());
                                RestartAction::Finish { result: Err(m) }
                            },
                            CommandOutcome::Failed(e) => {
                                let t = trimmed(e.as_str());
                                let m = concat2("open Codex failed: ", t.as_str());
                                RestartAction::Finish { result: Err(m) }
                            },
                        }
                    },
                }
            },
            RestartEvent::ElapsedMillis(ms) => {
                if ms < CLOSE_TIMEOUT_MS {
                    self.stage = RestartStage::Polling;
                    RestartAction::IsRunning { pid: self.pids[self.next] }
                } else {
                    self.stage = RestartStage::Finished;
                    let pid = u32_string(self.pids[self.next]);
                    let m = concat2("Codex process ", pid.as_str());
                    let m = concat2(m.as_str(), " did not exit within 20s");
                    RestartAction::Finish { result: Err(m) }
                }
            },
            RestartEvent::Slept => {
                self.stage = RestartStage::Timing;
                RestartAction::Elapsed
            },
            RestartEvent::Exists(exists) => {
                if exists {
                    self.stage = RestartStage::Opening;
                    RestartAction::Open { path: self.app_root.clone() }
                } else {
                    self.stage = RestartStage::Finished;
                    let m = concat2("Codex.app not found at ", self.app_root.as_str());
                    RestartAction::Finish { result: Err(m) }
                }
            },
        }
    }
}

} // verus!
