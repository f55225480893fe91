//! Launch and shutdown decisions, and the managed process's state machine.
//!
//! Spawning the child and killing it are operating-system calls made by the
//! application shell; what is decided here, and proved: the environment the
//! child must be started with, what a spawn outcome does to the registry
//! (a failure is fatal and stores nothing), and what one shutdown trigger
//! must do (take the handle at most once, kill what was taken, then reap
//! the port defensively).

use vstd::prelude::*;
use vstd::string::StringExecFns;

use crate::registry::{LifecycleRegistry, ManagedProcess};

verus! {

/// States of the one managed process.
#[derive(PartialEq, Eq, Structural, Debug, Clone, Copy)]
pub enum ProcState {
    /// No spawn requested yet.
    NotStarted,
    /// Spawn requested from the OS.
    Starting,
    /// Handle obtained and stored in the registry.
    Running,
    /// The process exited on its own; observed via its termination event.
    Terminated,
    /// The shutdown path issued a kill against the taken handle.
    Killed,
}

/// Lifecycle happenings that move the state machine.
#[derive(PartialEq, Eq, Structural, Debug, Clone, Copy)]
pub enum LifecycleEvent {
    SpawnRequested,
    HandleStored,
    TerminatedObserved,
    KillIssued,
}

/// The state machine: spawn leads to `Starting`, a stored handle to
/// `Running`, and a running process ends either by its own termination or
/// by a kill. Any other pairing changes nothing.
pub open spec fn spec_step(s: ProcState, e: LifecycleEvent) -> ProcState {
    match (s, e) {
        (ProcState::NotStarted, LifecycleEvent::SpawnRequested) => ProcState::Starting,
        (ProcState::Starting, LifecycleEvent::HandleStored) => ProcState::Running,
        (ProcState::Running, LifecycleEvent::TerminatedObserved) => ProcState::Terminated,
        (ProcState::Running, LifecycleEvent::KillIssued) => ProcState::Killed,
        _ => s,
    }
}

/// Advances the managed process's state by one lifecycle event.
pub fn step(s: ProcState, e: LifecycleEvent) -> (r: ProcState)
    ensures
        r == spec_step(s, e),
{
    match (s, e) {
        (ProcState::NotStarted, LifecycleEvent::SpawnRequested) => ProcState::Starting,
        (ProcState::Starting, LifecycleEvent::HandleStored) => ProcState::Running,
        (ProcState::Running, LifecycleEvent::TerminatedObserved) => ProcState::Terminated,
        (ProcState::Running, LifecycleEvent::KillIssued) => ProcState::Killed,
        (s, _) => s,
    }
}

/// `Terminated` and `Killed` absorb: once the process has ended, no
/// lifecycle event leaves the end state.
pub proof fn lemma_end_states_absorbing(s: ProcState, e: LifecycleEvent)
    ensures
        s is Terminated ==> spec_step(s, e) is Terminated,
        s is Killed ==> spec_step(s, e) is Killed,
{
}

/// Why the child could not be created. Fatal: aborts application startup.
pub struct SpawnFailure {
    pub reason: Vec<u8>,
}

/// Applies the launcher's outcome to the registry. A handle is stored for
/// the application's run; a failure stores nothing and is handed back to
/// abort startup.
pub fn on_spawn_result(reg: &mut LifecycleRegistry, outcome: Result<ManagedProcess, Vec<u8>>) -> (r:
    Result<(), SpawnFailure>)
    ensures
        (outcome matches Ok(h) ==> final(reg)@ == Some(h.pid) && r is Ok),
        (outcome matches Err(m) ==> final(reg)@ == old(reg)@ && (r matches Err(f) && f.reason@
            == m@)),
{
    match outcome {
        Ok(h) => {
            reg.store(h);
            Ok(())
        },
        Err(m) => Err(SpawnFailure { reason: m }),
    }
}

/// The actions one shutdown trigger owes, in order: issue a kill against
/// the taken handle, if one was stored, then reap the port defensively to
/// catch processes the registry never tracked.
pub struct ShutdownActions {
    pub kill_pid: Option<u32>,
    pub reap_port: u16,
}

/// Decides shutdown: atomically empties the registry slot — so a racing
/// second trigger kills nothing — and demands a reap of the port.
pub fn plan_shutdown(reg: &mut LifecycleRegistry, port: u16) -> (a: ShutdownActions)
    ensures
        a.kill_pid == old(reg)@,
        final(reg)@ is None,
        a.reap_port == port,
{
    let taken = reg.take();
    let kill_pid = match taken {
        Some(h) => Some(h.pid),
        None => None,
    };
    ShutdownActions { kill_pid, reap_port: port }
}

/// Decimal digit characters of `n`, most significant first.
pub open spec fn dec_chars(n: nat) -> Seq<char>
    decreases n,
{
    if n < 10 {
        seq![digit_char(n)]
    } else {
        dec_chars(n / 10).push(digit_char(n % 10))
    }
}

/// The character for one decimal digit.
pub open spec fn digit_char(d: nat) -> char {
    if d == 0 {
        '0'
    } else if d == 1 {
        '1'
    } else if d == 2 {
        '2'
    } else if d == 3 {
        '3'
    } else if d == 4 {
        '4'
    } else if d == 5 {
        '5'
    } else if d == 6 {
        '6'
    } else if d == 7 {
        '7'
    } else if d == 8 {
        '8'
    } else {
        '9'
    }
}

/// Appends the decimal digit characters of `n` to `out`.
fn push_dec_chars(n: u64, out: &mut String)
    ensures
        final(out)@ == old(out)@ + dec_chars(n as nat),
    decreases n,
{
    if n >= 10 {
        push_dec_chars(n / 10, out);
    }
    let ds: &str = match n % 10 {
        0 => "0",
        1 => "1",
        2 => "2",
        3 => "3",
        4 => "4",
        5 => "5",
        6 => "6",
        7 => "7",
        8 => "8",
        _ => "9",
    };
    proof {
        reveal_strlit("0");
        reveal_strlit("1");
        reveal_strlit("2");
        reveal_strlit("3");
        reveal_strlit("4");
        reveal_strlit("5");
        reveal_strlit("6");
        reveal_strlit("7");
        reveal_strlit("8");
        reveal_strlit("9");
    }
    assert(ds@ =~= seq![digit_char((n % 10) as nat)]);
    out.append(ds);
    assert(out@ =~= old(out)@ + dec_chars(n as nat));
}

/// Renders a port number in decimal, as the child's environment carries it.
pub fn port_value(port: u16) -> (s: String)
    ensures
        s@ == dec_chars(port as nat),
{
    let mut s = String::new();
    push_dec_chars(port as u64, &mut s);
    assert(s@ =~= dec_chars(port as nat));
    s
}

/// The environment the child is spawned with: the port it must bind, and
/// the deployment-mode flag.
pub fn sidecar_env(port: u16) -> (env: Vec<(String, String)>)
    ensures
        env@.len() == 2,
        env@[0].0@ == "PORT"@,
        env@[0].1@ == dec_chars(port as nat),
        env@[1].0@ == "NODE_ENV"@,
        env@[1].1@ == "production"@,
{
    let mut env: Vec<(String, String)> = Vec::new();
    env.push((String::from_str("PORT"), port_value(port)));
    env.push((String::from_str("NODE_ENV"), String::from_str("production")));
    env
}

} // verus!
