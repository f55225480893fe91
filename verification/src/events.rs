//! The event pump: classifying the managed child's event stream.
//!
//! The child's handle comes with an ordered stream of events: output chunks
//! from its two standard streams, a spawn-error report, and finally a
//! termination notice. The pump consumes that stream in order, turning each
//! event into one structured log line, and ends when it sees the
//! termination notice. Awaiting the stream is the application shell's work;
//! the classification, the emitted order, and the stopping rule are
//! verified here.

use vstd::prelude::*;

verus! {

/// Which output stream of the child a chunk of bytes came from.
#[derive(PartialEq, Eq, Structural, Debug, Clone, Copy)]
pub enum StreamKind {
    Stdout,
    Stderr,
}

/// One event of the child's ordered event stream.
pub enum ProcessEvent {
    /// A chunk the child wrote to one of its output streams.
    Output(StreamKind, Vec<u8>),
    /// The spawn or the stream failed; the reason text.
    SpawnError(Vec<u8>),
    /// The child exited, with its status code where the OS reports one.
    /// This is always the last event of a stream.
    Terminated(Option<i32>),
}

/// Severity of an emitted log line.
#[derive(PartialEq, Eq, Structural, Debug, Clone, Copy)]
pub enum Severity {
    Info,
    Error,
}

/// One structured log line the pump emits.
pub enum LogLine {
    /// A chunk from the child's standard output.
    ApiOut(Vec<u8>),
    /// A chunk from the child's standard error.
    ApiErr(Vec<u8>),
    /// A spawn-failure reason.
    SpawnErr(Vec<u8>),
    /// The child exited with this status.
    Exited(Option<i32>),
}

/// The classification table: which log line one event becomes.
pub open spec fn spec_log_of(ev: ProcessEvent) -> LogLine {
    match ev {
        ProcessEvent::Output(StreamKind::Stdout, b) => LogLine::ApiOut(b),
        ProcessEvent::Output(StreamKind::Stderr, b) => LogLine::ApiErr(b),
        ProcessEvent::SpawnError(m) => LogLine::SpawnErr(m),
        ProcessEvent::Terminated(c) => LogLine::Exited(c),
    }
}

/// Severity of a log line: output and exit notices are informational,
/// stderr chunks and spawn errors are errors.
pub open spec fn spec_severity(l: LogLine) -> Severity {
    match l {
        LogLine::ApiOut(_) => Severity::Info,
        LogLine::ApiErr(_) => Severity::Error,
        LogLine::SpawnErr(_) => Severity::Error,
        LogLine::Exited(_) => Severity::Info,
    }
}

/// A termination notice ends the pump.
pub open spec fn spec_stops(ev: ProcessEvent) -> bool {
    ev is Terminated
}

impl LogLine {
    /// Severity of this log line, for the application's log sink.
    pub fn severity(&self) -> (s: Severity)
        ensures
            s == spec_severity(*self),
    {
        match self {
            LogLine::ApiOut(_) => Severity::Info,
            LogLine::ApiErr(_) => Severity::Error,
            LogLine::SpawnErr(_) => Severity::Error,
            LogLine::Exited(_) => Severity::Info,
        }
    }
}

/// Classifies one event: the log line to emit, and whether the pump is done.
pub fn classify(ev: ProcessEvent) -> (r: (LogLine, bool))
    ensures
        r.0 == spec_log_of(ev),
        r.1 == spec_stops(ev),
{
    match ev {
        ProcessEvent::Output(StreamKind::Stdout, b) => (LogLine::ApiOut(b), false),
        ProcessEvent::Output(StreamKind::Stderr, b) => (LogLine::ApiErr(b), false),
        ProcessEvent::SpawnError(m) => (LogLine::SpawnErr(m), false),
        ProcessEvent::Terminated(c) => (LogLine::Exited(c), true),
    }
}

/// The log lines a whole event stream produces: one per event, in stream
/// order, up to and including the first termination notice.
pub open spec fn spec_pump(evs: Seq<ProcessEvent>) -> Seq<LogLine>
    decreases evs.len(),
{
    if evs.len() == 0 {
        Seq::<LogLine>::empty()
    } else if spec_stops(evs[0]) {
        seq![spec_log_of(evs[0])]
    } else {
        seq![spec_log_of(evs[0])] + spec_pump(evs.drop_first())
    }
}

/// Order preservation: the pump emits exactly one log line per consumed
/// event, in the order the process produced them, and the first termination
/// notice is the last event consumed.
pub proof fn lemma_pump_order(evs: Seq<ProcessEvent>)
    ensures
        spec_pump(evs).len() <= evs.len(),
        forall|i: int| 0 <= i < spec_pump(evs).len() ==> #[trigger] spec_pump(evs)[i]
            == spec_log_of(evs[i]),
        forall|i: int| 0 <= i < spec_pump(evs).len() - 1 ==> !spec_stops(evs[i]),
        spec_pump(evs).len() < evs.len() ==> spec_stops(evs[spec_pump(evs).len() - 1]),
        (forall|i: int| 0 <= i < evs.len() ==> !spec_stops(#[trigger] evs[i])) ==> spec_pump(
            evs,
        ).len() == evs.len(),
    decreases evs.len(),
{
    if evs.len() > 0 && !spec_stops(evs[0]) {
        lemma_pump_order(evs.drop_first());
        assert forall|i: int| 0 <= i < spec_pump(evs).len() - 1 implies !spec_stops(evs[i]) by {
            if i > 0 {
                assert(evs.drop_first()[i - 1] == evs[i]);
            }
        }
    }
}

/// Consumes an event stream, already gathered in order, and emits the log
/// lines the classification table prescribes, stopping at (and including)
/// the first termination notice.
pub fn pump(events: Vec<ProcessEvent>) -> (logs: Vec<LogLine>)
    ensures
        logs@ == spec_pump(events@),
{
    let ghost orig = events@;
    let mut evs = events;
    let mut logs: Vec<LogLine> = Vec::new();
    loop
        invariant_except_break
            logs@ + spec_pump(evs@) == spec_pump(orig),
        ensures
            logs@ == spec_pump(orig),
        decreases evs@.len(),
    {
        if evs.len() == 0 {
            assert(logs@ =~= logs@ + spec_pump(evs@));
            break;
        }
        let ghost before = evs@;
        let ev = evs.remove(0);
        assert(evs@ =~= before.drop_first());
        let (line, stop) = classify(ev);
        logs.push(line);
        if stop {
            assert(logs@ =~= logs@.drop_last() + spec_pump(before));
            break;
        }
        assert(logs@ + spec_pump(evs@) =~= spec_pump(orig));
    }
    logs
}

} // verus!
