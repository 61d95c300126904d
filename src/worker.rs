//! The decisions of one worker slot, as a state machine: the caller performs
//! each action (launch a sandbox, pop the queue, talk to the child, write the
//! artifact) and hands back what came of it as the next event.
use vstd::prelude::*;
use crate::job::{Job, job_text, artifact_dir_of, artifact_path_of};
use crate::text::string_of_chars;
use crate::protocol::{chars_of, decode, decoded, is_white, marker_of, trimmed};

verus! {

/// Where a worker stands.
pub enum Phase {
    /// A sandbox is being started.
    Launching,
    /// Ready for the next job.
    Idle,
    /// The job was sent; its output is being read.
    Awaiting { job: Job, output: Vec<char> },
    /// The job's output is being written.
    Persisting { job: Job },
    /// The sandbox's liveness is being checked after a job.
    Checking,
    /// The queue was found empty; the worker is done.
    Terminated,
}

/// What came of the last action.
pub enum Event {
    /// A sandbox was started.
    Launched,
    /// The queue was popped.
    Popped(Option<Job>),
    /// One line of the child's output, with its line end.
    Line(String),
    /// The child's output stream closed.
    Closed,
    /// The artifact was written.
    Persisted,
    /// Whether the sandbox is still running.
    Alive(bool),
}

/// What the caller does next.
pub enum Action {
    Launch,
    /// Drops the dead sandbox and starts a fresh one; `abandoned` is the job
    /// that was in progress, whose output is dropped.
    Relaunch { abandoned: Option<Job> },
    Pop,
    /// Writes `line` to the child and marks `job` as running.
    Send { job: Job, line: String },
    ReadLine,
    /// Creates `dir`, writes `contents` to `path`, and marks `job` as finished.
    Persist { job: Job, dir: String, path: String, contents: String },
    CheckAlive,
    /// Tears the sandbox down; the worker is finished.
    Shutdown,
    /// The event does not belong to the current phase and is ignored.
    Ignore,
}

pub ghost enum PhaseV {
    Launching,
    Idle,
    Awaiting { job: (Seq<char>, Seq<char>), output: Seq<char> },
    Persisting { job: (Seq<char>, Seq<char>) },
    Checking,
    Terminated,
}

pub ghost enum EventV {
    Launched,
    Popped(Option<(Seq<char>, Seq<char>)>),
    Line(Seq<char>),
    Closed,
    Persisted,
    Alive(bool),
}

pub ghost enum ActionV {
    Launch,
    Relaunch { abandoned: Option<(Seq<char>, Seq<char>)> },
    Pop,
    Send { job: (Seq<char>, Seq<char>), line: Seq<char> },
    ReadLine,
    Persist { job: (Seq<char>, Seq<char>), dir: Seq<char>, path: Seq<char>, contents: Seq<char> },
    CheckAlive,
    Shutdown,
    Ignore,
}

impl View for Phase {
    type V = PhaseV;

    open spec fn view(&self) -> PhaseV {
        match self {
            Phase::Launching => PhaseV::Launching,
            Phase::Idle => PhaseV::Idle,
            Phase::Awaiting { job, output } => PhaseV::Awaiting { job: job@, output: output@ },
            Phase::Persisting { job } => PhaseV::Persisting { job: job@ },
            Phase::Checking => PhaseV::Checking,
            Phase::Terminated => PhaseV::Terminated,
        }
    }
}

impl View for Event {
    type V = EventV;

    open spec fn view(&self) -> EventV {
        match self {
            Event::Launched => EventV::Launched,
            Event::Popped(None) => EventV::Popped(None),
            Event::Popped(Some(j)) => EventV::Popped(Some(j@)),
            Event::Line(l) => EventV::Line(l@),
            Event::Closed => EventV::Closed,
            Event::Persisted => EventV::Persisted,
            Event::Alive(b) => EventV::Alive(*b),
        }
    }
}

impl View for Action {
    type V = ActionV;

    open spec fn view(&self) -> ActionV {
        match self {
            Action::Launch => ActionV::Launch,
            Action::Relaunch { abandoned: None } => ActionV::Relaunch { abandoned: None },
            Action::Relaunch { abandoned: Some(j) } => ActionV::Relaunch { abandoned: Some(j@) },
            Action::Pop => ActionV::Pop,
            Action::Send { job, line } => ActionV::Send { job: job@, line: line@ },
            Action::ReadLine => ActionV::ReadLine,
            Action::Persist { job, dir, path, contents } => ActionV::Persist {
                job: job@,
                dir: dir@,
                path: path@,
                contents: contents@,
            },
            Action::CheckAlive => ActionV::CheckAlive,
            Action::Shutdown => ActionV::Shutdown,
            Action::Ignore => ActionV::Ignore,
        }
    }
}

/// One move of a worker whose runs end in `marker`: the next phase and the
/// action to perform.
pub open spec fn next(p: PhaseV, e: EventV, marker: Seq<char>) -> (PhaseV, ActionV) {
    match (p, e) {
        (PhaseV::Launching, EventV::Launched) => (PhaseV::Idle, ActionV::Pop),
        (PhaseV::Idle, EventV::Popped(None)) => (PhaseV::Terminated, ActionV::Shutdown),
        (PhaseV::Idle, EventV::Popped(Some(j))) => (
            PhaseV::Awaiting { job: j, output: Seq::empty() },
            ActionV::Send { job: j, line: job_text(j) + seq!['\n'] },
        ),
        (PhaseV::Awaiting { job, output }, EventV::Line(l)) => match decoded(output + l, marker) {
            Some(out) => (
                PhaseV::Persisting { job },
                ActionV::Persist {
                    job,
                    dir: artifact_dir_of(job),
                    path: artifact_path_of(job),
                    contents: out,
                },
            ),
            None => (PhaseV::Awaiting { job, output: output + l }, ActionV::ReadLine),
        },
        (PhaseV::Awaiting { job, output }, EventV::Closed) => (
            PhaseV::Launching,
            ActionV::Relaunch { abandoned: Some(job) },
        ),
        (PhaseV::Persisting { job }, EventV::Persisted) => (PhaseV::Checking, ActionV::CheckAlive),
        (PhaseV::Checking, EventV::Alive(true)) => (PhaseV::Idle, ActionV::Pop),
        (PhaseV::Checking, EventV::Alive(false)) => (
            PhaseV::Launching,
            ActionV::Relaunch { abandoned: None },
        ),
        (p, _) => (p, ActionV::Ignore),
    }
}

/// One worker slot.
pub struct Worker {
    marker: Vec<char>,
    phase: Phase,
}

impl Worker {
    /// The marker that ends each job's output.
    pub closed spec fn marker_spec(&self) -> Seq<char> {
        self.marker@
    }

    pub closed spec fn phase_spec(&self) -> PhaseV {
        self.phase@
    }

    /// A worker whose sandbox is yet to be launched; its runs end in `marker`.
    pub fn new(marker: &str) -> (r: Worker)
        ensures
            r.marker_spec() == marker@,
            r.phase_spec() == PhaseV::Launching,
    {
        Worker { marker: chars_of(marker), phase: Phase::Launching }
    }

    /// What the worker first asks for: a sandbox.
    pub fn start(&self) -> (r: Action)
        ensures
            r@ == ActionV::Launch,
    {
        Action::Launch
    }

    /// Whether the worker has finished.
    pub fn is_terminated(&self) -> (r: bool)
        ensures
            r == (self.phase_spec() == PhaseV::Terminated),
    {
        match self.phase {
            Phase::Terminated => true,
            _ => false,
        }
    }

    /// Takes in what came of the last action and says what to do next.
    pub fn step(&mut self, ev: Event) -> (r: Action)
        ensures
            final(self).marker_spec() == old(self).marker_spec(),
            (final(self).phase_spec(), r@) == next(
                old(self).phase_spec(),
                ev@,
                old(self).marker_spec(),
            ),
    {
        let mut phase = Phase::Terminated;
        core::mem::swap(&mut phase, &mut self.phase);
        let (p, a) = match (phase, ev) {
            (Phase::Launching, Event::Launched) => (Phase::Idle, Action::Pop),
            (Phase::Idle, Event::Popped(None)) => (Phase::Terminated, Action::Shutdown),
            (Phase::Idle, Event::Popped(Some(job))) => {
                let line = job.request_line();
                let copy = job.duplicate();
                (Phase::Awaiting { job, output: Vec::new() }, Action::Send { job: copy, line })
            },
            (Phase::Awaiting { job, mut output }, Event::Line(l)) => {
                let mut more = chars_of(l.as_str());
                output.append(&mut more);
                match decode(&output, &self.marker) {
                    Some(out) => {
                        let contents = string_of_chars(&out);
                        let dir = job.artifact_dir();
                        let path = job.artifact_path();
                        let copy = job.duplicate();
                        (Phase::Persisting { job }, Action::Persist { job: copy, dir, path, contents })
                    },
                    None => (Phase::Awaiting { job, output }, Action::ReadLine),
                }
            },
            (Phase::Awaiting { job, output }, Event::Closed) => (
                Phase::Launching,
                Action::Relaunch { abandoned: Some(job) },
            ),
            (Phase::Persisting { job }, Event::Persisted) => (Phase::Checking, Action::CheckAlive),
            (Phase::Checking, Event::Alive(alive)) => {
                if alive {
                    (Phase::Idle, Action::Pop)
                } else {
                    (Phase::Launching, Action::Relaunch { abandoned: None })
                }
            },
            (other, _) => (other, Action::Ignore),
        };
        self.phase = p;
        a
    }
}

/// A worker stops only on an empty queue: the one move into `Terminated` is
/// an idle worker told that the pop found nothing, and once there it stays.
pub proof fn lemma_terminates_only_on_empty_queue(p: PhaseV, e: EventV, marker: Seq<char>)
    ensures
        next(p, e, marker).0 == PhaseV::Terminated ==> p == PhaseV::Terminated || (p
            == PhaseV::Idle && e == EventV::Popped(None)),
        p == PhaseV::Terminated ==> next(p, e, marker) == (PhaseV::Terminated, ActionV::Ignore),
{
}

/// A child that echoes `content` and then a line holding the run's marker:
/// the worker writes exactly `content`, the marker line dropped, to the
/// job's artifact. `content` is one that the marker does not already end.
pub proof fn lemma_round_trip(
    job: (Seq<char>, Seq<char>),
    content: Seq<char>,
    token: Seq<char>,
)
    requires
        decoded(content, marker_of(token)) is None,
    ensures
        ({
            let marker = marker_of(token);
            let (p1, a1) = next(
                PhaseV::Awaiting { job, output: Seq::empty() },
                EventV::Line(content),
                marker,
            );
            let (p2, a2) = next(p1, EventV::Line(marker + seq!['\n']), marker);
            &&& a1 == ActionV::ReadLine
            &&& p2 == PhaseV::Persisting { job }
            &&& a2 == ActionV::Persist {
                job,
                dir: artifact_dir_of(job),
                path: artifact_path_of(job),
                contents: content,
            }
        }),
{
    let marker = marker_of(token);
    assert(Seq::<char>::empty() + content =~= content);
    let buf = content + marker + seq!['\n'];
    assert(content + (marker + seq!['\n']) =~= buf);
    let t = buf.drop_last();
    assert(is_white('\n'));
    assert(t =~= content + marker);
    assert(t.last() == '-');
    assert(trimmed(t) == t);
    assert(trimmed(buf) == trimmed(t));
    assert(t.subrange(t.len() - marker.len(), t.len() as int) =~= marker);
    assert(t.subrange(0, t.len() - marker.len()) =~= content);
}

/// A sandbox that dies does not end the worker: after a crash, found by the
/// liveness check after a job or by the output closing early, the worker
/// relaunches and, once launched, asks the queue for the next job.
pub proof fn lemma_crash_recovery(job: (Seq<char>, Seq<char>), output: Seq<char>, marker: Seq<char>)
    ensures
        next(PhaseV::Checking, EventV::Alive(false), marker) == (
            PhaseV::Launching,
            ActionV::Relaunch { abandoned: None },
        ),
        next(PhaseV::Awaiting { job, output }, EventV::Closed, marker) == (
            PhaseV::Launching,
            ActionV::Relaunch { abandoned: Some(job) },
        ),
        next(PhaseV::Launching, EventV::Launched, marker) == (PhaseV::Idle, ActionV::Pop),
{
}

} // verus!
