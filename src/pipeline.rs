use vstd::prelude::*;

use crate::clock::DateTime;
use crate::destination::{finished, is_open_of, prepared, Destination, FileOp, RollingFile};
use crate::fanout::{Branch, FanoutLayer};
use crate::format::Format;
use crate::rotation::{bucket_spec, file_path_spec};
use crate::settings::{LogSettings, Target, TargetKind};
use crate::sink::{lemma_drained_delivers_all, SinkQueue};

verus! {

/// The runtime parts of one sink: its queue, shared by the producers and the
/// worker, and its destination, owned by the worker. `startup` lists the
/// steps to take before any record arrives (opening the first file, so that
/// an unwritable directory shows at startup).
pub struct Sink {
    pub kind: TargetKind,
    pub queue: SinkQueue,
    pub destination: Destination,
    pub startup: Vec<FileOp>,
}

/// The capability to shut one sink down: releasing it closes the sink's queue
/// to new records; the worker then writes what is left and closes the
/// destination. A guard is consumed by its release, so it is released once.
#[derive(Debug)]
pub struct Guard {
    pub sink: usize,
}

impl Guard {
    /// Stops the queue of the guarded sink from accepting records; what it
    /// holds stays, for the worker to write. The queue must be this guard's.
    pub fn release(self, queue: &mut SinkQueue)
        requires
            old(queue).wf(),
            old(queue).sink_spec() == self.sink,
        ensures
            final(queue).wf(),
            final(queue).is_closed_spec(),
            final(queue).pending() == old(queue).pending(),
            final(queue).sink_spec() == old(queue).sink_spec(),
            final(queue).capacity_spec() == old(queue).capacity_spec(),
            final(queue).waits_spec() == old(queue).waits_spec(),
            final(queue).dropped_spec() == old(queue).dropped_spec(),
            final(queue).accepted() == old(queue).accepted(),
            final(queue).delivered() == old(queue).delivered(),
    {
        queue.close();
    }
}

/// The logging endpoint and its sinks, built from the configuration.
pub struct Pipeline {
    /// `None` when no target is configured.
    pub layer: Option<FanoutLayer>,
    pub sinks: Vec<Sink>,
    pub guards: Vec<Guard>,
}

/// What the worker of a sink does next.
#[derive(Debug)]
pub enum WorkerStep {
    /// Take the file steps, then write the line.
    Write { ops: Vec<FileOp>, line: String },
    /// Nothing pending: wait for a record or for the release.
    Idle,
    /// Released and drained: take the file steps and stop.
    Finished { ops: Vec<FileOp> },
}

/// The worker's decision at instant `now`: the oldest pending record is
/// written, after the destination has rotated to `now`'s file if needed;
/// with nothing pending, the worker waits, or stops once the sink is
/// released, closing its file.
pub fn worker_step(queue: &mut SinkQueue, destination: &mut Destination, now: &DateTime) -> (step:
    WorkerStep)
    requires
        old(queue).wf(),
        old(destination).wf(),
        now.wf(),
    ensures
        final(queue).wf(),
        final(destination).wf(),
        final(queue).accepted() == old(queue).accepted(),
        final(queue).is_closed_spec() == old(queue).is_closed_spec(),
        final(queue).sink_spec() == old(queue).sink_spec(),
        final(queue).capacity_spec() == old(queue).capacity_spec(),
        final(queue).waits_spec() == old(queue).waits_spec(),
        final(queue).dropped_spec() == old(queue).dropped_spec(),
        old(queue).pending().len() > 0 ==> {
            &&& step matches WorkerStep::Write { ops, line } && line == old(queue).pending()[0]
                && dest_prepared(*old(destination), *final(destination), *now, ops@)
            &&& final(queue).pending() == old(queue).pending().drop_first()
            &&& final(queue).delivered() == old(queue).delivered().push(old(queue).pending()[0])
        },
        old(queue).pending().len() == 0 ==> {
            &&& final(queue).pending() == old(queue).pending()
            &&& final(queue).delivered() == old(queue).delivered()
        },
        old(queue).pending().len() == 0 && !old(queue).is_closed_spec() ==> step is Idle
            && *final(destination) == *old(destination),
        old(queue).pending().len() == 0 && old(queue).is_closed_spec() ==> (step matches WorkerStep::Finished { ops }
            && dest_finished(*old(destination), *final(destination), ops@)),
        step is Finished ==> final(queue).delivered() == final(queue).accepted(),
{
    match queue.take_next() {
        Some(line) => {
            let ops = destination.before_write(now);
            WorkerStep::Write { ops, line }
        },
        None => {
            if queue.is_closed() {
                proof {
                    lemma_drained_delivers_all(queue);
                }
                let ops = destination.finish();
                WorkerStep::Finished { ops }
            } else {
                WorkerStep::Idle
            }
        },
    }
}

/// `Destination::before_write` from `before` at `now`.
pub open spec fn dest_prepared(before: Destination, after: Destination, now: DateTime, ops: Seq<FileOp>) -> bool {
    match before {
        Destination::Stdout => after is Stdout && ops.len() == 0,
        Destination::File(f) => after matches Destination::File(g) && prepared(f, g, now, ops),
    }
}

/// `Destination::finish` from `before`.
pub open spec fn dest_finished(before: Destination, after: Destination, ops: Seq<FileOp>) -> bool {
    match before {
        Destination::Stdout => after is Stdout && ops.len() == 0,
        Destination::File(f) => after matches Destination::File(g) && finished(f, g, ops),
    }
}

/// The base record format: the structured JSON shape, with file and line,
/// RFC 3339 time and no target. Every sink renders it in its compact shape.
pub fn create_format() -> (f: Format)
    ensures
        f == Format::Json,
{
    Format::Json
}

/// The branch built for target `t`.
pub open spec fn branch_of(t: Target) -> Branch {
    Branch { level: t.level, format: Format::Compact }
}

/// Sink `s` is the one built, as sink `index`, for target `t` at instant
/// `now`, with queues of the given capacity: a fresh open queue of that sink
/// with nothing counted, and for a file target a rolling file in `log_dir`
/// whose first file, that of `now`'s bucket, is opened at startup.
pub open spec fn sink_of(
    t: Target,
    s: Sink,
    index: nat,
    log_dir: Seq<char>,
    now: DateTime,
    capacity: nat,
) -> bool {
    &&& s.kind == t.kind
    &&& s.queue.wf()
    &&& s.queue.sink_spec() == index
    &&& s.queue.capacity_spec() == capacity
    &&& s.queue.waits_spec() == 0
    &&& s.queue.dropped_spec() == 0
    &&& !s.queue.is_closed_spec()
    &&& s.queue.pending().len() == 0
    &&& s.queue.accepted().len() == 0
    &&& s.destination.wf()
    &&& match t.kind {
        TargetKind::Stdout => s.destination is Stdout && s.startup@.len() == 0,
        TargetKind::File => {
            let path = file_path_spec(log_dir, t.filename.0@, t.rotation, now);
            &&& s.destination matches Destination::File(f)
            &&& f.dir@ == log_dir
            &&& f.prefix@ == t.filename.0@
            &&& f.rotation == t.rotation
            &&& f.current matches Some(c)
            &&& c.bucket == bucket_spec(t.rotation, now)
            &&& c.path@ == path
            &&& s.startup@.len() == 1
            &&& is_open_of(s.startup@[0], path)
        },
    }
}

/// Builds one branch, one sink and one guard per target, in the targets' order.
pub fn create_layers(settings: &LogSettings, now: &DateTime, capacity: usize) -> (r: (
    Vec<Branch>,
    Vec<Sink>,
    Vec<Guard>,
))
    requires
        now.wf(),
        capacity > 0,
    ensures
        r.0@.len() == settings.targets@.len(),
        r.1@.len() == settings.targets@.len(),
        r.2@.len() == settings.targets@.len(),
        forall|i: int|
            0 <= i < settings.targets@.len() ==> #[trigger] r.0@[i] == branch_of(
                settings.targets@[i],
            ),
        forall|i: int|
            0 <= i < settings.targets@.len() ==> sink_of(
                settings.targets@[i],
                #[trigger] r.1@[i],
                i as nat,
                settings.log_dir@,
                *now,
                capacity as nat,
            ),
        forall|i: int| 0 <= i < settings.targets@.len() ==> (#[trigger] r.2@[i]).sink == i,
{
    let mut branches: Vec<Branch> = Vec::new();
    let mut sinks: Vec<Sink> = Vec::new();
    let mut guards: Vec<Guard> = Vec::new();
    let n = settings.targets.len();
    let mut i: usize = 0;
    while i < n
        invariant
            n == settings.targets@.len(),
            i <= n,
            now.wf(),
            capacity > 0,
            branches@.len() == i,
            sinks@.len() == i,
            guards@.len() == i,
            forall|j: int| 0 <= j < i ==> #[trigger] branches@[j] == branch_of(settings.targets@[j]),
            forall|j: int|
                0 <= j < i ==> sink_of(
                    settings.targets@[j],
                    #[trigger] sinks@[j],
                    j as nat,
                    settings.log_dir@,
                    *now,
                    capacity as nat,
                ),
            forall|j: int| 0 <= j < i ==> (#[trigger] guards@[j]).sink == j,
        decreases n - i,
    {
        let t = &settings.targets[i];
        let format = create_format().compact();
        branches.push(Branch { level: t.level, format });
        let queue = SinkQueue::new(i, capacity);
        let sink = match t.kind {
            TargetKind::Stdout => Sink {
                kind: TargetKind::Stdout,
                queue,
                destination: Destination::Stdout,
                startup: Vec::new(),
            },
            TargetKind::File => {
                let mut f = RollingFile::new(
                    settings.log_dir.clone(),
                    t.filename.0.clone(),
                    t.rotation,
                );
                let startup = f.prepare(now);
                Sink { kind: TargetKind::File, queue, destination: Destination::File(f), startup }
            },
        };
        sinks.push(sink);
        guards.push(Guard { sink: i });
        i = i + 1;
    }
    (branches, sinks, guards)
}

/// Builds the pipeline for `settings`: the fan-out layer (none when no
/// target is configured) and, in the targets' order, one sink and one guard
/// per target.
pub fn init_tracing(settings: &LogSettings, now: &DateTime, capacity: usize) -> (p: Pipeline)
    requires
        now.wf(),
        capacity > 0,
    ensures
        p.layer is None <==> settings.targets@.len() == 0,
        p.layer matches Some(l) ==> l.branches@.len() == settings.targets@.len() && forall|i: int|
            0 <= i < settings.targets@.len() ==> #[trigger] l.branches@[i] == branch_of(
                settings.targets@[i],
            ),
        p.sinks@.len() == settings.targets@.len(),
        p.guards@.len() == settings.targets@.len(),
        forall|i: int|
            0 <= i < settings.targets@.len() ==> sink_of(
                settings.targets@[i],
                #[trigger] p.sinks@[i],
                i as nat,
                settings.log_dir@,
                *now,
                capacity as nat,
            ),
        forall|i: int| 0 <= i < settings.targets@.len() ==> (#[trigger] p.guards@[i]).sink == i,
{
    let (branches, sinks, guards) = create_layers(settings, now, capacity);
    let layer = if branches.len() == 0 {
        None
    } else {
        Some(FanoutLayer::new(branches))
    };
    Pipeline { layer, sinks, guards }
}

} // verus!
