use kuai_saver::clock::DateTime;
use kuai_saver::destination::{Destination, FileOp, RollingFile};
use kuai_saver::fanout::{Branch, FanoutLayer};
use kuai_saver::format::{render, render_compact, render_json, Format, Record};
use kuai_saver::level::{default_level, passes, LevelDef};
use kuai_saver::pipeline::{create_format, create_layers, init_tracing, worker_step, Sink, WorkerStep};
use kuai_saver::rotation::{bucket_of, file_path};
use kuai_saver::settings::{
    default_rotation, FilenameString, LogSettings, RotationDef, Target, TargetKind,
};
use kuai_saver::sink::{Offer, SinkQueue};
use std::collections::BTreeMap;

fn at(year: u16, month: u8, day: u8, hour: u8, minute: u8, second: u8) -> DateTime {
    DateTime { year, month, day, hour, minute, second, offset_minutes: 0 }
}

fn record(level: LevelDef, timestamp: DateTime, message: &str) -> Record {
    Record {
        level,
        timestamp,
        file: "src/main.rs".to_string(),
        line: 42,
        message: message.to_string(),
        fields: vec![],
    }
}

fn target(kind: TargetKind, filename: &str, level: LevelDef, rotation: RotationDef) -> Target {
    Target { kind, filename: FilenameString(filename.to_string()), level, rotation }
}

/// Runs the worker of `sink` until it idles or finishes, applying its file
/// steps to `files` (path -> lines written) and its stdout lines to `stdout`.
/// Returns the paths opened and closed, in order, and whether it finished.
fn run_worker(
    sink: &mut Sink,
    now: &DateTime,
    open: &mut Option<String>,
    files: &mut BTreeMap<String, Vec<String>>,
    stdout: &mut Vec<String>,
    trail: &mut Vec<String>,
) -> bool {
    loop {
        match worker_step(&mut sink.queue, &mut sink.destination, now) {
            WorkerStep::Write { ops, line } => {
                apply(ops, open, files, trail);
                match open {
                    Some(p) => files.get_mut(p).unwrap().push(line),
                    None => stdout.push(line),
                }
            }
            WorkerStep::Idle => return false,
            WorkerStep::Finished { ops } => {
                apply(ops, open, files, trail);
                return true;
            }
        }
    }
}

fn apply(
    ops: Vec<FileOp>,
    open: &mut Option<String>,
    files: &mut BTreeMap<String, Vec<String>>,
    trail: &mut Vec<String>,
) {
    for op in ops {
        match op {
            FileOp::Close(p) => {
                assert_eq!(open.as_deref(), Some(p.as_str()));
                trail.push(format!("close {}", p));
                *open = None;
            }
            FileOp::Open(p) => {
                assert!(open.is_none(), "a file is opened while another is open");
                trail.push(format!("open {}", p));
                files.entry(p.clone()).or_default();
                *open = Some(p);
            }
        }
    }
}

#[test]
fn severity_filter_follows_the_total_order() {
    let order = [LevelDef::TRACE, LevelDef::DEBUG, LevelDef::INFO, LevelDef::WARN, LevelDef::ERROR];
    for (i, s) in order.iter().enumerate() {
        for (j, t) in order.iter().enumerate() {
            assert_eq!(passes(*s, *t), i >= j);
        }
    }
}

#[test]
fn defaults_of_a_target() {
    assert_eq!(default_level(), LevelDef::INFO);
    assert_eq!(default_rotation(), RotationDef::DAILY);
    assert_eq!(FilenameString::default_filename().as_str(), "info.log");
    assert_eq!(TargetKind::default(), TargetKind::Stdout);
    assert_eq!(RotationDef::default(), RotationDef::DAILY);
    assert_eq!(create_format(), Format::Json);
    assert_eq!(create_format().compact(), Format::Compact);
}

#[test]
fn compact_rendering_is_exact() {
    let mut r = record(LevelDef::INFO, at(2024, 3, 5, 7, 8, 9), "hello");
    r.fields = vec![("user".to_string(), "7".to_string()), ("ok".to_string(), "true".to_string())];
    assert_eq!(render_compact(&r), "2024-03-05 07:08:09 INFO src/main.rs:42: hello user=7 ok=true\n");
    assert_eq!(render(Format::Compact, &r), render_compact(&r));
}

#[test]
fn json_rendering_is_exact_and_escaped() {
    let mut r = record(LevelDef::ERROR, at(999, 12, 31, 23, 59, 58), "say \"hi\"\n\\\u{1}");
    r.line = 7;
    r.fields = vec![("k".to_string(), "v".to_string()), ("a".to_string(), "b\tc".to_string())];
    assert_eq!(
        render_json(&r),
        "{\"timestamp\":\"0999-12-31T23:59:58+00:00\",\"level\":\"ERROR\",\"fields\":{\"message\":\"say \\\"hi\\\"\\n\\\\\\u0001\",\"k\":\"v\",\"a\":\"b\\tc\"},\"filename\":\"src/main.rs\",\"line_number\":7}\n"
    );
    let mut t = at(2024, 1, 2, 3, 4, 5);
    t.offset_minutes = -330;
    let plain = record(LevelDef::DEBUG, t, "x");
    assert_eq!(
        render(Format::Json, &plain),
        "{\"timestamp\":\"2024-01-02T03:04:05-05:30\",\"level\":\"DEBUG\",\"fields\":{\"message\":\"x\"},\"filename\":\"src/main.rs\",\"line_number\":42}\n"
    );
    t.offset_minutes = 480;
    assert!(render_json(&record(LevelDef::INFO, t, "y")).starts_with("{\"timestamp\":\"2024-01-02T03:04:05+08:00\""));
    assert!(!render_json(&plain).contains("target"));
}

#[test]
fn rotation_paths_per_period() {
    let t = at(2024, 3, 5, 7, 8, 9);
    assert_eq!(file_path("logs", "app.log", RotationDef::NEVER, &t), "logs/app.log");
    assert_eq!(file_path("logs", "app.log", RotationDef::DAILY, &t), "logs/app.log.2024-03-05");
    assert_eq!(file_path("logs", "app.log", RotationDef::HOURLY, &t), "logs/app.log.2024-03-05-07");
    assert_eq!(file_path("logs", "app.log", RotationDef::MINUTELY, &t), "logs/app.log.2024-03-05-07-08");
    assert_eq!(bucket_of(RotationDef::DAILY, &t), bucket_of(RotationDef::DAILY, &at(2024, 3, 5, 23, 0, 0)));
    assert_ne!(bucket_of(RotationDef::HOURLY, &t), bucket_of(RotationDef::HOURLY, &at(2024, 3, 5, 8, 8, 9)));
}

#[test]
fn rolling_file_keeps_file_within_bucket() {
    let mut f = RollingFile::new("logs".to_string(), "a.log".to_string(), RotationDef::HOURLY);
    let ops = f.prepare(&at(2024, 3, 5, 7, 0, 0));
    assert!(matches!(ops.as_slice(), [FileOp::Open(p)] if p == "logs/a.log.2024-03-05-07"));
    assert!(f.prepare(&at(2024, 3, 5, 7, 59, 59)).is_empty());
    let ops = f.finish();
    assert!(matches!(ops.as_slice(), [FileOp::Close(p)] if p == "logs/a.log.2024-03-05-07"));
    assert!(f.finish().is_empty());
}

#[test]
fn daily_rotation_two_days_two_files() {
    let settings = LogSettings {
        log_dir: "logs".to_string(),
        targets: vec![target(TargetKind::File, "app.log", LevelDef::INFO, RotationDef::DAILY)],
    };
    let day1 = at(2024, 3, 5, 23, 59, 0);
    let day2 = at(2024, 3, 6, 0, 1, 0);
    let mut p = init_tracing(&settings, &day1, 16);
    let layer = p.layer.take().unwrap();
    let (mut open, mut files, mut stdout, mut trail) = (None, BTreeMap::new(), vec![], vec![]);
    let startup = std::mem::take(&mut p.sinks[0].startup);
    apply(startup, &mut open, &mut files, &mut trail);
    let sink = &mut p.sinks[0];
    for line in layer.dispatch(&record(LevelDef::INFO, day1, "first")).into_iter().flatten() {
        assert_eq!(sink.queue.enqueue(line), Offer::Accepted);
    }
    run_worker(sink, &day1, &mut open, &mut files, &mut stdout, &mut trail);
    for line in layer.dispatch(&record(LevelDef::INFO, day2, "second")).into_iter().flatten() {
        assert_eq!(sink.queue.enqueue(line), Offer::Accepted);
    }
    run_worker(sink, &day2, &mut open, &mut files, &mut stdout, &mut trail);
    assert_eq!(
        trail,
        vec![
            "open logs/app.log.2024-03-05".to_string(),
            "close logs/app.log.2024-03-05".to_string(),
            "open logs/app.log.2024-03-06".to_string(),
        ]
    );
    assert_eq!(files.len(), 2);
    assert_eq!(files["logs/app.log.2024-03-05"].len(), 1);
    assert!(files["logs/app.log.2024-03-05"][0].contains("first"));
    assert_eq!(files["logs/app.log.2024-03-06"].len(), 1);
    assert!(files["logs/app.log.2024-03-06"][0].contains("second"));
    assert!(stdout.is_empty());
}

#[test]
fn minutely_rotation_after_sixty_one_seconds() {
    let settings = LogSettings {
        log_dir: "logs".to_string(),
        targets: vec![target(TargetKind::File, "info.log", LevelDef::INFO, RotationDef::MINUTELY)],
    };
    let t0 = at(2024, 3, 5, 12, 0, 30);
    let t1 = at(2024, 3, 5, 12, 1, 31);
    let mut p = init_tracing(&settings, &t0, 16);
    let layer = p.layer.take().unwrap();
    let (mut open, mut files, mut stdout, mut trail) = (None, BTreeMap::new(), vec![], vec![]);
    let startup = std::mem::take(&mut p.sinks[0].startup);
    apply(startup, &mut open, &mut files, &mut trail);
    let sink = &mut p.sinks[0];
    for (t, msg) in [(t0, "one"), (t1, "two")] {
        for line in layer.dispatch(&record(LevelDef::WARN, t, msg)).into_iter().flatten() {
            assert_eq!(sink.queue.enqueue(line), Offer::Accepted);
        }
        run_worker(sink, &t, &mut open, &mut files, &mut stdout, &mut trail);
    }
    assert_eq!(files.len(), 2);
    assert_eq!(files["logs/info.log.2024-03-05-12-00"].len(), 1);
    assert_eq!(files["logs/info.log.2024-03-05-12-01"].len(), 1);
    assert!(files["logs/info.log.2024-03-05-12-00"][0].contains("one"));
    assert!(files["logs/info.log.2024-03-05-12-01"][0].contains("two"));
}

#[test]
fn stdout_warn_and_file_info_scenario() {
    let settings = LogSettings {
        log_dir: "logs".to_string(),
        targets: vec![
            target(TargetKind::Stdout, "info.log", LevelDef::WARN, RotationDef::DAILY),
            target(TargetKind::File, "app.log", LevelDef::INFO, RotationDef::NEVER),
        ],
    };
    let now = at(2024, 3, 5, 7, 8, 9);
    let mut p = init_tracing(&settings, &now, 16);
    assert_eq!(p.guards.len(), 2);
    let layer = p.layer.take().unwrap();
    let info = record(LevelDef::INFO, now, "started");
    let error = record(LevelDef::ERROR, now, "failed");
    for r in [&info, &error] {
        let out = layer.dispatch(r);
        assert_eq!(out.len(), 2);
        for (sink, line) in p.sinks.iter_mut().zip(out) {
            if let Some(line) = line {
                assert_eq!(sink.queue.enqueue(line), Offer::Accepted);
            }
        }
    }
    let (mut stdout, mut trail) = (vec![], vec![]);
    let mut files = BTreeMap::new();
    let mut stdout_open = None;
    let mut file_open = None;
    let file_startup = std::mem::take(&mut p.sinks[1].startup);
    assert!(p.sinks[0].startup.is_empty());
    apply(file_startup, &mut file_open, &mut files, &mut trail);
    let guards = std::mem::take(&mut p.guards);
    for (g, sink) in guards.into_iter().zip(p.sinks.iter_mut()) {
        g.release(&mut sink.queue);
    }
    assert!(run_worker(&mut p.sinks[0], &now, &mut stdout_open, &mut files, &mut stdout, &mut trail));
    assert!(run_worker(&mut p.sinks[1], &now, &mut file_open, &mut files, &mut stdout, &mut trail));
    assert_eq!(stdout, vec!["2024-03-05 07:08:09 ERROR src/main.rs:42: failed\n".to_string()]);
    assert_eq!(
        files["logs/app.log"],
        vec![
            "2024-03-05 07:08:09 INFO src/main.rs:42: started\n".to_string(),
            "2024-03-05 07:08:09 ERROR src/main.rs:42: failed\n".to_string(),
        ]
    );
    assert_eq!(trail, vec!["open logs/app.log".to_string(), "close logs/app.log".to_string()]);
}

#[test]
fn init_builds_one_guard_per_target() {
    let now = at(2024, 3, 5, 7, 8, 9);
    for n in 0..5usize {
        let targets = (0..n)
            .map(|i| {
                let kind = if i % 2 == 0 { TargetKind::Stdout } else { TargetKind::File };
                target(kind, &format!("f{}.log", i), LevelDef::DEBUG, RotationDef::HOURLY)
            })
            .collect();
        let settings = LogSettings { log_dir: "d".to_string(), targets };
        let p = init_tracing(&settings, &now, 8);
        assert_eq!(p.guards.len(), n);
        assert_eq!(p.sinks.len(), n);
        assert_eq!(p.layer.is_none(), n == 0);
        for (i, g) in p.guards.iter().enumerate() {
            assert_eq!(g.sink, i);
            assert_eq!(p.sinks[i].queue.sink(), i);
            assert_eq!((p.sinks[i].queue.waits(), p.sinks[i].queue.dropped()), (0, 0));
        }
        let (branches, sinks, guards) = create_layers(&settings, &now, 8);
        assert_eq!((branches.len(), sinks.len(), guards.len()), (n, n, n));
    }
    let empty = FanoutLayer::new(vec![]);
    assert!(empty.dispatch(&record(LevelDef::ERROR, now, "x")).is_empty());
}

#[test]
fn fanout_delivers_independently() {
    let layer = FanoutLayer::new(vec![
        Branch { level: LevelDef::ERROR, format: Format::Compact },
        Branch { level: LevelDef::TRACE, format: Format::Json },
        Branch { level: LevelDef::WARN, format: Format::Compact },
    ]);
    let r = record(LevelDef::WARN, at(2024, 1, 1, 0, 0, 0), "m");
    let out = layer.dispatch(&r);
    assert!(out[0].is_none());
    assert_eq!(out[1].as_deref(), Some(render_json(&r).as_str()));
    assert_eq!(out[2].as_deref(), Some(render_compact(&r).as_str()));
}

#[test]
fn queue_is_fifo() {
    let mut q = SinkQueue::new(0, 4);
    assert_eq!(q.enqueue("r1".to_string()), Offer::Accepted);
    assert_eq!(q.enqueue("r2".to_string()), Offer::Accepted);
    assert_eq!(q.take_next().as_deref(), Some("r1"));
    assert_eq!(q.take_next().as_deref(), Some("r2"));
    assert_eq!(q.take_next(), None);
}

#[test]
fn release_drains_up_to_capacity() {
    let mut q = SinkQueue::new(0, 3);
    for i in 0..3 {
        assert_eq!(q.enqueue(format!("r{}", i)), Offer::Accepted);
    }
    assert_eq!(q.enqueue("late".to_string()), Offer::Full);
    assert_eq!((q.waits(), q.dropped()), (1, 0));
    q.close();
    assert_eq!(q.enqueue("after".to_string()), Offer::Closed);
    assert_eq!((q.waits(), q.dropped()), (1, 1));
    let mut out = vec![];
    while let Some(l) = q.take_next() {
        out.push(l);
    }
    assert_eq!(out, vec!["r0", "r1", "r2"]);
    assert!(q.is_drained());
}

#[test]
fn release_drains_beyond_capacity_with_backpressure() {
    let mut sink = Sink {
        kind: TargetKind::Stdout,
        queue: SinkQueue::new(0, 2),
        destination: Destination::Stdout,
        startup: vec![],
    };
    let now = at(2024, 1, 1, 0, 0, 0);
    let mut written = vec![];
    let k = 7;
    for i in 0..k {
        let line = format!("r{}", i);
        loop {
            match sink.queue.enqueue(line.clone()) {
                Offer::Accepted => break,
                Offer::Full => {
                    if let WorkerStep::Write { line, .. } = worker_step(&mut sink.queue, &mut sink.destination, &now) {
                        written.push(line);
                    }
                }
                Offer::Closed => panic!("queue closed early"),
            }
        }
    }
    assert!(sink.queue.waits() > 0);
    assert_eq!(sink.queue.dropped(), 0);
    sink.queue.close();
    loop {
        match worker_step(&mut sink.queue, &mut sink.destination, &now) {
            WorkerStep::Write { line, .. } => written.push(line),
            WorkerStep::Finished { ops } => {
                assert!(ops.is_empty());
                break;
            }
            WorkerStep::Idle => panic!("released sink idles"),
        }
    }
    let expected: Vec<String> = (0..k).map(|i| format!("r{}", i)).collect();
    assert_eq!(written, expected);
}

#[test]
fn clock_validity() {
    assert!(at(2024, 2, 29, 23, 59, 59).is_valid());
    assert!(!at(2024, 13, 1, 0, 0, 0).is_valid());
    assert!(!at(10000, 1, 1, 0, 0, 0).is_valid());
    assert!(!at(2024, 1, 0, 0, 0, 0).is_valid());
    assert!(!at(2024, 1, 1, 24, 0, 0).is_valid());
    let mut far = at(2024, 1, 1, 0, 0, 0);
    far.offset_minutes = 1440;
    assert!(!far.is_valid());
    far.offset_minutes = -1439;
    assert!(far.is_valid());
}
