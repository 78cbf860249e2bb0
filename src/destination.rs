use vstd::prelude::*;

use crate::clock::DateTime;
use crate::rotation::{
    bucket_of, bucket_path_spec, bucket_spec, file_path, file_path_spec,
    lemma_distinct_buckets_distinct_paths, Bucket,
};
use crate::settings::RotationDef;

verus! {

/// A step on a file destination that the sink's worker performs before it
/// writes: close the named file, or open (creating if needed) the named file.
#[derive(Debug)]
pub enum FileOp {
    Close(String),
    Open(String),
}

pub open spec fn is_open_of(op: FileOp, path: Seq<char>) -> bool {
    op matches FileOp::Open(p) && p@ == path
}

pub open spec fn is_close_of(op: FileOp, path: Seq<char>) -> bool {
    op matches FileOp::Close(p) && p@ == path
}

/// The file a rolling destination has open, and the bucket it belongs to.
#[derive(Debug)]
pub struct OpenFile {
    pub bucket: Bucket,
    pub path: String,
}

/// A file destination that rotates by period. Which file is open is decided
/// lazily, when a record is about to be written.
#[derive(Debug)]
pub struct RollingFile {
    pub dir: String,
    pub prefix: String,
    pub rotation: RotationDef,
    pub current: Option<OpenFile>,
}

/// The outcome of `RollingFile::prepare` from `before` at instant `now`: the
/// file of `now`'s bucket is open afterwards; a file of another bucket was
/// closed before it was opened; one of the same bucket was kept.
pub open spec fn prepared(before: RollingFile, after: RollingFile, now: DateTime, ops: Seq<FileOp>) -> bool {
    let path = file_path_spec(before.dir@, before.prefix@, before.rotation, now);
    &&& after.wf()
    &&& after.dir == before.dir
    &&& after.prefix == before.prefix
    &&& after.rotation == before.rotation
    &&& after.current matches Some(c) && c.bucket == bucket_spec(before.rotation, now) && c.path@ == path
    &&& match before.current {
        None => ops.len() == 1 && is_open_of(ops[0], path),
        Some(c) => if c.bucket == bucket_spec(before.rotation, now) {
            ops.len() == 0
        } else {
            &&& ops.len() == 2
            &&& is_close_of(ops[0], c.path@)
            &&& is_open_of(ops[1], path)
        },
    }
}

/// The outcome of `RollingFile::finish`: the open file, if any, was closed.
pub open spec fn finished(before: RollingFile, after: RollingFile, ops: Seq<FileOp>) -> bool {
    &&& after.wf()
    &&& after.dir == before.dir
    &&& after.prefix == before.prefix
    &&& after.rotation == before.rotation
    &&& after.current is None
    &&& match before.current {
        None => ops.len() == 0,
        Some(c) => ops.len() == 1 && is_close_of(ops[0], c.path@),
    }
}

impl RollingFile {
    /// The open file, if any, is the one its bucket names.
    pub open spec fn wf(&self) -> bool {
        self.current matches Some(c) ==> c.path@ == bucket_path_spec(
            self.dir@,
            self.prefix@,
            self.rotation,
            c.bucket,
        )
    }

    /// A destination with no file open yet.
    pub fn new(dir: String, prefix: String, rotation: RotationDef) -> (r: RollingFile)
        ensures
            r.wf(),
            r.dir@ == dir@,
            r.prefix@ == prefix@,
            r.rotation == rotation,
            r.current is None,
    {
        RollingFile { dir, prefix, rotation, current: None }
    }

    /// Makes the file of `now`'s bucket the open one. Where another file is
    /// open, it is closed before the new one is opened; where the open file
    /// already belongs to `now`'s bucket, nothing is done.
    pub fn prepare(&mut self, now: &DateTime) -> (ops: Vec<FileOp>)
        requires
            old(self).wf(),
            now.wf(),
        ensures
            prepared(*old(self), *final(self), *now, ops@),
    {
        let b = bucket_of(self.rotation, now);
        let mut ops: Vec<FileOp> = Vec::new();
        match &self.current {
            Some(c) => {
                if c.bucket == b {
                    return ops;
                }
                ops.push(FileOp::Close(c.path.clone()));
            },
            None => {},
        }
        let path = file_path(self.dir.as_str(), self.prefix.as_str(), self.rotation, now);
        ops.push(FileOp::Open(path.clone()));
        self.current = Some(OpenFile { bucket: b, path });
        ops
    }

    /// Closes the open file, if any.
    pub fn finish(&mut self) -> (ops: Vec<FileOp>)
        ensures
            finished(*old(self), *final(self), ops@),
    {
        let mut ops: Vec<FileOp> = Vec::new();
        match &self.current {
            Some(c) => {
                ops.push(FileOp::Close(c.path.clone()));
            },
            None => {},
        }
        self.current = None;
        ops
    }
}

/// The physical destination of a sink, owned by the sink's worker alone.
#[derive(Debug)]
pub enum Destination {
    Stdout,
    File(RollingFile),
}

impl Destination {
    pub open spec fn wf(&self) -> bool {
        self matches Destination::File(f) ==> f.wf()
    }

    /// The steps to take before a record is written at instant `now`: none for
    /// the standard output; for a file, those of `RollingFile::prepare`.
    pub fn before_write(&mut self, now: &DateTime) -> (ops: Vec<FileOp>)
        requires
            old(self).wf(),
            now.wf(),
        ensures
            final(self).wf(),
            *old(self) is Stdout ==> *final(self) is Stdout && ops@.len() == 0,
            *old(self) matches Destination::File(f) ==> *final(self) matches Destination::File(g)
                && prepared(f, g, *now, ops@),
    {
        match self {
            Destination::Stdout => Vec::new(),
            Destination::File(f) => f.prepare(now),
        }
    }

    /// The steps to take when the sink shuts down: close the open file, if any.
    pub fn finish(&mut self) -> (ops: Vec<FileOp>)
        requires
            old(self).wf(),
        ensures
            final(self).wf(),
            *old(self) is Stdout ==> *final(self) is Stdout && ops@.len() == 0,
            *old(self) matches Destination::File(f) ==> *final(self) matches Destination::File(g)
                && finished(f, g, ops@),
    {
        match self {
            Destination::Stdout => Vec::new(),
            Destination::File(f) => f.finish(),
        }
    }
}

/// Rotation: a rolling file that wrote at `t1` and then writes at `t2`, in
/// another bucket of a rotating policy, opened `t1`'s file first, then closes
/// that file before it opens `t2`'s, and the two files are distinct.
pub proof fn lemma_rotation_closes_then_opens(
    f0: RollingFile,
    f1: RollingFile,
    f2: RollingFile,
    t1: DateTime,
    t2: DateTime,
    ops1: Seq<FileOp>,
    ops2: Seq<FileOp>,
)
    requires
        f0.wf(),
        f0.current is None,
        f0.rotation != RotationDef::NEVER,
        t1.wf(),
        t2.wf(),
        bucket_spec(f0.rotation, t1) != bucket_spec(f0.rotation, t2),
        prepared(f0, f1, t1, ops1),
        prepared(f1, f2, t2, ops2),
    ensures
        ({
            let first_path = file_path_spec(f0.dir@, f0.prefix@, f0.rotation, t1);
            let second_path = file_path_spec(f0.dir@, f0.prefix@, f0.rotation, t2);
            &&& ops1.len() == 1
            &&& is_open_of(ops1[0], first_path)
            &&& ops2.len() == 2
            &&& is_close_of(ops2[0], first_path)
            &&& is_open_of(ops2[1], second_path)
            &&& first_path != second_path
        }),
{
    lemma_distinct_buckets_distinct_paths(f0.dir@, f0.prefix@, f0.rotation, t1, t2);
}

/// Daily rotation: records written on two different calendar days land in two
/// distinct files, each named by its day, and the first file is closed before
/// the second is opened.
pub proof fn lemma_daily_rotation(
    f0: RollingFile,
    f1: RollingFile,
    f2: RollingFile,
    t1: DateTime,
    t2: DateTime,
    ops1: Seq<FileOp>,
    ops2: Seq<FileOp>,
)
    requires
        f0.wf(),
        f0.current is None,
        f0.rotation == RotationDef::DAILY,
        t1.wf(),
        t2.wf(),
        t1.year != t2.year || t1.month != t2.month || t1.day != t2.day,
        prepared(f0, f1, t1, ops1),
        prepared(f1, f2, t2, ops2),
    ensures
        ({
            let first_path = file_path_spec(f0.dir@, f0.prefix@, RotationDef::DAILY, t1);
            let second_path = file_path_spec(f0.dir@, f0.prefix@, RotationDef::DAILY, t2);
            &&& ops1.len() == 1
            &&& is_open_of(ops1[0], first_path)
            &&& ops2.len() == 2
            &&& is_close_of(ops2[0], first_path)
            &&& is_open_of(ops2[1], second_path)
            &&& first_path != second_path
        }),
{
    lemma_rotation_closes_then_opens(f0, f1, f2, t1, t2, ops1, ops2);
}

} // verus!
