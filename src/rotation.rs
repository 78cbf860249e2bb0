use vstd::prelude::*;

use crate::clock::DateTime;
use crate::settings::RotationDef;
use crate::text::{lemma_pad2_injective, lemma_pad4_injective, pad2, pad4, push_pad2, push_pad4};

verus! {

/// The rotation period that an instant falls in: the instant truncated to the
/// period's boundary. `NEVER` has a single bucket.
#[derive(Clone, Copy, Debug, PartialEq, Eq, Structural)]
pub struct Bucket {
    pub year: u16,
    pub month: u8,
    pub day: u8,
    pub hour: u8,
    pub minute: u8,
}

pub open spec fn bucket_spec(rotation: RotationDef, t: DateTime) -> Bucket {
    match rotation {
        RotationDef::MINUTELY => Bucket {
            year: t.year,
            month: t.month,
            day: t.day,
            hour: t.hour,
            minute: t.minute,
        },
        RotationDef::HOURLY => Bucket {
            year: t.year,
            month: t.month,
            day: t.day,
            hour: t.hour,
            minute: 0,
        },
        RotationDef::DAILY => Bucket { year: t.year, month: t.month, day: t.day, hour: 0, minute: 0 },
        RotationDef::NEVER => Bucket { year: 0, month: 0, day: 0, hour: 0, minute: 0 },
    }
}

pub fn bucket_of(rotation: RotationDef, t: &DateTime) -> (b: Bucket)
    ensures
        b == bucket_spec(rotation, *t),
{
    match rotation {
        RotationDef::MINUTELY => Bucket {
            year: t.year,
            month: t.month,
            day: t.day,
            hour: t.hour,
            minute: t.minute,
        },
        RotationDef::HOURLY => Bucket {
            year: t.year,
            month: t.month,
            day: t.day,
            hour: t.hour,
            minute: 0,
        },
        RotationDef::DAILY => Bucket { year: t.year, month: t.month, day: t.day, hour: 0, minute: 0 },
        RotationDef::NEVER => Bucket { year: 0, month: 0, day: 0, hour: 0, minute: 0 },
    }
}

/// The date part of a rotated file name: `.YYYY-MM-DD`, then `-HH` for hourly
/// and minutely files, then `-MM` for minutely files. Empty for `NEVER`.
pub open spec fn suffix_spec(rotation: RotationDef, b: Bucket) -> Seq<char> {
    let day = seq!['.'] + pad4(b.year as nat) + seq!['-'] + pad2(b.month as nat) + seq!['-']
        + pad2(b.day as nat);
    match rotation {
        RotationDef::NEVER => Seq::empty(),
        RotationDef::DAILY => day,
        RotationDef::HOURLY => day + seq!['-'] + pad2(b.hour as nat),
        RotationDef::MINUTELY => day + seq!['-'] + pad2(b.hour as nat) + seq!['-'] + pad2(
            b.minute as nat,
        ),
    }
}

/// The path of the file that is active for instant `t`: `dir/prefix` followed
/// by the bucket's date part.
pub open spec fn file_path_spec(
    dir: Seq<char>,
    prefix: Seq<char>,
    rotation: RotationDef,
    t: DateTime,
) -> Seq<char> {
    bucket_path_spec(dir, prefix, rotation, bucket_spec(rotation, t))
}

/// The path of the file that holds the records of bucket `b`.
pub open spec fn bucket_path_spec(
    dir: Seq<char>,
    prefix: Seq<char>,
    rotation: RotationDef,
    b: Bucket,
) -> Seq<char> {
    dir + seq!['/'] + prefix + suffix_spec(rotation, b)
}

/// Rotation policy: the path of the file active at instant `t`.
pub fn file_path(dir: &str, prefix: &str, rotation: RotationDef, t: &DateTime) -> (r: String)
    requires
        t.wf(),
    ensures
        r@ == file_path_spec(dir@, prefix@, rotation, *t),
{
    let b = bucket_of(rotation, t);
    let mut r = String::from_str(dir);
    r.push('/');
    r.append(prefix);
    match rotation {
        RotationDef::NEVER => {},
        _ => {
            r.push('.');
            push_pad4(&mut r, b.year);
            r.push('-');
            push_pad2(&mut r, b.month);
            r.push('-');
            push_pad2(&mut r, b.day);
            match rotation {
                RotationDef::HOURLY => {
                    r.push('-');
                    push_pad2(&mut r, b.hour);
                },
                RotationDef::MINUTELY => {
                    r.push('-');
                    push_pad2(&mut r, b.hour);
                    r.push('-');
                    push_pad2(&mut r, b.minute);
                },
                _ => {},
            }
        },
    }
    r
}

/// Within one rotating policy, distinct buckets of valid instants give
/// distinct file paths.
pub proof fn lemma_distinct_buckets_distinct_paths(
    dir: Seq<char>,
    prefix: Seq<char>,
    rotation: RotationDef,
    t1: DateTime,
    t2: DateTime,
)
    requires
        t1.wf(),
        t2.wf(),
        rotation != RotationDef::NEVER,
        bucket_spec(rotation, t1) != bucket_spec(rotation, t2),
    ensures
        file_path_spec(dir, prefix, rotation, t1) != file_path_spec(dir, prefix, rotation, t2),
{
    let b1 = bucket_spec(rotation, t1);
    let b2 = bucket_spec(rotation, t2);
    let head = dir + seq!['/'] + prefix;
    assert(file_path_spec(dir, prefix, rotation, t1) == head + suffix_spec(rotation, b1));
    assert(file_path_spec(dir, prefix, rotation, t2) == head + suffix_spec(rotation, b2));
    let s1 = suffix_spec(rotation, b1);
    let s2 = suffix_spec(rotation, b2);
    if file_path_spec(dir, prefix, rotation, t1) == file_path_spec(dir, prefix, rotation, t2) {
        let n = head.len() as int;
        assert((head + s1).subrange(n, n + s1.len()) =~= s1);
        assert((head + s2).subrange(n, n + s2.len()) =~= s2);
        assert(s1.len() == s2.len());
        assert(s1 == s2);
        assert(s1.subrange(1, 5) =~= pad4(b1.year as nat));
        assert(s2.subrange(1, 5) =~= pad4(b2.year as nat));
        lemma_pad4_injective(b1.year as nat, b2.year as nat);
        assert(s1.subrange(6, 8) =~= pad2(b1.month as nat));
        assert(s2.subrange(6, 8) =~= pad2(b2.month as nat));
        lemma_pad2_injective(b1.month as nat, b2.month as nat);
        assert(s1.subrange(9, 11) =~= pad2(b1.day as nat));
        assert(s2.subrange(9, 11) =~= pad2(b2.day as nat));
        lemma_pad2_injective(b1.day as nat, b2.day as nat);
        if rotation != RotationDef::DAILY {
            assert(s1.subrange(12, 14) =~= pad2(b1.hour as nat));
            assert(s2.subrange(12, 14) =~= pad2(b2.hour as nat));
            lemma_pad2_injective(b1.hour as nat, b2.hour as nat);
        }
        if rotation == RotationDef::MINUTELY {
            assert(s1.subrange(15, 17) =~= pad2(b1.minute as nat));
            assert(s2.subrange(15, 17) =~= pad2(b2.minute as nat));
            lemma_pad2_injective(b1.minute as nat, b2.minute as nat);
        }
        assert(b1 == b2);
    }
}

} // verus!
