use vstd::prelude::*;

use crate::clock::{push_rfc3339, push_timestamp, rfc3339_text, timestamp_text, DateTime};
use crate::level::LevelDef;
use crate::text::{decimal, push_decimal};

verus! {

/// One log event: severity, local time, source location, message and
/// structured key/value fields.
#[derive(Clone, Debug)]
pub struct Record {
    pub level: LevelDef,
    pub timestamp: DateTime,
    pub file: String,
    pub line: u32,
    pub message: String,
    pub fields: Vec<(String, String)>,
}

impl Record {
    pub open spec fn wf(&self) -> bool {
        self.timestamp.wf()
    }
}

/// The shape a sink renders records in.
#[derive(Clone, Copy, Debug, PartialEq, Eq, Structural)]
pub enum Format {
    /// One human-readable line.
    Compact,
    /// One JSON object per line.
    Json,
}

/// The fields of a compact line: ` key=value` for each, in order.
pub open spec fn compact_fields(fields: Seq<(String, String)>) -> Seq<char>
    decreases fields.len(),
{
    if fields.len() == 0 {
        Seq::empty()
    } else {
        let last = fields.last();
        compact_fields(fields.drop_last()) + seq![' '] + last.0@ + seq!['='] + last.1@
    }
}

/// `YYYY-MM-DD HH:MM:SS LEVEL file:line: message key=value ...` and a newline.
pub open spec fn compact_text(r: Record) -> Seq<char> {
    timestamp_text(r.timestamp) + seq![' '] + r.level.label_spec() + seq![' '] + r.file@ + seq![
        ':',
    ] + decimal(r.line as nat) + seq![':', ' '] + r.message@ + compact_fields(r.fields@) + seq![
        '\n',
    ]
}

/// A hexadecimal digit, lower case.
pub open spec fn hex_digit(d: nat) -> char {
    if d < 10 {
        crate::text::digit(d)
    } else if d == 10 {
        'a'
    } else if d == 11 {
        'b'
    } else if d == 12 {
        'c'
    } else if d == 13 {
        'd'
    } else if d == 14 {
        'e'
    } else {
        'f'
    }
}

/// How one character is written inside a JSON string.
pub open spec fn json_escape_char(c: char) -> Seq<char> {
    if c == '"' {
        seq!['\\', '"']
    } else if c == '\\' {
        seq!['\\', '\\']
    } else if c == '\n' {
        seq!['\\', 'n']
    } else if c == '\r' {
        seq!['\\', 'r']
    } else if c == '\t' {
        seq!['\\', 't']
    } else if (c as u32) < 0x20 {
        seq!['\\', 'u', '0', '0', hex_digit((c as u32 / 16) as nat), hex_digit((c as u32 % 16) as nat)]
    } else {
        seq![c]
    }
}

/// The characters of `s` as the body of a JSON string.
pub open spec fn json_escape(s: Seq<char>) -> Seq<char>
    decreases s.len(),
{
    if s.len() == 0 {
        Seq::empty()
    } else {
        json_escape(s.drop_last()) + json_escape_char(s.last())
    }
}

/// `s` as a quoted JSON string.
pub open spec fn json_string(s: Seq<char>) -> Seq<char> {
    seq!['"'] + json_escape(s) + seq!['"']
}

/// The key/value fields as members of the `fields` object, each after a comma
/// (they follow the `message` member).
pub open spec fn json_fields(fields: Seq<(String, String)>) -> Seq<char>
    decreases fields.len(),
{
    if fields.len() == 0 {
        Seq::empty()
    } else {
        let last = fields.last();
        json_fields(fields.drop_last()) + seq![','] + json_string(last.0@) + seq![':'] + json_string(
            last.1@,
        )
    }
}

/// One JSON object and a newline: `timestamp` (RFC 3339), `level`, `fields`
/// (the message first, then the key/value fields), `filename` and
/// `line_number`; no target.
pub open spec fn json_text(r: Record) -> Seq<char> {
    "{\"timestamp\":"@ + json_string(rfc3339_text(r.timestamp)) + ",\"level\":"@ + json_string(
        r.level.label_spec(),
    ) + ",\"fields\":{\"message\":"@ + json_string(r.message@) + json_fields(r.fields@)
        + "},\"filename\":"@ + json_string(r.file@) + ",\"line_number\":"@ + decimal(
        r.line as nat,
    ) + "}\n"@
}

impl Format {
    /// The compact shape, with the same settings (source location on, no
    /// target).
    pub fn compact(self) -> (f: Format)
        ensures
            f == Format::Compact,
    {
        Format::Compact
    }
}

/// What a sink of shape `format` writes for `r`.
pub open spec fn render_spec(format: Format, r: Record) -> Seq<char> {
    match format {
        Format::Compact => compact_text(r),
        Format::Json => json_text(r),
    }
}

pub fn hex_digit_char(d: u32) -> (c: char)
    requires
        d < 16,
    ensures
        c == hex_digit(d as nat),
{
    match d {
        10 => 'a',
        11 => 'b',
        12 => 'c',
        13 => 'd',
        14 => 'e',
        15 => 'f',
        _ => crate::text::digit_char(d as u8),
    }
}

/// Appends `c` as it is written inside a JSON string.
pub fn push_json_char(s: &mut String, c: char)
    ensures
        final(s)@ == old(s)@ + json_escape_char(c),
{
    if c == '"' {
        s.push('\\');
        s.push('"');
    } else if c == '\\' {
        s.push('\\');
        s.push('\\');
    } else if c == '\n' {
        s.push('\\');
        s.push('n');
    } else if c == '\r' {
        s.push('\\');
        s.push('r');
    } else if c == '\t' {
        s.push('\\');
        s.push('t');
    } else if (c as u32) < 0x20 {
        s.push('\\');
        s.push('u');
        s.push('0');
        s.push('0');
        s.push(hex_digit_char(c as u32 / 16));
        s.push(hex_digit_char(c as u32 % 16));
    } else {
        s.push(c);
    }
}

/// Appends `json_string(t@)`.
pub fn push_json_string(s: &mut String, t: &str)
    ensures
        final(s)@ == old(s)@ + json_string(t@),
{
    s.push('"');
    let ghost start = s@;
    let n = t.unicode_len();
    let mut i: usize = 0;
    while i < n
        invariant
            n == t@.len(),
            i <= n,
            s@ == start + json_escape(t@.subrange(0, i as int)),
        decreases n - i,
    {
        let c = t.get_char(i);
        push_json_char(s, c);
        proof {
            let pre = t@.subrange(0, i + 1);
            assert(pre.drop_last() =~= t@.subrange(0, i as int));
            assert(pre.last() == c);
        }
        i = i + 1;
    }
    assert(t@.subrange(0, n as int) =~= t@);
    s.push('"');
}

/// Formatter: renders `r` in the shape `format`.
pub fn render(format: Format, r: &Record) -> (s: String)
    requires
        r.wf(),
    ensures
        s@ == render_spec(format, *r),
{
    match format {
        Format::Compact => render_compact(r),
        Format::Json => render_json(r),
    }
}

pub fn render_compact(r: &Record) -> (s: String)
    requires
        r.wf(),
    ensures
        s@ == compact_text(*r),
{
    let mut s = String::new();
    push_timestamp(&mut s, &r.timestamp);
    s.push(' ');
    s.append(r.level.label());
    s.push(' ');
    s.append(r.file.as_str());
    s.push(':');
    push_decimal(&mut s, r.line as u64);
    s.push(':');
    s.push(' ');
    s.append(r.message.as_str());
    let ghost head = s@;
    let n = r.fields.len();
    let mut i: usize = 0;
    while i < n
        invariant
            n == r.fields@.len(),
            i <= n,
            s@ == head + compact_fields(r.fields@.subrange(0, i as int)),
        decreases n - i,
    {
        let f = &r.fields[i];
        s.push(' ');
        s.append(f.0.as_str());
        s.push('=');
        s.append(f.1.as_str());
        proof {
            let pre = r.fields@.subrange(0, i + 1);
            assert(pre.drop_last() =~= r.fields@.subrange(0, i as int));
            assert(pre.last() == *f);
        }
        i = i + 1;
    }
    assert(r.fields@.subrange(0, n as int) =~= r.fields@);
    s.push('\n');
    assert(s@ =~= compact_text(*r));
    s
}

pub fn render_json(r: &Record) -> (s: String)
    requires
        r.wf(),
    ensures
        s@ == json_text(*r),
{
    let mut stamp = String::new();
    push_rfc3339(&mut stamp, &r.timestamp);
    let mut s = String::new();
    s.append("{\"timestamp\":");
    push_json_string(&mut s, stamp.as_str());
    s.append(",\"level\":");
    push_json_string(&mut s, r.level.label());
    s.append(",\"fields\":{\"message\":");
    push_json_string(&mut s, r.message.as_str());
    let ghost head = s@;
    let n = r.fields.len();
    let mut i: usize = 0;
    while i < n
        invariant
            n == r.fields@.len(),
            i <= n,
            s@ == head + json_fields(r.fields@.subrange(0, i as int)),
        decreases n - i,
    {
        let f = &r.fields[i];
        s.push(',');
        push_json_string(&mut s, f.0.as_str());
        s.push(':');
        push_json_string(&mut s, f.1.as_str());
        proof {
            let pre = r.fields@.subrange(0, i + 1);
            assert(pre.drop_last() =~= r.fields@.subrange(0, i as int));
            assert(pre.last() == *f);
        }
        i = i + 1;
    }
    assert(r.fields@.subrange(0, n as int) =~= r.fields@);
    s.append("},\"filename\":");
    push_json_string(&mut s, r.file.as_str());
    s.append(",\"line_number\":");
    push_decimal(&mut s, r.line as u64);
    s.append("}\n");
    assert(s@ =~= json_text(*r));
    s
}

} // verus!
