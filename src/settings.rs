use vstd::prelude::*;

use crate::level::LevelDef;

verus! {

/// Where a target's records go.
#[derive(Clone, Copy, Debug, PartialEq, Eq, Structural)]
pub enum TargetKind {
    Stdout,
    File,
}

impl Default for TargetKind {
    fn default() -> (r: TargetKind)
        ensures
            r == TargetKind::Stdout,
    {
        TargetKind::Stdout
    }
}

/// How often a file target starts a new file.
#[derive(Clone, Copy, Debug, PartialEq, Eq, Structural)]
#[allow(non_camel_case_types, clippy::upper_case_acronyms)]
pub enum RotationDef {
    MINUTELY,
    HOURLY,
    DAILY,
    NEVER,
}

impl Default for RotationDef {
    fn default() -> (r: RotationDef)
        ensures
            r == RotationDef::DAILY,
    {
        RotationDef::DAILY
    }
}

/// The rotation a target gets when its configuration names none.
pub fn default_rotation() -> (r: RotationDef)
    ensures
        r == RotationDef::DAILY,
{
    RotationDef::DAILY
}

/// The base file name of a file target.
#[derive(Clone, Debug)]
pub struct FilenameString(pub String);

/// The base name a file target gets when its configuration names none.
pub open spec fn default_filename_spec() -> Seq<char> {
    seq!['i', 'n', 'f', 'o', '.', 'l', 'o', 'g']
}

impl FilenameString {
    pub fn default_filename() -> (r: FilenameString)
        ensures
            r.0@ == default_filename_spec(),
    {
        proof {
            reveal_strlit("info.log");
        }
        FilenameString(String::from_str("info.log"))
    }

    pub fn as_str(&self) -> (r: &str)
        ensures
            r@ == self.0@,
    {
        self.0.as_str()
    }
}

/// One configured log destination.
#[derive(Clone, Debug)]
pub struct Target {
    pub kind: TargetKind,
    pub filename: FilenameString,
    pub level: LevelDef,
    pub rotation: RotationDef,
}

/// The logging part of the configuration: the directory of file targets and
/// the targets in their configured order.
#[derive(Clone, Debug)]
pub struct LogSettings {
    pub log_dir: String,
    pub targets: Vec<Target>,
}

/// The deployment environment, which selects the environment-specific
/// settings file.
#[derive(Clone, Copy, Debug, PartialEq, Eq, Structural)]
pub enum Environment {
    Local,
    Production,
}

impl Default for Environment {
    fn default() -> (r: Environment)
        ensures
            r == Environment::Local,
    {
        Environment::Local
    }
}

impl Environment {
    /// The snake-case name of the environment.
    pub open spec fn name_spec(self) -> Seq<char> {
        match self {
            Environment::Local => seq!['l', 'o', 'c', 'a', 'l'],
            Environment::Production => seq!['p', 'r', 'o', 'd', 'u', 'c', 't', 'i', 'o', 'n'],
        }
    }

    pub fn as_str(self) -> (r: &'static str)
        ensures
            r@ == self.name_spec(),
    {
        proof {
            reveal_strlit("local");
            reveal_strlit("production");
        }
        match self {
            Environment::Local => "local",
            Environment::Production => "production",
        }
    }

    /// The environment whose name is exactly `s`, if any.
    pub fn parse(s: &str) -> (r: Option<Environment>)
        ensures
            r matches Some(e) ==> e.name_spec() == s@,
            r is None ==> s@ != Environment::Local.name_spec() && s@
                != Environment::Production.name_spec(),
    {
        proof {
            reveal_strlit("local");
            reveal_strlit("production");
            assert("local"@ =~= Environment::Local.name_spec());
            assert("production"@ =~= Environment::Production.name_spec());
        }
        if text_eq(s, "local") {
            Some(Environment::Local)
        } else if text_eq(s, "production") {
            Some(Environment::Production)
        } else {
            None
        }
    }

    /// The environment named by `s`, or `Local` where `s` names none.
    pub fn parse_or_default(s: &str) -> (r: Environment)
        ensures
            s@ == Environment::Production.name_spec() ==> r == Environment::Production,
            s@ != Environment::Production.name_spec() ==> r == Environment::Local,
    {
        match Environment::parse(s) {
            Some(e) => e,
            None => Environment::Local,
        }
    }

    /// The name of the environment's settings file: the environment's name
    /// followed by `.yaml`.
    pub fn settings_file_name(self) -> (r: String)
        ensures
            r@ == self.name_spec() + seq!['.', 'y', 'a', 'm', 'l'],
    {
        proof {
            reveal_strlit(".yaml");
        }
        let mut r = String::from_str(self.as_str());
        r.append(".yaml");
        r
    }
}

/// Character-wise equality of two strings.
pub fn text_eq(a: &str, b: &str) -> (r: bool)
    ensures
        r == (a@ == b@),
{
    let n = a.unicode_len();
    if n != b.unicode_len() {
        return false;
    }
    let mut i: usize = 0;
    while i < n
        invariant
            n == a@.len(),
            n == b@.len(),
            i <= n,
            a@.subrange(0, i as int) == b@.subrange(0, i as int),
        decreases n - i,
    {
        if a.get_char(i) != b.get_char(i) {
            assert(a@[i as int] != b@[i as int]);
            return false;
        }
        assert(a@.subrange(0, i + 1) == a@.subrange(0, i as int).push(a@[i as int]));
        assert(b@.subrange(0, i + 1) == b@.subrange(0, i as int).push(b@[i as int]));
        i = i + 1;
    }
    assert(a@ == a@.subrange(0, n as int));
    assert(b@ == b@.subrange(0, n as int));
    true
}

} // verus!
