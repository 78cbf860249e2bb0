use vstd::prelude::*;

verus! {

/// Severity of a record, and the minimum severity a sink admits.
///
/// The order is `TRACE < DEBUG < INFO < WARN < ERROR`.
#[derive(Clone, Copy, Debug, PartialEq, Eq, Structural)]
#[allow(non_camel_case_types, clippy::upper_case_acronyms)]
pub enum LevelDef {
    TRACE,
    DEBUG,
    INFO,
    WARN,
    ERROR,
}

impl LevelDef {
    /// Position of the level in the severity order, from 0 (`TRACE`) to 4 (`ERROR`).
    pub open spec fn rank(self) -> nat {
        match self {
            LevelDef::TRACE => 0,
            LevelDef::DEBUG => 1,
            LevelDef::INFO => 2,
            LevelDef::WARN => 3,
            LevelDef::ERROR => 4,
        }
    }

    /// Executable counterpart of `rank`.
    pub fn severity_rank(self) -> (r: u8)
        ensures
            r as nat == self.rank(),
    {
        match self {
            LevelDef::TRACE => 0,
            LevelDef::DEBUG => 1,
            LevelDef::INFO => 2,
            LevelDef::WARN => 3,
            LevelDef::ERROR => 4,
        }
    }
}

} // verus!

verus! {

/// Whether a record of `severity` passes a filter whose minimum is `threshold`.
pub open spec fn admits(severity: LevelDef, threshold: LevelDef) -> bool {
    severity.rank() >= threshold.rank()
}

/// Severity filter: true iff `severity >= threshold` in the order
/// `TRACE < DEBUG < INFO < WARN < ERROR`.
pub fn passes(severity: LevelDef, threshold: LevelDef) -> (r: bool)
    ensures
        r == admits(severity, threshold),
{
    severity.severity_rank() >= threshold.severity_rank()
}

/// The level a target gets when its configuration names none.
pub fn default_level() -> (r: LevelDef)
    ensures
        r == LevelDef::INFO,
{
    LevelDef::INFO
}

impl LevelDef {
    /// The upper-case name of the level, as it appears in rendered records.
    pub open spec fn label_spec(self) -> Seq<char> {
        match self {
            LevelDef::TRACE => seq!['T', 'R', 'A', 'C', 'E'],
            LevelDef::DEBUG => seq!['D', 'E', 'B', 'U', 'G'],
            LevelDef::INFO => seq!['I', 'N', 'F', 'O'],
            LevelDef::WARN => seq!['W', 'A', 'R', 'N'],
            LevelDef::ERROR => seq!['E', 'R', 'R', 'O', 'R'],
        }
    }

    /// Executable counterpart of `label_spec`.
    pub fn label(self) -> (r: &'static str)
        ensures
            r@ == self.label_spec(),
    {
        let r = match self {
            LevelDef::TRACE => "TRACE",
            LevelDef::DEBUG => "DEBUG",
            LevelDef::INFO => "INFO",
            LevelDef::WARN => "WARN",
            LevelDef::ERROR => "ERROR",
        };
        proof {
            reveal_strlit("TRACE");
            reveal_strlit("DEBUG");
            reveal_strlit("INFO");
            reveal_strlit("WARN");
            reveal_strlit("ERROR");
        }
        r
    }
}

} // verus!
