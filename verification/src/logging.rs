//! Severities and log buffers of the Android log, and how severities relate
//! to the levels of `tracing`.

use tracing_core::Level;
use vstd::prelude::*;
use vstd::std_specs::convert::FromSpecImpl;

verus! {

/// `tracing_core::Level`, carried through verified code as an opaque value.
#[verifier::external_type_specification]
#[verifier::external_body]
pub struct ExLevel(Level);

/// The five levels that a `tracing_core::Level` can be.
#[derive(Debug, Clone, Copy, PartialEq, Eq, Structural)]
pub enum LevelName {
    Trace,
    Debug,
    Info,
    Warn,
    Error,
}

/// Which of the five levels a `tracing_core::Level` is.
pub uninterp spec fn level_name(level: Level) -> LevelName;

/// The constant of `Level` that carries the given name.
pub uninterp spec fn level_for(name: LevelName) -> Level;

/// Tells the constants `Level::TRACE` .. `Level::ERROR` apart. `Level` has no
/// other values, so the level is the constant of its name.
#[verifier::external_body]
fn name_of_level(level: &Level) -> (name: LevelName)
    ensures
        name == level_name(*level),
        level_for(name) == *level,
{
    match *level {
        Level::TRACE => LevelName::Trace,
        Level::DEBUG => LevelName::Debug,
        Level::INFO => LevelName::Info,
        Level::WARN => LevelName::Warn,
        Level::ERROR => LevelName::Error,
    }
}

/// Picks the constant of `Level` that carries the given name: `Level::TRACE`
/// for `Trace`, and so on. Read back, that constant has the name it was
/// picked for.
#[verifier::external_body]
fn level_named(name: LevelName) -> (level: Level)
    ensures
        level == level_for(name),
        level_name(level) == name,
{
    match name {
        LevelName::Trace => Level::TRACE,
        LevelName::Debug => Level::DEBUG,
        LevelName::Info => Level::INFO,
        LevelName::Warn => Level::WARN,
        LevelName::Error => Level::ERROR,
    }
}

/// An Android log priority, from the least to the most severe.
#[derive(Debug, Clone, Copy, PartialEq, Eq, Structural, PartialOrd, Ord, Hash)]
pub enum Priority {
    Verbose,
    Debug,
    Info,
    Warn,
    Error,
    Fatal,
}

/// An Android log buffer.
#[derive(Debug, Clone, Copy, PartialEq, Eq, Structural, Hash)]
pub enum Buffer {
    /// Let the logging function choose the best log target.
    Default,
    /// The main log buffer, the only one available to apps.
    Main,
    /// The crash log buffer.
    Crash,
    /// The statistics log buffer.
    Stats,
    /// The event log buffer.
    Events,
    /// The security log buffer.
    Security,
    /// The system log buffer.
    System,
    /// The kernel log buffer.
    Kernel,
    /// The radio log buffer.
    Radio,
}

impl Priority {
    /// The number that the platform gives this priority.
    pub open spec fn raw(self) -> u32 {
        match self {
            Priority::Verbose => 2,
            Priority::Debug => 3,
            Priority::Info => 4,
            Priority::Warn => 5,
            Priority::Error => 6,
            Priority::Fatal => 7,
        }
    }

    /// The priority that events of the given level are logged at.
    pub open spec fn of_level(name: LevelName) -> Priority {
        match name {
            LevelName::Trace => Priority::Verbose,
            LevelName::Debug => Priority::Debug,
            LevelName::Info => Priority::Info,
            LevelName::Warn => Priority::Warn,
            LevelName::Error => Priority::Error,
        }
    }

    /// The level that stands for this priority. `Fatal` has no level of its
    /// own and shares that of `Error`.
    pub open spec fn to_level(self) -> LevelName {
        match self {
            Priority::Verbose => LevelName::Trace,
            Priority::Debug => LevelName::Debug,
            Priority::Info => LevelName::Info,
            Priority::Warn => LevelName::Warn,
            Priority::Error => LevelName::Error,
            Priority::Fatal => LevelName::Error,
        }
    }

    /// Returns the platform's number for this priority.
    pub fn as_raw(self) -> (raw: u32)
        ensures
            raw == self.raw(),
    {
        match self {
            Priority::Verbose => 2,
            Priority::Debug => 3,
            Priority::Info => 4,
            Priority::Warn => 5,
            Priority::Error => 6,
            Priority::Fatal => 7,
        }
    }

    /// Whether this priority is strictly less severe than `other`.
    pub fn less_severe_than(self, other: Priority) -> (less: bool)
        ensures
            less == (self.raw() < other.raw()),
    {
        self.as_raw() < other.as_raw()
    }

    /// Maps a level name to its priority.
    pub fn from_level_name(name: LevelName) -> (priority: Priority)
        ensures
            priority == Priority::of_level(name),
    {
        match name {
            LevelName::Trace => Priority::Verbose,
            LevelName::Debug => Priority::Debug,
            LevelName::Info => Priority::Info,
            LevelName::Warn => Priority::Warn,
            LevelName::Error => Priority::Error,
        }
    }

    /// Maps this priority to the name of its level.
    pub fn to_level_name(self) -> (name: LevelName)
        ensures
            name == self.to_level(),
    {
        match self {
            Priority::Verbose => LevelName::Trace,
            Priority::Debug => LevelName::Debug,
            Priority::Info => LevelName::Info,
            Priority::Warn => LevelName::Warn,
            Priority::Error => LevelName::Error,
            Priority::Fatal => LevelName::Error,
        }
    }
}

impl From<Level> for Priority {
    fn from(l: Level) -> (priority: Priority)
        ensures
            level_for(level_name(l)) == l,
    {
        Priority::from_level_name(name_of_level(&l))
    }
}

impl FromSpecImpl<Level> for Priority {
    open spec fn obeys_from_spec() -> bool {
        true
    }

    open spec fn from_spec(l: Level) -> Priority {
        Priority::of_level(level_name(l))
    }
}

impl From<Priority> for Level {
    fn from(p: Priority) -> (level: Level)
        ensures
            level_name(level) == p.to_level(),
    {
        level_named(p.to_level_name())
    }
}

impl FromSpecImpl<Priority> for Level {
    open spec fn obeys_from_spec() -> bool {
        true
    }

    open spec fn from_spec(p: Priority) -> Level {
        level_for(p.to_level())
    }
}

/// Takes a priority to its `tracing` level and back. Every priority but
/// `Fatal` comes back unchanged; `Fatal` comes back as `Error`.
pub fn through_level(p: Priority) -> (back: Priority)
    ensures
        back == Priority::of_level(p.to_level()),
        p != Priority::Fatal ==> back == p,
        p == Priority::Fatal ==> back == Priority::Error,
{
    let level = Level::from(p);
    Priority::from(level)
}

/// Takes a level to its priority and back. Every level comes back
/// unchanged.
pub fn through_priority(level: Level) -> (back: Level)
    ensures
        back == level,
{
    let priority = Priority::from(level);
    Level::from(priority)
}

/// The round trip from a priority to its level and back is the identity on
/// every priority but `Fatal`, which becomes `Error`; `Error` then stays
/// `Error`, so a second round trip changes nothing.
pub proof fn lemma_priority_round_trip(p: Priority)
    ensures
        p != Priority::Fatal ==> Priority::of_level(p.to_level()) == p,
        p == Priority::Fatal ==> Priority::of_level(p.to_level()) == Priority::Error,
        Priority::of_level(Priority::of_level(p.to_level()).to_level()) == Priority::of_level(
            p.to_level(),
        ),
{
}

/// The platform's numbers order the priorities as they are declared.
pub proof fn lemma_priority_order()
    ensures
        Priority::Verbose.raw() < Priority::Debug.raw() < Priority::Info.raw()
            < Priority::Warn.raw() < Priority::Error.raw() < Priority::Fatal.raw(),
{
}

impl Buffer {
    /// The number that the platform gives this log buffer.
    pub open spec fn raw(self) -> u32 {
        match self {
            Buffer::Main => 0,
            Buffer::Radio => 1,
            Buffer::Events => 2,
            Buffer::System => 3,
            Buffer::Crash => 4,
            Buffer::Stats => 5,
            Buffer::Security => 6,
            Buffer::Kernel => 7,
            Buffer::Default => 0x7FFF_FFFF,
        }
    }

    /// Returns the platform's number for this log buffer.
    pub fn as_raw(self) -> (raw: u32)
        ensures
            raw == self.raw(),
    {
        match self {
            Buffer::Main => 0,
            Buffer::Radio => 1,
            Buffer::Events => 2,
            Buffer::System => 3,
            Buffer::Crash => 4,
            Buffer::Stats => 5,
            Buffer::Security => 6,
            Buffer::Kernel => 7,
            Buffer::Default => 0x7FFF_FFFF,
        }
    }
}

impl Default for Buffer {
    fn default() -> (buffer: Buffer)
        ensures
            buffer == Buffer::Default,
    {
        Buffer::Default
    }
}

} // verus!
