//! How the tunnel's log records are handed to the logger of the router.

use vstd::prelude::*;

verus! {

/// How grave a record of the tunnel is.
#[derive(Debug, Clone, Copy, PartialEq, Eq, Structural)]
pub enum Level {
    Critical,
    Error,
    Warning,
    Info,
    Debug,
    Trace,
}

/// The levels of the router's logger.
#[derive(Debug, Clone, Copy, PartialEq, Eq, Structural)]
pub enum LogLevel {
    Error,
    Warn,
    Info,
    Debug,
    Trace,
}

/// The place behind the last `/` of a path: where its file name begins.
pub open spec fn file_name_start(path: Seq<char>) -> int
    decreases path.len(),
{
    if path.len() == 0 {
        0
    } else if path.last() == '/' {
        path.len() as int
    } else {
        file_name_start(path.drop_last())
    }
}

/// The file name begins inside the path, behind a `/` or at the start, and
/// holds no `/`.
pub proof fn lemma_file_name_start(path: Seq<char>)
    ensures
        0 <= file_name_start(path) <= path.len(),
        file_name_start(path) > 0 ==> path[file_name_start(path) - 1] == '/',
        forall|j: int| file_name_start(path) <= j < path.len() ==> path[j] != '/',
    decreases path.len(),
{
    if path.len() > 0 && path.last() != '/' {
        let shorter = path.drop_last();
        lemma_file_name_start(shorter);
        assert forall|j: int| file_name_start(path) <= j < path.len() implies path[j] != '/' by {
            if j < shorter.len() {
                assert(shorter[j] == path[j]);
            }
        }
    }
}

/// Up to a place behind which there is no `/`, a path's file name begins
/// where that of its prefix does.
proof fn lemma_file_name_start_prefix(path: Seq<char>, i: int)
    requires
        0 <= i <= path.len(),
        forall|j: int| i <= j < path.len() ==> path[j] != '/',
    ensures
        file_name_start(path) == file_name_start(path.subrange(0, i)),
    decreases path.len() - i,
{
    if i < path.len() {
        assert(path.drop_last().subrange(0, i) =~= path.subrange(0, i));
        lemma_file_name_start_prefix(path.drop_last(), i);
    } else {
        assert(path.subrange(0, i) =~= path);
    }
}

/// The file name of a path: what stands behind its last `/`, or all of it.
pub fn short_file(f: &str) -> (name: &str)
    ensures
        name@ == f@.subrange(file_name_start(f@), f@.len() as int),
{
    let len: usize = f.unicode_len();
    let mut i: usize = len;
    while i > 0
        invariant
            i <= len,
            len == f@.len(),
            forall|j: int| i <= j < len ==> f@[j] != '/',
        decreases i,
    {
        if f.get_char(i - 1) == '/' {
            proof {
                lemma_file_name_start_prefix(f@, i as int);
                assert(f@.subrange(0, i as int).last() == '/');
            }
            return f.substring_char(i, len);
        }
        i = i - 1;
    }
    proof {
        lemma_file_name_start_prefix(f@, 0);
        assert(f@.subrange(0, 0).len() == 0);
        assert(f@.subrange(0, len as int) =~= f@);
    }
    f.substring_char(0, len)
}

/// Hands the tunnel's records on to the router's logger.
#[derive(Debug, Clone, Copy, PartialEq, Eq, Structural)]
pub struct SlogAdapter;

impl SlogAdapter {
    /// The level that a record is logged at: warnings, notices and debugging
    /// output keep their level, traces count as debugging output, and
    /// everything graver is an error.
    pub open spec fn level_of(level: Level) -> LogLevel {
        match level {
            Level::Warning => LogLevel::Warn,
            Level::Info => LogLevel::Info,
            Level::Debug => LogLevel::Debug,
            Level::Trace => LogLevel::Debug,
            _ => LogLevel::Error,
        }
    }

    /// Where a record goes: the level it is logged at, and the file name
    /// that it is logged under.
    pub fn log<'a>(&self, level: Level, file: &'a str) -> (r: (LogLevel, &'a str))
        ensures
            r.0 == Self::level_of(level),
            r.1@ == file@.subrange(file_name_start(file@), file@.len() as int),
    {
        let target = match level {
            Level::Warning => LogLevel::Warn,
            Level::Info => LogLevel::Info,
            Level::Debug => LogLevel::Debug,
            Level::Trace => LogLevel::Debug,
            _ => LogLevel::Error,
        };
        (target, short_file(file))
    }

    /// Whether records of a level are wanted: all are.
    pub fn is_enabled(&self, level: Level) -> (enabled: bool)
        ensures
            enabled,
    {
        true
    }
}

} // verus!
