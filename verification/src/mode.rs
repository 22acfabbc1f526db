//! How the aggregation program is asked to run: once, or as a daemon that
//! sleeps between runs.

use vstd::prelude::*;
use vstd::string::*;

verus! {

/// The run mode.
#[derive(Clone, Copy, Debug, PartialEq, Eq, Structural)]
pub enum Mode {
    /// One run, then the program ends.
    Once,
    /// Run after run, with `interval` seconds of sleep after each.
    Daemon { interval: i64 },
}

/// What follows a run.
#[derive(Clone, Copy, Debug, PartialEq, Eq, Structural)]
pub enum Next {
    /// The program ends.
    Exit,
    /// The program sleeps, then runs again from the first page.
    Sleep { seconds: i64 },
}

impl Mode {
    /// The mode that the first two arguments of the program ask for. The
    /// word `daemon` asks for the daemon, which needs its interval; any
    /// other first argument, and none, asks for one run.
    pub open spec fn of(word: Option<Seq<char>>, interval: Option<i64>) -> Option<Mode> {
        if word == Some("daemon"@) {
            match interval {
                Some(interval) => Some(Mode::Daemon { interval }),
                None => None,
            }
        } else {
            Some(Mode::Once)
        }
    }

    /// The mode that the first two arguments of the program ask for, the
    /// second already read as a number of seconds; `None` for a daemon
    /// without an interval.
    pub fn from_args(word: Option<&str>, interval: Option<i64>) -> (mode: Option<Mode>)
        ensures
            mode == Mode::of(
                match word {
                    Some(word) => Some(word@),
                    None => None,
                },
                interval,
            ),
    {
        let daemon = match word {
            Some(word) => String::from_str(word) == String::from_str("daemon"),
            None => false,
        };
        if daemon {
            match interval {
                Some(interval) => Some(Mode::Daemon { interval }),
                None => None,
            }
        } else {
            Some(Mode::Once)
        }
    }

    /// What follows a run in this mode.
    pub fn after_run(&self) -> (next: Next)
        ensures
            next == match *self {
                Mode::Once => Next::Exit,
                Mode::Daemon { interval } => Next::Sleep { seconds: interval },
            },
    {
        match self {
            Mode::Once => Next::Exit,
            Mode::Daemon { interval } => Next::Sleep { seconds: *interval },
        }
    }
}

} // verus!
