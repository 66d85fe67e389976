//! The arguments of one invocation, once the command line is parsed.

use crate::stem::text_view;
use vstd::prelude::*;

verus! {

/// What the invocation asks for.
#[derive(Clone, Copy, Debug, PartialEq, Eq, Structural)]
pub enum Mode {
    /// Copy the matching files into the destination.
    Copy,
    /// Report the files of the copying directory that have no namesake.
    Report,
}

/// Why the arguments cannot be followed.
#[derive(Clone, Copy, Debug, PartialEq, Eq, Structural)]
pub enum ArgsError {
    /// The report goes to the log, so it cannot be asked for with the log
    /// switched off.
    ReportWithoutLogs,
}

/// The parsed arguments.
#[derive(Debug, PartialEq, Eq)]
pub struct Args {
    copy: Option<String>,
    compare: Option<String>,
    destination: Option<String>,
    log_diff: bool,
    logs_disabled: bool,
}

/// What the contracts say of `Args`.
pub struct ArgsView {
    pub copy: Option<Seq<char>>,
    pub compare: Option<Seq<char>>,
    pub destination: Option<Seq<char>>,
    pub log_diff: bool,
    pub logs_disabled: bool,
}

/// The destination that is used where none is given.
pub open spec fn default_destination() -> Seq<char> {
    "copy_dest"@
}

impl View for Args {
    type V = ArgsView;

    closed spec fn view(&self) -> ArgsView {
        ArgsView {
            copy: text_view(self.copy),
            compare: text_view(self.compare),
            destination: text_view(self.destination),
            log_diff: self.log_diff,
            logs_disabled: self.logs_disabled,
        }
    }
}

impl Args {
    /// The arguments as they were given: the copying directory, the
    /// comparing directory, the destination, and the two flags.
    pub fn new(
        copy: Option<String>,
        compare: Option<String>,
        destination: Option<String>,
        log_diff: bool,
        logs_disabled: bool,
    ) -> (args: Args)
        ensures
            args@ == (ArgsView {
                copy: text_view(copy),
                compare: text_view(compare),
                destination: text_view(destination),
                log_diff,
                logs_disabled,
            }),
    {
        Args { copy, compare, destination, log_diff, logs_disabled }
    }

    /// Whether a copying directory was given.
    pub fn has_copy(&self) -> (given: bool)
        ensures
            given == self@.copy is Some,
    {
        self.copy.is_some()
    }

    /// Whether a comparing directory was given.
    pub fn has_compare(&self) -> (given: bool)
        ensures
            given == self@.compare is Some,
    {
        self.compare.is_some()
    }

    /// The copying directory. It must have been given.
    pub fn get_copy(&self) -> (path: &String)
        requires
            self@.copy is Some,
        ensures
            Some(path@) == self@.copy,
    {
        self.copy.as_ref().unwrap()
    }

    /// The comparing directory. It must have been given.
    pub fn get_compare(&self) -> (path: &String)
        requires
            self@.compare is Some,
        ensures
            Some(path@) == self@.compare,
    {
        self.compare.as_ref().unwrap()
    }

    /// The destination: the one that was given, else `copy_dest`.
    pub fn get_dest(&self) -> (path: String)
        ensures
            path@ == match self@.destination {
                Some(given) => given,
                None => default_destination(),
            },
    {
        match &self.destination {
            Some(path) => path.clone(),
            None => String::from_str("copy_dest"),
        }
    }

    /// Whether the missing files are to be reported in place of a copy.
    pub fn log_diff_flag(&self) -> (flag: bool)
        ensures
            flag == self@.log_diff,
    {
        self.log_diff
    }

    /// Whether the log is switched off.
    pub fn logs_disabled_flag(&self) -> (flag: bool)
        ensures
            flag == self@.logs_disabled,
    {
        self.logs_disabled
    }

    /// What the invocation asks for, or why it cannot be followed.
    pub fn mode(&self) -> (mode: Result<Mode, ArgsError>)
        ensures
            mode == if self@.log_diff && self@.logs_disabled {
                Err::<Mode, ArgsError>(ArgsError::ReportWithoutLogs)
            } else if self@.log_diff {
                Ok(Mode::Report)
            } else {
                Ok(Mode::Copy)
            },
    {
        if self.log_diff && self.logs_disabled {
            Err(ArgsError::ReportWithoutLogs)
        } else if self.log_diff {
            Ok(Mode::Report)
        } else {
            Ok(Mode::Copy)
        }
    }
}

} // verus!
