//! The settings that a run is given, and the check of which ones each mode
//! needs.
use vstd::prelude::*;
use crate::campus::Campus;
use crate::modes::ConfigError;

verus! {

/// Which import to build.
#[derive(Clone, Copy, Debug, PartialEq, Eq, PartialOrd, Ord, Hash, Structural)]
pub enum CommandMode {
    /// Course catalogue import from a catalogue file.
    Course,
    /// Made-up user accounts.
    UserSeed,
    /// Enrolment of the users of a file in the given courses.
    UserEnrol,
}

/// The settings of a run.
#[derive(Clone, Debug)]
pub struct Cli {
    pub mode: CommandMode,
    pub courses: Vec<String>,
    pub in_path: Option<String>,
    pub out_path: String,
    pub campus: Campus,
    pub start_date: String,
    pub end_date: String,
    pub dept: Option<String>,
    pub count: usize,
    pub dry_run: bool,
    pub dry_run_show: Option<usize>,
}

/// The first problem with the settings `c`, if any: a preview limit without
/// a dry run, then what the selected mode requires.
pub open spec fn config_problem(c: Cli) -> Option<ConfigError> {
    if c.dry_run_show is Some && !c.dry_run {
        Some(ConfigError::PreviewWithoutDryRun)
    } else {
        match c.mode {
            CommandMode::Course => if c.in_path is None {
                Some(ConfigError::MissingInPath)
            } else if c.dept is None {
                Some(ConfigError::MissingDept)
            } else {
                None
            },
            CommandMode::UserEnrol => if c.in_path is None {
                Some(ConfigError::MissingInPath)
            } else if c.courses@.len() == 0 {
                Some(ConfigError::MissingCourses)
            } else {
                None
            },
            CommandMode::UserSeed => None,
        }
    }
}

impl Cli {
    /// Checks that the settings hold what the selected mode needs.
    pub fn check(&self) -> (r: Result<(), ConfigError>)
        ensures
            match config_problem(*self) {
                None => r is Ok,
                Some(e) => r == Err::<(), ConfigError>(e),
            },
    {
        if self.dry_run_show.is_some() && !self.dry_run {
            return Err(ConfigError::PreviewWithoutDryRun);
        }
        match self.mode {
            CommandMode::Course => {
                if self.in_path.is_none() {
                    Err(ConfigError::MissingInPath)
                } else if self.dept.is_none() {
                    Err(ConfigError::MissingDept)
                } else {
                    Ok(())
                }
            },
            CommandMode::UserEnrol => {
                if self.in_path.is_none() {
                    Err(ConfigError::MissingInPath)
                } else if self.courses.len() == 0 {
                    Err(ConfigError::MissingCourses)
                } else {
                    Ok(())
                }
            },
            CommandMode::UserSeed => Ok(()),
        }
    }
}

} // verus!
