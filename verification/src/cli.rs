//! Command-line data model: the benchmark shell flag and the project
//! subcommand shapes. Argument parsing itself is the surrounding
//! program's work; these are the plain values it hands over.

use vstd::prelude::*;

use crate::error::BencherError;

verus! {

pub const UNIX_FLAG: &'static str = "-c";

pub const WINDOWS_FLAG: &'static str = "/C";

/// The platform family the program runs on, passed in explicitly.
#[derive(Debug, Clone, Copy, PartialEq, Eq, Structural)]
pub enum TargetFamily {
    Unix,
    Windows,
    Other,
}

/// The shell flag used to run a benchmark command.
#[derive(Debug, Clone)]
pub enum Flag {
    Unix,
    Windows,
    Custom(String),
}

impl Flag {
    /// A custom shell names its own flag; otherwise the platform family
    /// decides, and an unknown family is an error.
    pub fn try_from(shell: Option<String>, family: TargetFamily) -> (r: Result<Flag, BencherError>)
        ensures
            match shell {
                Some(s) => r matches Ok(Flag::Custom(c)) && c@ == s@,
                None => match family {
                    TargetFamily::Unix => r matches Ok(f) && f is Unix,
                    TargetFamily::Windows => r matches Ok(f) && f is Windows,
                    TargetFamily::Other => r matches Err(e) && e == BencherError::Flag,
                },
            },
    {
        if let Some(shell) = shell {
            Ok(Flag::Custom(shell))
        } else {
            match family {
                TargetFamily::Unix => Ok(Flag::Unix),
                TargetFamily::Windows => Ok(Flag::Windows),
                TargetFamily::Other => Err(BencherError::Flag),
            }
        }
    }

    /// The flag text handed to the shell.
    pub fn as_string(&self) -> (r: String)
        ensures
            match *self {
                Flag::Unix => r@ == UNIX_FLAG@,
                Flag::Windows => r@ == WINDOWS_FLAG@,
                Flag::Custom(ref s) => r@ == s@,
            },
    {
        match self {
            Flag::Unix => UNIX_FLAG.to_owned(),
            Flag::Windows => WINDOWS_FLAG.to_owned(),
            Flag::Custom(s) => s.clone(),
        }
    }
}

/// Backend coordinates as given on the command line.
#[derive(Debug, Clone)]
pub struct CliBackend {
    pub email: Option<String>,
    pub token: Option<String>,
    pub url: Option<String>,
}

/// Project subcommands.
#[derive(Debug, Clone)]
pub enum CliProject {
    Create(CliProjectCreate),
    List(CliProjectList),
    View(CliProjectView),
}

/// Create a project.
#[derive(Debug, Clone)]
pub struct CliProjectCreate {
    pub name: String,
    pub slug: Option<String>,
    pub description: Option<String>,
    pub url: Option<String>,
    pub default: bool,
    pub backend: CliBackend,
}

/// List projects.
#[derive(Debug, Clone)]
pub struct CliProjectList {
    pub backend: CliBackend,
}

/// View a project.
#[derive(Debug, Clone)]
pub struct CliProjectView {
    pub project: String,
    pub backend: CliBackend,
}

} // verus!
