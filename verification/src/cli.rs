//! The decisions of the command line.

use crate::config;
use crate::config::Config;
use crate::text::join3;
use vstd::prelude::*;

verus! {

/// What the program is to do.
#[derive(Debug, Clone, Copy, PartialEq, Eq, Structural)]
pub enum Mode {
    /// Write a sample configuration.
    Init,
    /// Explain the command line.
    Help,
    /// Run the proxy.
    Serve,
    /// Run the configuration editor.
    Admin,
}

/// What the flags ask for. `init` goes before the others, and without any flag
/// the command line is explained.
pub fn choose_mode(serve: bool, admin: bool, init: bool) -> (r: Mode)
    ensures
        r == if init {
            Mode::Init
        } else if serve {
            Mode::Serve
        } else if admin {
            Mode::Admin
        } else {
            Mode::Help
        },
{
    if init {
        Mode::Init
    } else if serve {
        Mode::Serve
    } else if admin {
        Mode::Admin
    } else {
        Mode::Help
    }
}

/// What the creation of the settings file comes to.
pub enum InitStep {
    /// The place of the file is not known.
    NoDirectory,
    /// There is a file already, which is left alone.
    AlreadyExists,
    /// This configuration is to be written.
    Write(Config),
}

/// Decides on the creation of the settings file. `present` says whether the file
/// is there, or is `None` where its place is not known.
pub fn run_init(present: Option<bool>) -> (r: InitStep)
    ensures
        match present {
            None => r is NoDirectory,
            Some(true) => r is AlreadyExists,
            Some(false) => r is Write && r->Write_0@ == seq![config::sample_backend()],
        },
{
    match present {
        None => InitStep::NoDirectory,
        Some(there) => if there {
            InitStep::AlreadyExists
        } else {
            InitStep::Write(Config::sample())
        },
    }
}

/// The message for an address that cannot be bound to.
pub fn bind_error(bind: &str, error: &str) -> (r: String)
    ensures
        r@ == "invalid --bind address '"@ + bind@ + "': "@ + error@,
{
    let mut out = join3("invalid --bind address '", bind, "': ");
    out.append(error);
    out
}

} // verus!
