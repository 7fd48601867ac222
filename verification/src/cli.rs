//! The command surface the CLI layer drives.
//!
//! The argument parser itself is an external collaborator; what it decides
//! is one of these commands, and the one computation behind it — which
//! address the server binds — is stated and verified here.

use vstd::prelude::*;
use vstd::string::*;

verus! {

/// The possible commands: run the server, or run the migrations and exit.
pub enum Cmd {
    /// Run the server, on a UNIX domain socket when `unix` is set,
    /// listening on `host` or on the default address.
    Run { unix: bool, host: Option<String> },
    /// Run the necessary migrations in the database.
    Migrate {},
}

impl Cmd {
    /// The address a `Run` command binds: the given host, or the default
    /// for the chosen transport.  `Migrate` binds nothing.
    pub fn bind_target(&self) -> (r: Option<String>)
        ensures
            match *self {
                Cmd::Run { unix, host } => match r {
                    Some(a) => match host {
                        Some(h) => a@ == h@,
                        None => a@ == (if unix {
                            "default.socket"@
                        } else {
                            "0.0.0.0:8000"@
                        }),
                    },
                    None => false,
                },
                Cmd::Migrate {  } => r is None,
            },
    {
        match self {
            Cmd::Run { unix, host } => match host {
                Some(h) => Some(h.clone()),
                None => {
                    if *unix {
                        Some(String::from_str("default.socket"))
                    } else {
                        Some(String::from_str("0.0.0.0:8000"))
                    }
                },
            },
            Cmd::Migrate {  } => None,
        }
    }
}

} // verus!
