//! The operation dispatcher: command parsing, validation of the
//! identifying variables read from the invocation environment, and the
//! decisions taken on a delegate run's outcome.
//!
//! Everything here is pure: the caller reads the environment and runs
//! processes, and hands the observed values in as plain data.  A missing
//! required variable therefore fails before any protocol or delegate work
//! can begin.

use vstd::prelude::*;
use crate::types::{Error, ErrorCode, Success, spec_code_value, is_empty_success};

verus! {

/// The four operations of the attachment protocol.
#[derive(Clone, Copy, Debug, PartialEq, Eq, Structural)]
pub enum CniCommand {
    Add,
    Del,
    Check,
    Version,
}

/// Failure to parse a command string.
#[derive(Debug)]
pub enum ParseError {
    InvalidCommand(String),
}

impl ParseError {
    /// The human-readable description of the failure.
    pub fn message(&self) -> (r: String)
        ensures
            (match self {
                ParseError::InvalidCommand(s) => r@ == "Command "@ + s@ + " is not valid"@,
            }),
    {
        match self {
            ParseError::InvalidCommand(s) => {
                let mut t = String::from_str("Command ");
                t.append(s.as_str());
                t.append(" is not valid");
                t
            },
        }
    }
}

/// The command a given string denotes: exactly one of a fixed,
/// case-sensitive closed set, or nothing.
pub open spec fn spec_command(s: Seq<char>) -> Option<CniCommand> {
    if s == "ADD"@ {
        Some(CniCommand::Add)
    } else if s == "DEL"@ {
        Some(CniCommand::Del)
    } else if s == "CHECK"@ {
        Some(CniCommand::Check)
    } else if s == "VERSION"@ {
        Some(CniCommand::Version)
    } else {
        None
    }
}

impl CniCommand {
    /// Parses a command string; any string outside the closed set fails,
    /// and the failure keeps the offending string.
    pub fn try_from(s: String) -> (r: Result<CniCommand, ParseError>)
        ensures
            (match spec_command(s@) {
                Some(c) => r == Ok::<CniCommand, ParseError>(c),
                None => r == Err::<CniCommand, ParseError>(ParseError::InvalidCommand(s)),
            }),
    {
        proof {
            reveal_strlit("ADD");
            reveal_strlit("DEL");
            reveal_strlit("CHECK");
            reveal_strlit("VERSION");
        }
        let st = s.as_str();
        let n = st.unicode_len();
        if n == 3 && st.get_char(0) == 'A' && st.get_char(1) == 'D' && st.get_char(2) == 'D' {
            proof {
                assert(s@ =~= "ADD"@);
            }
            Ok(CniCommand::Add)
        } else if n == 3 && st.get_char(0) == 'D' && st.get_char(1) == 'E' && st.get_char(2)
            == 'L' {
            proof {
                assert(s@ =~= "DEL"@);
            }
            Ok(CniCommand::Del)
        } else if n == 5 && st.get_char(0) == 'C' && st.get_char(1) == 'H' && st.get_char(2) == 'E'
            && st.get_char(3) == 'C' && st.get_char(4) == 'K' {
            proof {
                assert(s@ =~= "CHECK"@);
            }
            Ok(CniCommand::Check)
        } else if n == 7 && st.get_char(0) == 'V' && st.get_char(1) == 'E' && st.get_char(2) == 'R'
            && st.get_char(3) == 'S' && st.get_char(4) == 'I' && st.get_char(5) == 'O'
            && st.get_char(6) == 'N' {
            proof {
                assert(s@ =~= "VERSION"@);
            }
            Ok(CniCommand::Version)
        } else {
            Err(ParseError::InvalidCommand(s))
        }
    }
}

/// The fixed version document: the single supported specification version.
pub fn version() -> (r: String)
    ensures
        r@ == "{\"cniVersion\":\"1.0.0\",\"supportedVersions\":[\"1.0.0\"]}"@,
{
    String::from_str("{\"cniVersion\":\"1.0.0\",\"supportedVersions\":[\"1.0.0\"]}")
}

/// The identifying variables of one invocation, as found (or not found) in
/// the process environment.
pub struct EnvView {
    pub command: Option<String>,
    pub container_id: Option<String>,
    pub netns: Option<String>,
    pub ifname: Option<String>,
    pub args: Option<String>,
    pub path: Option<String>,
}

/// What a validated invocation asks for.
#[derive(Debug)]
pub enum CniPlan {
    /// Run the attach sequence inside the named namespace.
    Attach { netns: String, ifname: String, path: String },
    /// Run the best-effort detach sequence.
    Detach { netns: String, ifname: String, path: String },
    /// State reconciliation is out of scope: report an empty result.
    Check { result: Success },
    /// Report the fixed version document; nothing else is touched.
    Version { document: String },
}

/// A validation failure: an environment-variable error document with the
/// given message and no detail.
pub open spec fn env_var_err(r: Result<CniPlan, Error>, msg: Seq<char>) -> bool {
    &&& r matches Err(e)
    &&& e.code == spec_code_value(ErrorCode::InvalidEnvironmentVars)
    &&& e.msg@ == msg
    &&& e.details is None
}

pub open spec fn command_of(env: &EnvView) -> Option<CniCommand> {
    match env.command {
        Some(c) => spec_command(c@),
        None => None,
    }
}

/// Validates one invocation's environment and returns its plan.
///
/// The version operation is infallible: once the command itself parses as
/// the version request, the fixed document is returned whatever else the
/// environment holds.  Every other operation's validation happens in a
/// fixed order — container id, interface name, search path, then the
/// namespace requirement — and each missing value fails with the
/// protocol's environment-variable error code before any plan is
/// produced, so no protocol or delegate call can have been attempted.
pub fn cni(env: EnvView) -> (r: Result<CniPlan, Error>)
    ensures
        env.command is None ==> env_var_err(r, "CNI_COMMAND was not provided"@),
        (env.command is Some && spec_command(env.command->0@) is None) ==> (match r {
            Err(e) => e.code == spec_code_value(ErrorCode::InvalidEnvironmentVars) && e.msg@
                == "CNI_COMMAND is not valid"@ && (match e.details {
                Some(d) => d@ == "Command "@ + env.command->0@ + " is not valid"@,
                None => false,
            }),
            Ok(_) => false,
        }),
        (command_of(&env) is Some && command_of(&env) != Some(CniCommand::Version)
            && env.container_id is None) ==> env_var_err(r, "CNI_CONTAINERID was not provided"@),
        (command_of(&env) is Some && command_of(&env) != Some(CniCommand::Version)
            && env.container_id is Some && env.ifname is None) ==> env_var_err(
            r,
            "CNI_IFNAME was not provided"@,
        ),
        (command_of(&env) is Some && command_of(&env) != Some(CniCommand::Version)
            && env.container_id is Some && env.ifname is Some && env.path is None)
            ==> env_var_err(r, "CNI_PATH was not provided"@),
        (command_of(&env) is Some && command_of(&env) != Some(CniCommand::Version)
            && env.container_id is Some && env.ifname is Some && env.path is Some && env.netns
            is None) ==> env_var_err(r, "CNI_NETNS is required but was not provided"@),
        (command_of(&env) == Some(CniCommand::Add) && env.container_id is Some && env.ifname
            is Some && env.path is Some && env.netns is Some) ==> r == Ok::<CniPlan, Error>(
            CniPlan::Attach { netns: env.netns->0, ifname: env.ifname->0, path: env.path->0 },
        ),
        (command_of(&env) == Some(CniCommand::Del) && env.container_id is Some && env.ifname
            is Some && env.path is Some && env.netns is Some) ==> r == Ok::<CniPlan, Error>(
            CniPlan::Detach { netns: env.netns->0, ifname: env.ifname->0, path: env.path->0 },
        ),
        (command_of(&env) == Some(CniCommand::Check) && env.container_id is Some && env.ifname
            is Some && env.path is Some && env.netns is Some) ==> (match r {
            Ok(CniPlan::Check { result }) => is_empty_success(&result),
            _ => false,
        }),
        (command_of(&env) == Some(CniCommand::Version)) ==> (match r {
            Ok(CniPlan::Version { document }) => document@
                == "{\"cniVersion\":\"1.0.0\",\"supportedVersions\":[\"1.0.0\"]}"@,
            _ => false,
        }),
{
    let EnvView { command, container_id, netns, ifname, args, path } = env;
    let command = match command {
        Some(c) => c,
        None => {
            return Err(
                Error::new(
                    ErrorCode::InvalidEnvironmentVars,
                    String::from_str("CNI_COMMAND was not provided"),
                    None,
                ),
            );
        },
    };
    let command = match CniCommand::try_from(command) {
        Ok(c) => c,
        Err(e) => {
            let detail = e.message();
            return Err(
                Error::new(
                    ErrorCode::InvalidEnvironmentVars,
                    String::from_str("CNI_COMMAND is not valid"),
                    Some(detail),
                ),
            );
        },
    };
    if let CniCommand::Version = command {
        return Ok(CniPlan::Version { document: version() });
    }
    if container_id.is_none() {
        return Err(
            Error::new(
                ErrorCode::InvalidEnvironmentVars,
                String::from_str("CNI_CONTAINERID was not provided"),
                None,
            ),
        );
    }
    let ifname = match ifname {
        Some(i) => i,
        None => {
            return Err(
                Error::new(
                    ErrorCode::InvalidEnvironmentVars,
                    String::from_str("CNI_IFNAME was not provided"),
                    None,
                ),
            );
        },
    };
    let path = match path {
        Some(p) => p,
        None => {
            return Err(
                Error::new(
                    ErrorCode::InvalidEnvironmentVars,
                    String::from_str("CNI_PATH was not provided"),
                    None,
                ),
            );
        },
    };
    let _ = args;
    let netns = match netns {
        Some(n) => n,
        None => {
            return Err(
                Error::new(
                    ErrorCode::InvalidEnvironmentVars,
                    String::from_str("CNI_NETNS is required but was not provided"),
                    None,
                ),
            );
        },
    };
    match command {
        CniCommand::Add => Ok(CniPlan::Attach { netns, ifname, path }),
        CniCommand::Del => Ok(CniPlan::Detach { netns, ifname, path }),
        _ => Ok(CniPlan::Check { result: Success::default() }),
    }
}

/// What the caller observed of one delegate run.
pub enum IpamRun {
    /// The configuration names no delegate; nothing was run.
    NoDelegate,
    /// The delegate could not be started or written to; the detail text
    /// says why.
    SpawnFailed(String),
    /// The delegate exited successfully; its output parsed as a result
    /// document, or failed to parse with the given detail text.
    ExitOk(Result<Success, String>),
    /// The delegate exited with a failure; its output parsed as an error
    /// document, or failed to parse with the given detail text.
    ExitErr(Result<Error, String>),
}

/// An internal delegate-invocation error document with the given detail.
pub open spec fn ipam_err(r: Result<Success, Error>, details: Option<String>) -> bool {
    &&& r matches Err(e)
    &&& e.code == 101
    &&& e.msg@ == "IPAM Error"@
    &&& e.details == details
}

/// Decides the outcome of one delegate run.  When a result document is
/// expected it is taken verbatim, and a delegate-reported error propagates
/// with its own code; everything that went wrong on the way to or from the
/// delegate is wrapped as a delegate-invocation error.
pub fn ipam_outcome(run: IpamRun, parse_result: bool) -> (r: Result<Success, Error>)
    ensures
        (match run {
            IpamRun::NoDelegate => (match r {
                Ok(s) => is_empty_success(&s),
                Err(_) => false,
            }),
            IpamRun::SpawnFailed(d) => ipam_err(r, Some(d)),
            IpamRun::ExitOk(out) => if parse_result {
                (match out {
                    Ok(s) => r == Ok::<Success, Error>(s),
                    Err(d) => ipam_err(r, Some(d)),
                })
            } else {
                (match r {
                    Ok(s) => is_empty_success(&s),
                    Err(_) => false,
                })
            },
            IpamRun::ExitErr(out) => if parse_result {
                (match out {
                    Ok(e) => r == Err::<Success, Error>(e),
                    Err(d) => ipam_err(r, Some(d)),
                })
            } else {
                ipam_err(r, None)
            },
        }),
{
    proof {
        reveal_strlit("IPAM Error");
    }
    match run {
        IpamRun::NoDelegate => Ok(Success::default()),
        IpamRun::SpawnFailed(d) => Err(
            Error::new_custom(101, String::from_str("IPAM Error"), Some(d)),
        ),
        IpamRun::ExitOk(out) => {
            if parse_result {
                match out {
                    Ok(s) => Ok(s),
                    Err(d) => Err(Error::new_custom(101, String::from_str("IPAM Error"), Some(d))),
                }
            } else {
                Ok(Success::default())
            }
        },
        IpamRun::ExitErr(out) => {
            if parse_result {
                match out {
                    Ok(e) => Err(e),
                    Err(d) => Err(Error::new_custom(101, String::from_str("IPAM Error"), Some(d))),
                }
            } else {
                Err(Error::new_custom(101, String::from_str("IPAM Error"), None))
            }
        },
    }
}

} // verus!
