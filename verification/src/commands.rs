//! Gateway commands: which configured program a command request runs.
use vstd::prelude::*;

use crate::gw;

verus! {

/// Why a command request cannot be run.
#[derive(Clone, Debug)]
pub enum CommandError {
    /// No command of this name is configured.
    NotConfigured(String),
    /// The command is configured without a program to run.
    NoArguments(String),
}

pub open spec fn not_configured_message(name: Seq<char>) -> Seq<char> {
    "Command '"@ + name + "' is not configured"@
}

pub open spec fn no_arguments_message(name: Seq<char>) -> Seq<char> {
    "Command '"@ + name + "' has no arguments"@
}

impl CommandError {
    /// The error as text.
    pub fn message(&self) -> (res: String)
        ensures
            res@ == match self {
                CommandError::NotConfigured(n) => not_configured_message(n@),
                CommandError::NoArguments(n) => no_arguments_message(n@),
            },
    {
        let mut s = String::from_str("Command '");
        match self {
            CommandError::NotConfigured(n) => {
                s.append(n.as_str());
                s.append("' is not configured");
            },
            CommandError::NoArguments(n) => {
                s.append(n.as_str());
                s.append("' has no arguments");
            },
        }
        s
    }
}

/// The index of the first configured command with this name, searching from `i`.
pub open spec fn command_index(commands: Seq<(String, Vec<String>)>, name: Seq<char>, i: int) -> Option<
    int,
>
    decreases commands.len() - i,
{
    if i < 0 || i >= commands.len() {
        None
    } else if commands[i].0@ == name {
        Some(i)
    } else {
        command_index(commands, name, i + 1)
    }
}

proof fn lemma_command_index(commands: Seq<(String, Vec<String>)>, name: Seq<char>, i: int)
    requires
        0 <= i,
    ensures
        command_index(commands, name, i) matches Some(j) ==> i <= j < commands.len()
            && commands[j].0@ == name,
    decreases commands.len() - i,
{
    if i < commands.len() && commands[i].0@ != name {
        lemma_command_index(commands, name, i + 1);
    }
}

/// The arguments configured for a command: the program, then its arguments.
///
/// `commands` pairs each command name with its arguments; the first pair with
/// the requested name counts.
pub fn command_args(commands: &[(String, Vec<String>)], name: &str) -> (res: Result<
    Vec<String>,
    CommandError,
>)
    ensures
        match command_index(commands@, name@, 0) {
            None => res matches Err(CommandError::NotConfigured(n)) && n@ == name@,
            Some(i) => if commands[i].1.len() == 0 {
                res matches Err(CommandError::NoArguments(n)) && n@ == name@
            } else {
                res matches Ok(args) && args@ == commands[i].1@
            },
        },
{
    let target = String::from_str(name);
    let mut i: usize = 0;
    while i < commands.len()
        invariant
            i <= commands.len(),
            target@ == name@,
            command_index(commands@, name@, 0) == command_index(commands@, name@, i as int),
        decreases commands.len() - i,
    {
        if commands[i].0 == target {
            proof {
                lemma_command_index(commands@, name@, 0);
            }
            if commands[i].1.len() == 0 {
                return Err(CommandError::NoArguments(target));
            }
            let args = commands[i].1.clone();
            assert(args@ =~= commands[i as int].1@);
            return Ok(args);
        }
        i = i + 1;
    }
    Err(CommandError::NotConfigured(String::from_str(name)))
}

/// The program to start and the arguments to hand it: the first item, then the
/// rest; nothing to run for an empty list.
pub fn program_and_args(args: &[String]) -> (res: Option<(String, Vec<String>)>)
    ensures
        args.len() == 0 <==> res is None,
        res matches Some((p, rest)) ==> p == args[0] && rest@ == args@.subrange(1, args.len() as int),
{
    if args.len() == 0 {
        return None;
    }
    let mut rest: Vec<String> = Vec::new();
    let mut i: usize = 1;
    while i < args.len()
        invariant
            1 <= i <= args.len(),
            rest@ == args@.subrange(1, i as int),
        decreases args.len() - i,
    {
        rest.push(args[i].clone());
        assert(args@.subrange(1, i + 1) == args@.subrange(1, i as int).push(args@[i as int]));
        i = i + 1;
    }
    Some((args[0].clone(), rest))
}

/// The response to a command request: the output of the run, or the error that
/// stopped it.
pub fn exec_response(req: &gw::GatewayCommandExecRequest, outcome: Result<(Vec<u8>, Vec<u8>), String>) -> (res:
    gw::GatewayCommandExecResponse)
    ensures
        res.gateway_id == req.gateway_id,
        res.exec_id == req.exec_id,
        match outcome {
            Ok((out, err)) => res.stdout == out && res.stderr == err && res.error@.len() == 0,
            Err(e) => res.stdout@.len() == 0 && res.stderr@.len() == 0 && res.error == e,
        },
{
    match outcome {
        Ok((stdout, stderr)) => gw::GatewayCommandExecResponse {
            gateway_id: req.gateway_id.clone(),
            exec_id: req.exec_id,
            stdout,
            stderr,
            error: String::new(),
        },
        Err(error) => gw::GatewayCommandExecResponse {
            gateway_id: req.gateway_id.clone(),
            exec_id: req.exec_id,
            stdout: Vec::new(),
            stderr: Vec::new(),
            error,
        },
    }
}

} // verus!
