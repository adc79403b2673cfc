//! The user's commands: each runs in a shell, in order, and the first that
//! fails ends the run.
use vstd::prelude::*;
use vstd::string::*;

use crate::config::RunCommand;
use crate::ops::{drive, next_step, HeroError, Step};

verus! {

/// A program run with arguments and extra environment variables, set in
/// order on top of the inherited environment (see [`effective_env`]).
#[derive(Debug)]
pub struct ShellInvocation {
    pub program: String,
    pub args: Vec<String>,
    pub env: Vec<(String, String)>,
}

/// A [`ShellInvocation`] with its strings taken by their characters.
pub struct ShellInvocationView {
    pub program: Seq<char>,
    pub args: Seq<Seq<char>>,
    pub env: Seq<(Seq<char>, Seq<char>)>,
}

/// Environment variables taken by their characters.
pub open spec fn env_view(env: Seq<(String, String)>) -> Seq<(Seq<char>, Seq<char>)> {
    env.map_values(|p: (String, String)| (p.0@, p.1@))
}

impl View for ShellInvocation {
    type V = ShellInvocationView;

    open spec fn view(&self) -> ShellInvocationView {
        ShellInvocationView {
            program: self.program@,
            args: self.args@.map_values(|a: String| a@),
            env: env_view(self.env@),
        }
    }
}

/// The variables an environment list sets, each to its value: variables
/// are set in order, so a name given twice takes its last value.
pub open spec fn effective_env(env: Seq<(Seq<char>, Seq<char>)>) -> Map<Seq<char>, Seq<char>>
    decreases env.len(),
{
    if env.len() == 0 {
        Map::empty()
    } else {
        effective_env(env.drop_last()).insert(env.last().0, env.last().1)
    }
}

/// Running a command line: `sh -c <line>`, with the command's environment
/// variables (none for a plain command line).
pub open spec fn invocation_of(c: RunCommand) -> ShellInvocationView {
    match c {
        RunCommand::Simple(line) => ShellInvocationView {
            program: "sh"@,
            args: seq!["-c"@, line@],
            env: Seq::empty(),
        },
        RunCommand::Structured { cmd, env } => ShellInvocationView {
            program: "sh"@,
            args: seq!["-c"@, cmd@],
            env: env_view(env@),
        },
    }
}

/// The message of a command that ran and failed.
pub open spec fn command_failure() -> Seq<char> {
    "failed to execute command"@
}

/// The message of a command that ran and failed.
pub fn command_failure_message() -> (m: String)
    ensures
        m@ == command_failure(),
{
    String::from_str("failed to execute command")
}

fn copy_env(env: &Vec<(String, String)>) -> (r: Vec<(String, String)>)
    ensures
        env_view(r@) == env_view(env@),
{
    let mut r: Vec<(String, String)> = Vec::new();
    let mut i: usize = 0;
    while i < env.len()
        invariant
            i <= env.len(),
            env_view(r@) == env_view(env@.take(i as int)),
        decreases env.len() - i,
    {
        let (k, v) = &env[i];
        r.push((k.clone(), v.clone()));
        assert(env_view(env@.take(i + 1)) =~= env_view(env@.take(i as int)).push(
            (env@[i as int].0@, env@[i as int].1@),
        ));
        assert(env_view(r@) =~= env_view(env@.take(i + 1)));
        i = i + 1;
    }
    assert(env@.take(env.len() as int) =~= env@);
    r
}

/// How a command is run: `sh -c` with its line and its environment list,
/// in order, so the variables it sets are those the command gives, a name
/// given twice taking its last value.
pub fn shell_invocation(command: &RunCommand) -> (inv: ShellInvocation)
    ensures
        inv@ == invocation_of(*command),
        effective_env(inv@.env) == match *command {
            RunCommand::Simple(_) => Map::<Seq<char>, Seq<char>>::empty(),
            RunCommand::Structured { env, .. } => effective_env(env_view(env@)),
        },
{
    let (line, env) = match command {
        RunCommand::Simple(line) => (line.clone(), Vec::new()),
        RunCommand::Structured { cmd, env } => (cmd.clone(), copy_env(env)),
    };
    let mut args: Vec<String> = Vec::new();
    args.push(String::from_str("-c"));
    args.push(line);
    let inv = ShellInvocation { program: String::from_str("sh"), args, env };
    assert(inv.args@.map_values(|a: String| a@) =~= invocation_of(*command).args);
    assert(env_view(inv.env@) =~= invocation_of(*command).env);
    inv
}

/// How each command is run, in order.
pub open spec fn invocations(commands: Seq<RunCommand>) -> Seq<ShellInvocationView> {
    commands.map_values(|c: RunCommand| invocation_of(c))
}

/// A driver step with the invocation taken by its view.
pub open spec fn step_view(s: Step<ShellInvocation>) -> Step<ShellInvocationView> {
    match s {
        Step::Perform(inv) => Step::Perform(inv@),
        Step::Finished(r) => Step::Finished(r),
    }
}

/// The next command to run once `completed` commands have succeeded and the
/// last report was `last`: the commands run in order and the first failure
/// ends the run with that failure.
pub fn apply(commands: &Vec<RunCommand>, completed: usize, last: Option<Result<(), HeroError>>) -> (s:
    Step<ShellInvocation>)
    ensures
        step_view(s) == next_step(invocations(commands@), completed as nat, last),
{
    let mut plan: Vec<ShellInvocation> = Vec::new();
    let mut i: usize = 0;
    while i < commands.len()
        invariant
            i <= commands.len(),
            plan@.map_values(|v: ShellInvocation| v@) == invocations(commands@.take(i as int)),
        decreases commands.len() - i,
    {
        plan.push(shell_invocation(&commands[i]));
        assert(invocations(commands@.take(i + 1)) =~= invocations(commands@.take(i as int)).push(
            invocation_of(commands@[i as int]),
        ));
        assert(plan@.map_values(|v: ShellInvocation| v@) =~= invocations(commands@.take(i + 1)));
        i = i + 1;
    }
    assert(commands@.take(commands.len() as int) =~= commands@);
    let ghost pv = plan@;
    let ghost last_report = last;
    let s = drive(plan, completed, last);
    proof {
        let views = pv.map_values(|v: ShellInvocation| v@);
        assert(views == invocations(commands@));
        match last_report {
            Some(Err(_)) => {},
            _ => {
                if completed < pv.len() {
                    assert(views[completed as int] == pv[completed as int]@);
                }
            },
        }
    }
    s
}

} // verus!
