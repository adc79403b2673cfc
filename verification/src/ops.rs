//! The effects this tool has on the system, described as data, and the
//! driver that hands them out one at a time.
//!
//! The library decides what to do; the program around it performs each
//! operation and reports back how it went.
use vstd::prelude::*;

verus! {

/// std's `io::ErrorKind`, the category of an operating system error; it is
/// carried through unchanged.
#[verifier::external_type_specification]
#[verifier::external_body]
pub struct ExIoErrorKind(std::io::ErrorKind);

/// Why a step failed.
#[derive(Debug, PartialEq, Eq)]
pub enum HeroError {
    /// The operating system refused an operation; the kind of the error
    /// and its message.
    Io(std::io::ErrorKind, String),
    /// A program ran and reported failure; what failed.
    CommandFailed(String),
    /// The named user has no line with a home directory in the user
    /// database.
    UserNotFound(String),
    /// The named user has no line with user and group ids in the user
    /// database.
    NoUserIds(String),
    /// A field that must be a number is not one; the field's text.
    InvalidNumber(String),
    /// A device path with no usable final component.
    InvalidDevice,
    /// A device size file that does not hold a sector count.
    InvalidSize,
    /// Stored data that could not be understood; the reason.
    InvalidData(String),
}

/// One change to the system.
#[derive(Debug, Clone, PartialEq, Eq)]
pub enum SystemOp {
    /// Create a directory and all missing parents.
    CreateDirAll { path: String },
    /// Create the parent directory of a file, with all missing parents.
    CreateParentDir { path: String },
    /// Create or truncate a file and write the content.
    WriteFile { path: String, content: String },
    /// Write the content to a temporary sibling, give it the mode, and
    /// rename it over the file.
    WriteFileAtomic { path: String, content: String, mode: u32 },
    /// Append the content to a file, creating it if needed.
    AppendFile { path: String, content: String },
    /// Set the permission bits of a path.
    SetMode { path: String, mode: u32 },
    /// Set the permission bits and the owner of a path.
    SetOwnerAndMode { path: String, mode: u32, uid: u32, gid: u32 },
    /// Set the kernel's host name.
    SetHostname { name: String },
    /// Run a program; if it does not succeed, the step fails with the message.
    Run { program: String, args: Vec<String>, failure: String },
}

/// A [`SystemOp`] with its strings taken by their characters.
pub enum SystemOpView {
    CreateDirAll { path: Seq<char> },
    CreateParentDir { path: Seq<char> },
    WriteFile { path: Seq<char>, content: Seq<char> },
    WriteFileAtomic { path: Seq<char>, content: Seq<char>, mode: u32 },
    AppendFile { path: Seq<char>, content: Seq<char> },
    SetMode { path: Seq<char>, mode: u32 },
    SetOwnerAndMode { path: Seq<char>, mode: u32, uid: u32, gid: u32 },
    SetHostname { name: Seq<char> },
    Run { program: Seq<char>, args: Seq<Seq<char>>, failure: Seq<char> },
}

impl View for SystemOp {
    type V = SystemOpView;

    open spec fn view(&self) -> SystemOpView {
        match self {
            SystemOp::CreateDirAll { path } => SystemOpView::CreateDirAll { path: path@ },
            SystemOp::CreateParentDir { path } => SystemOpView::CreateParentDir { path: path@ },
            SystemOp::WriteFile { path, content } => SystemOpView::WriteFile {
                path: path@,
                content: content@,
            },
            SystemOp::WriteFileAtomic { path, content, mode } => SystemOpView::WriteFileAtomic {
                path: path@,
                content: content@,
                mode: *mode,
            },
            SystemOp::AppendFile { path, content } => SystemOpView::AppendFile {
                path: path@,
                content: content@,
            },
            SystemOp::SetMode { path, mode } => SystemOpView::SetMode { path: path@, mode: *mode },
            SystemOp::SetOwnerAndMode { path, mode, uid, gid } => SystemOpView::SetOwnerAndMode {
                path: path@,
                mode: *mode,
                uid: *uid,
                gid: *gid,
            },
            SystemOp::SetHostname { name } => SystemOpView::SetHostname { name: name@ },
            SystemOp::Run { program, args, failure } => SystemOpView::Run {
                program: program@,
                args: args@.map_values(|a: String| a@),
                failure: failure@,
            },
        }
    }
}

/// The views of a list of operations.
pub open spec fn ops_view(ops: Seq<SystemOp>) -> Seq<SystemOpView> {
    ops.map_values(|o: SystemOp| o@)
}

/// How a program that was started ended.
#[derive(Debug, PartialEq, Eq)]
pub enum ProcessOutcome {
    /// It could not be started; the kind of the system's error and its
    /// message.
    NotStarted(std::io::ErrorKind, String),
    /// It ran and exited; whether its status was success.
    Exited { success: bool },
}

/// The result of a step that runs a program: it fails when the program could
/// not be started (with the system's message) or did not succeed (with the
/// step's own message).
pub fn command_result(outcome: &ProcessOutcome, failure: &String) -> (r: Result<(), HeroError>)
    ensures
        match outcome {
            ProcessOutcome::NotStarted(k, m) => r matches Err(HeroError::Io(ek, e)) && ek == k
                && e@ == m@,
            ProcessOutcome::Exited { success } => if *success {
                r is Ok
            } else {
                r matches Err(HeroError::CommandFailed(e)) && e@ == failure@
            },
        },
{
    match outcome {
        ProcessOutcome::NotStarted(k, m) => Err(HeroError::Io(*k, m.clone())),
        ProcessOutcome::Exited { success } => {
            if *success {
                Ok(())
            } else {
                Err(HeroError::CommandFailed(failure.clone()))
            }
        },
    }
}

/// What a sequential driver asks for next.
#[derive(Debug)]
pub enum Step<T> {
    /// Perform this item and report how it went.
    Perform(T),
    /// All is done, with this result.
    Finished(Result<(), HeroError>),
}

/// What a driver over `plan` asks for once `completed` items have succeeded
/// and the last report was `last`: a failure ends the run with that failure;
/// otherwise the next item, or success when none is left.
pub open spec fn next_step<T>(
    plan: Seq<T>,
    completed: nat,
    last: Option<Result<(), HeroError>>,
) -> Step<T> {
    match last {
        Some(Err(e)) => Step::Finished(Err(e)),
        _ => if completed < plan.len() {
            Step::Perform(plan[completed as int])
        } else {
            Step::Finished(Ok(()))
        },
    }
}

/// Drives a plan: see [`next_step`].
pub fn drive<T>(plan: Vec<T>, completed: usize, last: Option<Result<(), HeroError>>) -> (s: Step<T>)
    ensures
        s == next_step(plan@, completed as nat, last),
{
    match last {
        Some(Err(e)) => Step::Finished(Err(e)),
        _ => {
            if completed < plan.len() {
                let mut plan = plan;
                let item = plan.swap_remove(completed);
                Step::Perform(item)
            } else {
                Step::Finished(Ok(()))
            }
        },
    }
}

/// A run driven by [`next_step`] performs the plan in order: after `k`
/// successful reports the driver asks for item `k`, a failure report ends the
/// run with that failure, and after every item has succeeded it finishes
/// with success.
pub proof fn law_plan_runs_in_order<T>(plan: Seq<T>, k: nat, e: HeroError)
    ensures
        k < plan.len() ==> next_step(plan, k, Some(Ok(()))) == Step::Perform(plan[k as int]),
        k < plan.len() && k == 0 ==> next_step(plan, k, None) == Step::Perform(plan[0]),
        next_step(plan, k, Some(Err(e))) == Step::<T>::Finished(Err(e)),
        next_step(plan, plan.len(), Some(Ok(()))) == Step::<T>::Finished(Ok(())),
        plan.len() == 0 ==> next_step(plan, 0, None) == Step::<T>::Finished(Ok(())),
{
}

/// A driver step with the operation taken by its view.
pub open spec fn op_step_view(s: Step<SystemOp>) -> Step<SystemOpView> {
    match s {
        Step::Perform(op) => Step::Perform(op@),
        Step::Finished(r) => Step::Finished(r),
    }
}

/// Runs a plan of operations: once `completed` operations have succeeded and
/// the last report was `last`, the next operation to perform, or the end of
/// the run (see [`next_step`]): the operations are performed in order and
/// the first failure ends the run with that failure, later ones skipped.
pub fn next_op(plan: Vec<SystemOp>, completed: usize, last: Option<Result<(), HeroError>>) -> (s: Step<
    SystemOp,
>)
    ensures
        op_step_view(s) == next_step(ops_view(plan@), completed as nat, last),
{
    let ghost pv = plan@;
    let ghost report = last;
    let s = drive(plan, completed, last);
    proof {
        match report {
            Some(Err(_)) => {},
            _ => {
                if completed < pv.len() {
                    assert(ops_view(pv)[completed as int] == pv[completed as int]@);
                }
            },
        }
    }
    s
}

} // verus!
