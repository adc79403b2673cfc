//! Machine identity: the instance identifier, the host name and the host
//! table entry for it.
use vstd::prelude::*;
use vstd::string::*;

use crate::config::Metadata;
use crate::ops::{next_op, next_step, op_step_view, ops_view, HeroError, Step, SystemOp, SystemOpView};
use crate::paths;

verus! {

/// The host table line that names this machine.
pub open spec fn hosts_entry(hostname: Seq<char>) -> Seq<char> {
    "127.0.1.1 "@ + hostname + "\n"@
}

/// Setting the host name: the host name file holds exactly the name, then
/// the kernel is told the name.
pub open spec fn hostname_ops(hostname: Seq<char>) -> Seq<SystemOpView> {
    seq![
        SystemOpView::WriteFile { path: paths::HOSTNAME_PATH@, content: hostname },
        SystemOpView::SetHostname { name: hostname },
    ]
}

/// Persisting the instance identifier at `path`: its directory is created,
/// then the file holds exactly the identifier.
pub open spec fn instance_id_ops(instance_id: Seq<char>, path: Seq<char>) -> Seq<SystemOpView> {
    seq![
        SystemOpView::CreateParentDir { path },
        SystemOpView::WriteFile { path, content: instance_id },
    ]
}

/// Recording the host name in the host table: its line is appended.
pub open spec fn hosts_ops(hostname: Seq<char>) -> Seq<SystemOpView> {
    seq![SystemOpView::AppendFile { path: paths::HOSTS_FILE_PATH@, content: hosts_entry(hostname) }]
}

fn hostname_plan(hostname: &str) -> (ops: Vec<SystemOp>)
    ensures
        ops_view(ops@) == hostname_ops(hostname@),
{
    let mut ops: Vec<SystemOp> = Vec::new();
    ops.push(
        SystemOp::WriteFile {
            path: String::from_str(paths::HOSTNAME_PATH),
            content: String::from_str(hostname),
        },
    );
    ops.push(SystemOp::SetHostname { name: String::from_str(hostname) });
    assert(ops_view(ops@) =~= hostname_ops(hostname@));
    ops
}

fn instance_id_plan(instance_id: &str, instance_id_path: &str) -> (ops: Vec<SystemOp>)
    ensures
        ops_view(ops@) == instance_id_ops(instance_id@, instance_id_path@),
{
    let mut ops: Vec<SystemOp> = Vec::new();
    ops.push(SystemOp::CreateParentDir { path: String::from_str(instance_id_path) });
    ops.push(
        SystemOp::WriteFile {
            path: String::from_str(instance_id_path),
            content: String::from_str(instance_id),
        },
    );
    assert(ops_view(ops@) =~= instance_id_ops(instance_id@, instance_id_path@));
    ops
}

/// The line appended to the host table for a host name.
pub fn hosts_line(hostname: &str) -> (line: String)
    ensures
        line@ == hosts_entry(hostname@),
{
    let mut line = String::from_str("127.0.1.1 ");
    line.append(hostname);
    line.append("\n");
    line
}

fn hosts_plan(hostname: &str) -> (ops: Vec<SystemOp>)
    ensures
        ops_view(ops@) == hosts_ops(hostname@),
{
    let mut ops: Vec<SystemOp> = Vec::new();
    ops.push(
        SystemOp::AppendFile {
            path: String::from_str(paths::HOSTS_FILE_PATH),
            content: hosts_line(hostname),
        },
    );
    assert(ops_view(ops@) =~= hosts_ops(hostname@));
    ops
}

fn metadata_plan(metadata: &Metadata) -> (ops: Vec<SystemOp>)
    ensures
        ops_view(ops@) == metadata_ops(metadata.instance_id@, metadata.hostname@),
{
    let mut ops = instance_id_plan(metadata.instance_id.as_str(), paths::INSTANCE_ID_PATH);
    let mut host = hostname_plan(metadata.hostname.as_str());
    let mut hosts = hosts_plan(metadata.hostname.as_str());
    let ghost a = ops@;
    let ghost b = host@;
    let ghost c = hosts@;
    ops.append(&mut host);
    ops.append(&mut hosts);
    assert(ops@ == a + b + c);
    assert(ops_view(ops@) =~= ops_view(a) + ops_view(b) + ops_view(c));
    ops
}

/// Applying the metadata: persist the instance identifier, set the host
/// name, then add it to the host table.
pub open spec fn metadata_ops(instance_id: Seq<char>, hostname: Seq<char>) -> Seq<SystemOpView> {
    instance_id_ops(instance_id, paths::INSTANCE_ID_PATH@) + hostname_ops(hostname) + hosts_ops(
        hostname,
    )
}

/// Setting the system host name, step by step: once `completed` steps have
/// succeeded and the last report was `last`, the next step of
/// [`hostname_ops`] or the end of the run. The steps run in order and the
/// first failure ends the run with that failure (a failed file write means
/// the kernel is not told the name).
pub fn set_hostname(hostname: &str, completed: usize, last: Option<Result<(), HeroError>>) -> (s: Step<
    SystemOp,
>)
    ensures
        op_step_view(s) == next_step(hostname_ops(hostname@), completed as nat, last),
{
    next_op(hostname_plan(hostname), completed, last)
}

/// Persisting the instance identifier at `instance_id_path`, step by step
/// (see [`set_hostname`]): a failed directory creation means nothing is
/// written.
pub fn write_instance_id_with_path(
    instance_id: &str,
    instance_id_path: &str,
    completed: usize,
    last: Option<Result<(), HeroError>>,
) -> (s: Step<SystemOp>)
    ensures
        op_step_view(s) == next_step(
            instance_id_ops(instance_id@, instance_id_path@),
            completed as nat,
            last,
        ),
{
    next_op(instance_id_plan(instance_id, instance_id_path), completed, last)
}

/// Persisting the instance identifier where later boots look for it, step
/// by step (see [`set_hostname`]).
pub fn write_instance_id(instance_id: &str, completed: usize, last: Option<Result<(), HeroError>>) -> (s:
    Step<SystemOp>)
    ensures
        op_step_view(s) == next_step(
            instance_id_ops(instance_id@, paths::INSTANCE_ID_PATH@),
            completed as nat,
            last,
        ),
{
    write_instance_id_with_path(instance_id, paths::INSTANCE_ID_PATH, completed, last)
}

/// Adding the host name to the host table, step by step (see
/// [`set_hostname`]).
pub fn update_hosts_file(hostname: &str, completed: usize, last: Option<Result<(), HeroError>>) -> (s:
    Step<SystemOp>)
    ensures
        op_step_view(s) == next_step(hosts_ops(hostname@), completed as nat, last),
{
    next_op(hosts_plan(hostname), completed, last)
}

/// Applying the metadata, step by step: the steps of [`metadata_ops`] in
/// order; the first failure ends the run with that failure and the later
/// steps are not performed.
pub fn apply(metadata: &Metadata, completed: usize, last: Option<Result<(), HeroError>>) -> (s: Step<
    SystemOp,
>)
    ensures
        op_step_view(s) == next_step(
            metadata_ops(metadata.instance_id@, metadata.hostname@),
            completed as nat,
            last,
        ),
{
    next_op(metadata_plan(metadata), completed, last)
}

} // verus!
