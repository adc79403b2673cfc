//! Finding the SEED device, mounting it, measuring disks and preparing them.
use vstd::prelude::*;
use vstd::string::*;

use crate::ops::{next_op, next_step, op_step_view, ops_view, HeroError, Step, SystemOp, SystemOpView};
use crate::paths;
use crate::text::{chars_of, join_path, parse_unsigned, parse_unsigned_chars, path_join, trim, trim_chars};

verus! {

/// One entry of the by-label directory, as listing it gave it.
#[derive(Debug, Clone, PartialEq, Eq)]
pub enum DirEntryName {
    /// The listing failed at this entry.
    Unreadable,
    /// A name that is not valid Unicode (it cannot equal a label).
    NotUnicode,
    /// The entry's name.
    Name(String),
}

/// The entry is named `label`.
pub open spec fn named(e: DirEntryName, label: Seq<char>) -> bool {
    e matches DirEntryName::Name(n) && n@ == label
}

/// Searching the by-label entries in order for the label: the search stops
/// at the first entry named `label`, or gives up at the first entry that
/// could not be read.
pub open spec fn found_at(entries: Seq<DirEntryName>, label: Seq<char>, i: int) -> bool {
    &&& 0 <= i < entries.len()
    &&& named(entries[i], label)
    &&& forall|j: int| 0 <= j < i ==> !(#[trigger] entries[j] is Unreadable) && !named(entries[j], label)
}

/// The position, among the entries of the by-label directory, of the one
/// named `label`, whose link leads to the device; `None` when no entry has
/// that name or the listing failed before one was reached.
pub fn find_seed_device(label: &str, entries: &Vec<DirEntryName>) -> (r: Option<usize>)
    ensures
        r matches Some(i) ==> found_at(entries@, label@, i as int),
        r is None ==> forall|i: int| !found_at(entries@, label@, i),
{
    let target = String::from_str(label);
    let mut i: usize = 0;
    while i < entries.len()
        invariant
            i <= entries.len(),
            target@ == label@,
            forall|j: int|
                0 <= j < i ==> !(#[trigger] entries@[j] is Unreadable) && !named(entries@[j], label@),
        decreases entries.len() - i,
    {
        match &entries[i] {
            DirEntryName::Unreadable => {
                assert forall|k: int| !found_at(entries@, label@, k) by {
                    if found_at(entries@, label@, k) && k > i {
                        assert(entries@[i as int] is Unreadable);
                    }
                }
                return None;
            },
            DirEntryName::NotUnicode => {},
            DirEntryName::Name(n) => {
                if *n == target {
                    return Some(i);
                }
            },
        }
        i = i + 1;
    }
    None
}

/// The size of a disk sector, in bytes.
pub const SECTOR_SIZE: u64 = 512;

/// The file that gives the size of the named device in sectors.
pub open spec fn size_file_of(device_name: Seq<char>) -> Seq<char> {
    path_join(path_join(paths::DEVICE_CAPACITY_PATH@, device_name), "size"@)
}

/// The file to read for the capacity of a device, given the device path's
/// final component (`None` when the path has none that is valid Unicode).
pub fn capacity_path(device_name: Option<&str>) -> (r: Result<String, HeroError>)
    ensures
        match device_name {
            Some(n) => r matches Ok(p) && p@ == size_file_of(n@),
            None => r matches Err(HeroError::InvalidDevice),
        },
{
    match device_name {
        Some(n) => {
            let dir = join_path(paths::DEVICE_CAPACITY_PATH, n);
            Ok(join_path(dir.as_str(), "size"))
        },
        None => Err(HeroError::InvalidDevice),
    }
}

/// The sector count a size file holds: a decimal `u64`, white space around
/// it ignored.
pub open spec fn sector_count(size_text: Seq<char>) -> Option<nat> {
    parse_unsigned(trim(size_text), 0xffff_ffff_ffff_ffff)
}

/// The size in bytes of the sectors a size file counts fits in a `u64`.
pub open spec fn capacity_fits_u64(size_text: Seq<char>) -> bool {
    sector_count(size_text) matches Some(n) ==> n * 512 <= 0xffff_ffff_ffff_ffff
}

/// Whether the capacity described by a size file fits in a `u64`.
pub fn capacity_fits(size_text: &str) -> (b: bool)
    ensures
        b == capacity_fits_u64(size_text@),
{
    let t = trim_chars(&chars_of(size_text));
    match parse_unsigned_chars(&t, 0xffff_ffff_ffff_ffff) {
        Some(n) => n <= 0xffff_ffff_ffff_ffff / SECTOR_SIZE,
        None => true,
    }
}

/// The capacity in bytes of a disk whose size file holds `size_text`.
pub fn get_disk_capacity(size_text: &str) -> (r: Result<u64, HeroError>)
    requires
        capacity_fits_u64(size_text@),
    ensures
        match sector_count(size_text@) {
            Some(n) => r == Ok::<u64, HeroError>((n * 512) as u64),
            None => r matches Err(HeroError::InvalidSize),
        },
{
    let t = trim_chars(&chars_of(size_text));
    match parse_unsigned_chars(&t, 0xffff_ffff_ffff_ffff) {
        Some(n) => Ok(n * SECTOR_SIZE),
        None => Err(HeroError::InvalidSize),
    }
}

/// Mounting the SEED device read-only at the target, whose directory is
/// created first.
pub open spec fn mount_ops(device: Seq<char>, target: Seq<char>) -> Seq<SystemOpView> {
    seq![
        SystemOpView::CreateDirAll { path: target },
        SystemOpView::Run {
            program: "mount"@,
            args: seq!["-o"@, "ro"@, device, target],
            failure: "failed to mount seed device"@,
        },
    ]
}

fn mount_plan(device: &str, target: &str) -> (ops: Vec<SystemOp>)
    ensures
        ops_view(ops@) == mount_ops(device@, target@),
{
    let mut args: Vec<String> = Vec::new();
    args.push(String::from_str("-o"));
    args.push(String::from_str("ro"));
    args.push(String::from_str(device));
    args.push(String::from_str(target));
    assert(args@.map_values(|a: String| a@) =~= seq!["-o"@, "ro"@, device@, target@]);
    let mut ops: Vec<SystemOp> = Vec::new();
    ops.push(SystemOp::CreateDirAll { path: String::from_str(target) });
    ops.push(
        SystemOp::Run {
            program: String::from_str("mount"),
            args,
            failure: String::from_str("failed to mount seed device"),
        },
    );
    assert(ops_view(ops@) =~= mount_ops(device@, target@));
    ops
}

/// Mounting the SEED device read-only at the target, step by step: once
/// `completed` steps have succeeded and the last report was `last`, the next
/// step of [`mount_ops`] or the end of the run. The steps run in order and
/// the first failure ends the run with that failure, so a failed directory
/// creation means `mount` is not run.
pub fn mount_seed(device: &str, target: &str, completed: usize, last: Option<Result<(), HeroError>>) -> (s:
    Step<SystemOp>)
    ensures
        op_step_view(s) == next_step(mount_ops(device@, target@), completed as nat, last),
{
    next_op(mount_plan(device, target), completed, last)
}

/// The step that writes a new partition table of the given type (`gpt` or
/// `msdos`) on a device, without questions.
pub fn create_partition_table(device: &str, label_type: &str) -> (op: SystemOp)
    ensures
        op@ == (SystemOpView::Run {
            program: "parted"@,
            args: seq!["-s"@, device@, "mklabel"@, label_type@],
            failure: "failed to create partition table"@,
        }),
{
    let mut args: Vec<String> = Vec::new();
    args.push(String::from_str("-s"));
    args.push(String::from_str(device));
    args.push(String::from_str("mklabel"));
    args.push(String::from_str(label_type));
    assert(args@.map_values(|a: String| a@) =~= seq!["-s"@, device@, "mklabel"@, label_type@]);
    SystemOp::Run {
        program: String::from_str("parted"),
        args,
        failure: String::from_str("failed to create partition table"),
    }
}

/// The step that creates a filesystem of the given type with the given label
/// on a partition (`mkfs.<type> -L <label> <partition>`).
pub fn format_partition(partition: &str, fs_type: &str, label: &str) -> (op: SystemOp)
    ensures
        op@ == (SystemOpView::Run {
            program: "mkfs."@ + fs_type@,
            args: seq!["-L"@, label@, partition@],
            failure: "failed to format partition"@,
        }),
{
    let mut program = String::from_str("mkfs.");
    program.append(fs_type);
    let mut args: Vec<String> = Vec::new();
    args.push(String::from_str("-L"));
    args.push(String::from_str(label));
    args.push(String::from_str(partition));
    assert(args@.map_values(|a: String| a@) =~= seq!["-L"@, label@, partition@]);
    SystemOp::Run { program, args, failure: String::from_str("failed to format partition") }
}

} // verus!
