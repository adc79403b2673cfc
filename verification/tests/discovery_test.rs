use hero_init::discovery::{
    capacity_fits, capacity_path, create_partition_table, find_seed_device, format_partition,
    get_disk_capacity, mount_seed, DirEntryName,
};
use hero_init::ops::{HeroError, Step, SystemOp};


fn run_all<F>(mut next: F) -> Vec<SystemOp>
where
    F: FnMut(usize, Option<Result<(), HeroError>>) -> Step<SystemOp>,
{
    let mut ops = Vec::new();
    loop {
        let last = if ops.is_empty() { None } else { Some(Ok(())) };
        match next(ops.len(), last) {
            Step::Perform(op) => ops.push(op),
            Step::Finished(r) => {
                assert!(r.is_ok());
                return ops;
            }
        }
    }
}

fn name(s: &str) -> DirEntryName {
    DirEntryName::Name(s.to_string())
}

#[test]
fn test_find_seed_device_not_found() {
    let entries = vec![name("SEED"), name("boot"), DirEntryName::NotUnicode];
    let device = find_seed_device("NONEXISTENT", &entries);
    assert!(device.is_none());
}

#[test]
fn seed_device_is_the_entry_with_the_label() {
    let entries = vec![name("boot"), DirEntryName::NotUnicode, name("SEED"), name("SEED")];
    assert_eq!(find_seed_device("SEED", &entries), Some(2));
    let entries = vec![name("boot"), DirEntryName::Unreadable, name("SEED")];
    assert_eq!(find_seed_device("SEED", &entries), None);
    assert_eq!(find_seed_device("SEED", &vec![]), None);
}

#[test]
fn capacity_is_sectors_times_512() {
    assert_eq!(capacity_path(Some("sdb")).unwrap(), "/sys/class/block/sdb/size");
    assert_eq!(capacity_path(None).unwrap_err(), HeroError::InvalidDevice);
    assert_eq!(get_disk_capacity("20480\n").unwrap(), 20480 * 512);
    assert_eq!(get_disk_capacity("  +7 ").unwrap(), 7 * 512);
    assert_eq!(get_disk_capacity("12a").unwrap_err(), HeroError::InvalidSize);
    assert_eq!(get_disk_capacity("").unwrap_err(), HeroError::InvalidSize);
    assert_eq!(get_disk_capacity("-1").unwrap_err(), HeroError::InvalidSize);
    assert!(capacity_fits("36028797018963967"));
    assert!(!capacity_fits("36028797018963968"));
    assert!(capacity_fits("junk"));
}

#[test]
fn disk_preparation_commands() {
    let ops = run_all(|d, l| mount_seed("/dev/sdb1", "/run/hero-init/seed", d, l));
    assert_eq!(ops.len(), 2);
    assert_eq!(ops[0], SystemOp::CreateDirAll { path: "/run/hero-init/seed".to_string() });
    assert_eq!(
        ops[1],
        SystemOp::Run {
            program: "mount".to_string(),
            args: vec!["-o", "ro", "/dev/sdb1", "/run/hero-init/seed"].into_iter().map(String::from).collect(),
            failure: "failed to mount seed device".to_string(),
        }
    );
    assert_eq!(
        create_partition_table("/dev/sdb", "gpt"),
        SystemOp::Run {
            program: "parted".to_string(),
            args: vec!["-s", "/dev/sdb", "mklabel", "gpt"].into_iter().map(String::from).collect(),
            failure: "failed to create partition table".to_string(),
        }
    );
    assert_eq!(
        format_partition("/dev/sdb1", "ext4", "SEED"),
        SystemOp::Run {
            program: "mkfs.ext4".to_string(),
            args: vec!["-L", "SEED", "/dev/sdb1"].into_iter().map(String::from).collect(),
            failure: "failed to format partition".to_string(),
        }
    );
}

#[test]
fn failed_directory_creation_means_no_mount() {
    let err = HeroError::Io(std::io::ErrorKind::PermissionDenied, "denied".to_string());
    match mount_seed("/dev/sdb1", "/mnt", 0, Some(Err(err))) {
        Step::Finished(r) => assert_eq!(
            r,
            Err(HeroError::Io(std::io::ErrorKind::PermissionDenied, "denied".to_string()))
        ),
        Step::Perform(_) => panic!("the mount must not run"),
    }
}
