use hero_init::config::Metadata;
use hero_init::metadata::{
    apply, hosts_line, set_hostname, update_hosts_file, write_instance_id,
    write_instance_id_with_path,
};
use hero_init::ops::{HeroError, Step, SystemOp};


fn run_all<F>(mut next: F) -> Vec<SystemOp>
where
    F: FnMut(usize, Option<Result<(), HeroError>>) -> Step<SystemOp>,
{
    let mut ops = Vec::new();
    loop {
        let last = if ops.is_empty() { None } else { Some(Ok(())) };
        match next(ops.len(), last) {
            Step::Perform(op) => ops.push(op),
            Step::Finished(r) => {
                assert!(r.is_ok());
                return ops;
            }
        }
    }
}

#[test]
fn test_apply_instance_id() {
    let instance_id = "test-instance-123";
    let ops = run_all(|d, l| write_instance_id_with_path(instance_id, "/tmp/t/instance-id", d, l));
    assert_eq!(
        ops,
        vec![
            SystemOp::CreateParentDir { path: "/tmp/t/instance-id".to_string() },
            SystemOp::WriteFile {
                path: "/tmp/t/instance-id".to_string(),
                content: instance_id.to_string(),
            },
        ]
    );
}

#[test]
fn test_write_hostname_file() {
    let hostname = "test-host";
    let ops = run_all(|d, l| set_hostname(hostname, d, l));
    assert_eq!(
        ops,
        vec![
            SystemOp::WriteFile { path: "/etc/hostname".to_string(), content: hostname.to_string() },
            SystemOp::SetHostname { name: hostname.to_string() },
        ]
    );
}

#[test]
fn test_update_hosts_file() {
    let hostname = "test-host";
    let ops = run_all(|d, l| update_hosts_file(hostname, d, l));
    match &ops[..] {
        [SystemOp::AppendFile { path, content }] => {
            assert_eq!(path, "/etc/hosts");
            assert!(content.contains(&format!("127.0.1.1 {}", hostname)));
            assert_eq!(content, "127.0.1.1 test-host\n");
        }
        _ => panic!("one append expected"),
    }
    assert_eq!(hosts_line("h"), "127.0.1.1 h\n");
}

#[test]
fn metadata_steps_come_in_order() {
    let m = Metadata { instance_id: "instance-123".to_string(), hostname: "test-host".to_string() };
    let mut expected = run_all(|d, l| write_instance_id("instance-123", d, l));
    expected.extend(run_all(|d, l| set_hostname("test-host", d, l)));
    expected.extend(run_all(|d, l| update_hosts_file("test-host", d, l)));
    let ops = run_all(|d, l| apply(&m, d, l));
    assert_eq!(ops, expected);
    assert_eq!(ops.len(), 5);
    assert_eq!(ops[1], SystemOp::WriteFile {
        path: "/var/lib/hero-init/instance-id".to_string(),
        content: "instance-123".to_string(),
    });
}

#[test]
fn failed_hostname_file_means_no_syscall() {
    let denied = || HeroError::Io(std::io::ErrorKind::PermissionDenied, "denied".to_string());
    match set_hostname("h", 0, Some(Err(denied()))) {
        Step::Finished(r) => assert_eq!(r, Err(denied())),
        Step::Perform(_) => panic!("the host name must not be set"),
    }
    let m = Metadata { instance_id: "i".to_string(), hostname: "h".to_string() };
    match apply(&m, 1, Some(Err(denied()))) {
        Step::Finished(r) => assert_eq!(r, Err(denied())),
        Step::Perform(_) => panic!("the first failure ends the run"),
    }
}
