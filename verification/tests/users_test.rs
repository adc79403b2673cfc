use hero_init::config::User;
use hero_init::ops::{HeroError, ProcessOutcome, Step, SystemOp};
use hero_init::users::{
    add_sudo_rule, add_sudo_rule_with_path, add_system_user, apply, authorized_keys_path,
    get_user_ids, inject_ssh_keys, resolve_home_dir, secure_home, secure_user_home, ssh_dir,
    AccountAction, AccountEvent, UserRequest,
};


fn run_all<F>(mut next: F) -> Vec<SystemOp>
where
    F: FnMut(usize, Option<Result<(), HeroError>>) -> Step<SystemOp>,
{
    let mut ops = Vec::new();
    loop {
        let last = if ops.is_empty() { None } else { Some(Ok(())) };
        match next(ops.len(), last) {
            Step::Perform(op) => ops.push(op),
            Step::Finished(r) => {
                assert!(r.is_ok());
                return ops;
            }
        }
    }
}

const SAMPLE_PASSWD: &str = "testuser:x:1000:1000:Test User:/home/testuser:/bin/bash\n";

fn user(name: &str, sudo: bool) -> User {
    User { name: name.to_string(), ssh_authorized_keys: vec![], groups: vec![], sudo }
}

#[test]
fn test_resolve_home_dir() {
    let home = resolve_home_dir("testuser", SAMPLE_PASSWD).unwrap();
    assert_eq!(home, "/home/testuser");
}

#[test]
fn test_get_user_ids() {
    let (uid, gid) = get_user_ids("testuser", SAMPLE_PASSWD).unwrap();
    assert_eq!(uid, 1000);
    assert_eq!(gid, 1000);
}

#[test]
fn test_add_sudo_rule() {
    let ops = run_all(|d, l| add_sudo_rule_with_path("testuser", "/tmp/sudoers", d, l));
    assert_eq!(
        ops,
        vec![
            SystemOp::CreateDirAll { path: "/tmp/sudoers".to_string() },
            SystemOp::WriteFile {
                path: "/tmp/sudoers/testuser".to_string(),
                content: "testuser ALL=(ALL) NOPASSWD:ALL\n".to_string(),
            },
            SystemOp::SetMode { path: "/tmp/sudoers/testuser".to_string(), mode: 0o440 },
        ]
    );
}

#[test]
fn test_apply_no_users() {
    let users = vec![];
    let result = match apply(&users, 0, None) {
        Step::Finished(r) => r,
        Step::Perform(_) => panic!("there is nothing to configure"),
    };
    assert!(result.is_ok());
}

#[test]
fn users_are_configured_user_by_user() {
    let users = vec![user("alice", true), user("bob", false)];
    let mut seen = Vec::new();
    let mut completed = 0;
    let mut last = None;
    loop {
        match apply(&users, completed, last) {
            Step::Perform(t) => {
                seen.push(t);
                completed += 1;
                last = Some(Ok(()));
            }
            Step::Finished(r) => {
                assert!(r.is_ok());
                break;
            }
        }
    }
    let create = |name: &str| UserRequest::CreateAccount {
        name: name.to_string(),
        shell: "/bin/bash".to_string(),
        groups: vec![],
    };
    let keys = |name: &str| UserRequest::InstallKeys { name: name.to_string(), keys: vec![] };
    let home = |name: &str| UserRequest::SecureHome { name: name.to_string(), has_keys: false };
    assert_eq!(
        seen,
        vec![
            create("alice"),
            keys("alice"),
            home("alice"),
            UserRequest::GrantSudo { name: "alice".to_string() },
            create("bob"),
            keys("bob"),
            home("bob"),
        ]
    );
}

#[test]
fn user_requests_carry_the_shell_groups_and_keys() {
    let u = User {
        name: "carol".to_string(),
        ssh_authorized_keys: vec!["ssh-ed25519 AAAA carol".to_string()],
        groups: vec!["wheel".to_string(), "adm".to_string()],
        sudo: false,
    };
    let users = vec![u];
    let request = |completed: usize| match apply(&users, completed, if completed == 0 { None } else { Some(Ok(())) }) {
        Step::Perform(r) => r,
        Step::Finished(_) => panic!("a request is left"),
    };
    assert_eq!(
        request(0),
        UserRequest::CreateAccount {
            name: "carol".to_string(),
            shell: "/bin/bash".to_string(),
            groups: vec!["wheel".to_string(), "adm".to_string()],
        }
    );
    assert_eq!(
        request(1),
        UserRequest::InstallKeys {
            name: "carol".to_string(),
            keys: vec!["ssh-ed25519 AAAA carol".to_string()],
        }
    );
    assert_eq!(request(2), UserRequest::SecureHome { name: "carol".to_string(), has_keys: true });
    match apply(&users, 3, Some(Ok(()))) {
        Step::Finished(r) => assert!(r.is_ok()),
        Step::Perform(_) => panic!("no sudo was asked"),
    }
}

#[test]
fn a_failed_user_task_ends_the_run() {
    let users = vec![user("alice", false), user("bob", false)];
    let e = || HeroError::UserNotFound("alice".to_string());
    match apply(&users, 1, Some(Err(e()))) {
        Step::Finished(r) => assert_eq!(r, Err(e())),
        Step::Perform(_) => panic!("a failure ends the run"),
    }
}

#[test]
fn existing_user_is_not_created_again() {
    let groups = vec!["sudo".to_string(), "adm".to_string()];
    match add_system_user("john", "/bin/bash", &groups, &AccountEvent::Start) {
        AccountAction::LookUp { program, args } => {
            assert_eq!(program, "id");
            assert_eq!(args, vec!["john".to_string()]);
        }
        _ => panic!("the user must be looked up"),
    }
    match add_system_user(
        "john",
        "/bin/bash",
        &groups,
        &AccountEvent::IdChecked(ProcessOutcome::Exited { success: true }),
    ) {
        AccountAction::Done(r) => assert!(r.is_ok()),
        _ => panic!("an existing user is kept"),
    }
}

#[test]
fn missing_user_is_created_with_groups() {
    let groups = vec!["sudo".to_string(), "adm".to_string()];
    match add_system_user(
        "john",
        "/bin/bash",
        &groups,
        &AccountEvent::IdChecked(ProcessOutcome::Exited { success: false }),
    ) {
        AccountAction::Create { program, args } => {
            assert_eq!(program, "useradd");
            assert_eq!(args, vec!["-m", "-s", "/bin/bash", "-G", "sudo,adm", "john"]);
        }
        _ => panic!("useradd expected"),
    }
    match add_system_user(
        "john",
        "/bin/bash",
        &vec![],
        &AccountEvent::IdChecked(ProcessOutcome::Exited { success: false }),
    ) {
        AccountAction::Create { args, .. } => assert_eq!(args, vec!["-m", "-s", "/bin/bash", "john"]),
        _ => panic!("useradd expected"),
    }
    match add_system_user(
        "john",
        "/bin/bash",
        &vec![],
        &AccountEvent::UserAdded(ProcessOutcome::Exited { success: false }),
    ) {
        AccountAction::Done(r) => assert_eq!(
            r,
            Err(HeroError::CommandFailed("Failed to create user: john".to_string()))
        ),
        _ => panic!("the procedure is over"),
    }
}

#[test]
fn keys_go_under_the_home_directory() {
    let keys = vec!["ssh-ed25519 AAAA one".to_string(), "ssh-rsa BBBB two".to_string()];
    let ops = run_all(|d, l| inject_ssh_keys("testuser", &keys, SAMPLE_PASSWD, d, l));
    assert_eq!(
        ops,
        vec![
            SystemOp::CreateDirAll { path: "/home/testuser/.ssh".to_string() },
            SystemOp::WriteFile {
                path: "/home/testuser/.ssh/authorized_keys".to_string(),
                content: "ssh-ed25519 AAAA one\nssh-rsa BBBB two\n".to_string(),
            },
        ]
    );
    assert!(run_all(|d, l| inject_ssh_keys("nobody", &vec![], "", d, l)).is_empty());
    match inject_ssh_keys("nobody", &keys, SAMPLE_PASSWD, 0, None) {
        Step::Finished(r) => assert_eq!(r, Err(HeroError::UserNotFound("nobody".to_string()))),
        Step::Perform(_) => panic!("an unknown user gets no keys"),
    }
}

#[test]
fn passwd_lookup_takes_the_first_matching_line() {
    let passwd = "root:x:0:0:root:/root:/bin/sh\r\nshort:x:5:6\nshort:x:7:8:s:/home/short:/bin/sh\nbad:x:abc:1:b:/b:/bin/sh";
    assert_eq!(resolve_home_dir("root", passwd).unwrap(), "/root");
    assert_eq!(get_user_ids("root", passwd).unwrap(), (0, 0));
    // a line with four fields counts for the ids but not for the home
    assert_eq!(get_user_ids("short", passwd).unwrap(), (5, 6));
    assert_eq!(resolve_home_dir("short", passwd).unwrap(), "/home/short");
    assert_eq!(
        get_user_ids("bad", passwd).unwrap_err(),
        HeroError::InvalidNumber("abc".to_string())
    );
    assert_eq!(
        get_user_ids("ghost", passwd).unwrap_err(),
        HeroError::NoUserIds("ghost".to_string())
    );
    assert_eq!(get_user_ids("big", "big:x:4294967296:1").unwrap_err(),
        HeroError::InvalidNumber("4294967296".to_string()));
    assert_eq!(get_user_ids("big", "big:x:+4294967295:1").unwrap(), (4294967295, 1));
}

#[test]
fn home_is_secured_for_its_owner() {
    assert_eq!(ssh_dir("/home/a/"), "/home/a/.ssh");
    assert_eq!(authorized_keys_path("/home/a"), "/home/a/.ssh/authorized_keys");
    let ops = run_all(|d, l| secure_home("/home/a", 1001, 1002, true, false, d, l));
    assert_eq!(
        ops,
        vec![
            SystemOp::SetOwnerAndMode { path: "/home/a/.ssh".to_string(), mode: 0o700, uid: 1001, gid: 1002 },
            SystemOp::SetOwnerAndMode { path: "/home/a".to_string(), mode: 0o755, uid: 1001, gid: 1002 },
        ]
    );
    assert_eq!(run_all(|d, l| secure_home("/home/a", 1, 1, false, true, d, l)).len(), 1);
    assert_eq!(run_all(|d, l| secure_home("/home/a", 1, 1, true, true, d, l)).len(), 3);
}

#[test]
fn sudo_rule_goes_to_the_sudoers_directory() {
    let ops = run_all(|d, l| add_sudo_rule("john", d, l));
    assert_eq!(ops[1], SystemOp::WriteFile {
        path: "/etc/sudoers.d/john".to_string(),
        content: "john ALL=(ALL) NOPASSWD:ALL\n".to_string(),
    });
}

#[test]
fn user_home_is_secured_with_the_database_ids() {
    let ops = run_all(|d, l| secure_user_home("testuser", true, SAMPLE_PASSWD, true, d, l));
    assert_eq!(
        ops,
        vec![
            SystemOp::SetOwnerAndMode { path: "/home/testuser/.ssh".to_string(), mode: 0o700, uid: 1000, gid: 1000 },
            SystemOp::SetOwnerAndMode {
                path: "/home/testuser/.ssh/authorized_keys".to_string(),
                mode: 0o600,
                uid: 1000,
                gid: 1000,
            },
            SystemOp::SetOwnerAndMode { path: "/home/testuser".to_string(), mode: 0o755, uid: 1000, gid: 1000 },
        ]
    );
    let ops = run_all(|d, l| secure_user_home("testuser", false, SAMPLE_PASSWD, false, d, l));
    assert_eq!(
        ops,
        vec![SystemOp::SetOwnerAndMode { path: "/home/testuser".to_string(), mode: 0o755, uid: 1000, gid: 1000 }]
    );
}

#[test]
fn securing_an_unknown_user_fails() {
    let finished = |s: Step<SystemOp>| match s {
        Step::Finished(r) => r,
        Step::Perform(_) => panic!("the run must end"),
    };
    assert_eq!(
        finished(secure_user_home("ghost", true, SAMPLE_PASSWD, false, 0, None)),
        Err(HeroError::UserNotFound("ghost".to_string()))
    );
    let passwd = "bad:x:abc:1:b:/home/bad:/bin/sh
";
    assert_eq!(
        finished(secure_user_home("bad", false, passwd, false, 0, None)),
        Err(HeroError::InvalidNumber("abc".to_string()))
    );
    let passwd = "odd:x:1:def:b:/home/odd:/bin/sh
";
    assert_eq!(
        finished(secure_user_home("odd", false, passwd, false, 0, None)),
        Err(HeroError::InvalidNumber("def".to_string()))
    );
}
