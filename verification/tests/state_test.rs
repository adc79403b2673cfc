use hero_init::ops::{HeroError, Step, SystemOp};
use hero_init::paths::HERO_STATE_PATH;
use hero_init::state::{
    is_module_complete, load_state, mark_module_complete, save_state, save_state_with_path,
    HeroState, StoredState,
};


fn run_all<F>(mut next: F) -> Vec<SystemOp>
where
    F: FnMut(usize, Option<Result<(), HeroError>>) -> Step<SystemOp>,
{
    let mut ops = Vec::new();
    loop {
        let last = if ops.is_empty() { None } else { Some(Ok(())) };
        match next(ops.len(), last) {
            Step::Perform(op) => ops.push(op),
            Step::Finished(r) => {
                assert!(r.is_ok());
                return ops;
            }
        }
    }
}

fn names(state: &HeroState) -> Vec<String> {
    let mut v: Vec<String> = state.completed_modules().clone();
    v.sort();
    v
}

#[test]
fn test_save_state() {
    let mut state = HeroState::default();
    mark_module_complete(&mut state, "test_module");

    let ops = run_all(|d, l| {
        save_state_with_path("completed_modules:\n- test_module\n", "/tmp/x/test_state.yaml", d, l)
    });
    assert_eq!(
        ops,
        vec![
            SystemOp::CreateParentDir { path: "/tmp/x/test_state.yaml".to_string() },
            SystemOp::WriteFileAtomic {
                path: "/tmp/x/test_state.yaml".to_string(),
                content: "completed_modules:\n- test_module\n".to_string(),
                mode: 0o600,
            },
        ]
    );
    assert!(!is_module_complete(&state, "unmarked"));
    assert!(is_module_complete(&state, "test_module"));
}

#[test]
fn test_is_module_complete() {
    let mut state = HeroState::default();
    assert!(!is_module_complete(&state, "metadata"));
    mark_module_complete(&mut state, "metadata");
    assert!(is_module_complete(&state, "metadata"));
}

#[test]
fn test_mark_module_complete() {
    let mut state = HeroState::default();
    mark_module_complete(&mut state, "network");
    assert!(state.completed_modules().iter().any(|m| m == "network"));
}

#[test]
fn mark_twice_records_once() {
    let mut state = HeroState::default();
    mark_module_complete(&mut state, "users");
    mark_module_complete(&mut state, "users");
    mark_module_complete(&mut state, "network");
    assert_eq!(names(&state), vec!["network".to_string(), "users".to_string()]);
    assert!(is_module_complete(&state, "users"));
    assert!(!is_module_complete(&state, "user"));
    assert!(!is_module_complete(&state, "userss"));
}

#[test]
fn test_load_state_default() {
    let state = load_state(StoredState::Missing).unwrap();
    assert!(state.completed_modules().is_empty());
    assert_eq!(state, HeroState::default());
}

#[test]
fn test_load_state_from_file() {
    let mut sample_state = HeroState::default();
    mark_module_complete(&mut sample_state, "metadata");
    let state = load_state(StoredState::Found(vec!["metadata".to_string()])).unwrap();
    assert!(state.completed_modules().iter().any(|m| m == "metadata"));
    assert_eq!(state, sample_state);
}

#[test]
fn load_found_state_keeps_each_module_once() {
    let state = load_state(StoredState::Found(vec![
        "metadata".to_string(),
        "network".to_string(),
        "metadata".to_string(),
    ]))
    .unwrap();
    assert_eq!(names(&state), vec!["metadata".to_string(), "network".to_string()]);
    assert!(is_module_complete(&state, "metadata"));
    assert!(!is_module_complete(&state, "users"));
}

#[test]
fn test_load_state_invalid_yaml() {
    let result = load_state(StoredState::Invalid("invalid type: string".to_string()));
    assert!(result.is_err());
    assert_eq!(result.unwrap_err(), HeroError::InvalidData("invalid type: string".to_string()));
}

#[test]
fn unreadable_state_is_an_error() {
    assert_eq!(
        load_state(StoredState::Unreadable(
            std::io::ErrorKind::PermissionDenied,
            "permission denied".to_string()
        ))
        .unwrap_err(),
        HeroError::Io(std::io::ErrorKind::PermissionDenied, "permission denied".to_string())
    );
}

#[test]
fn states_compare_as_sets() {
    let mut a = HeroState::default();
    mark_module_complete(&mut a, "network");
    mark_module_complete(&mut a, "users");
    let mut b = HeroState::default();
    mark_module_complete(&mut b, "users");
    mark_module_complete(&mut b, "network");
    assert_eq!(a, b);
    mark_module_complete(&mut b, "runcmd");
    assert_ne!(a, b);
}

#[test]
fn save_state_uses_the_state_file() {
    let ops = run_all(|d, l| save_state("x", d, l));
    assert_eq!(ops.len(), 2);
    assert_eq!(
        ops[1],
        SystemOp::WriteFileAtomic {
            path: HERO_STATE_PATH.to_string(),
            content: "x".to_string(),
            mode: 0o600
        }
    );
    assert_eq!(HERO_STATE_PATH, "/var/lib/hero-init/state");
}

#[test]
fn saved_modules_load_back() {
    let mut state = HeroState::default();
    mark_module_complete(&mut state, "network");
    mark_module_complete(&mut state, "users");
    mark_module_complete(&mut state, "network");
    let listed = state.completed_modules().clone();
    assert_eq!(listed, vec!["network".to_string(), "users".to_string()]);

    let mut doc = serde_yaml::Mapping::new();
    let items = listed.iter().map(|m| serde_yaml::Value::String(m.clone())).collect();
    doc.insert(
        serde_yaml::Value::String("completed_modules".to_string()),
        serde_yaml::Value::Sequence(items),
    );
    let text = serde_yaml::to_string(&doc).unwrap();
    let parsed: serde_yaml::Mapping = serde_yaml::from_str(&text).unwrap();
    let read: Vec<String> = parsed
        .get("completed_modules")
        .and_then(|v| v.as_sequence())
        .unwrap()
        .iter()
        .map(|v| v.as_str().unwrap().to_string())
        .collect();

    let loaded = load_state(StoredState::Found(read)).unwrap();
    assert!(loaded == state);
    assert_eq!(loaded.completed_modules(), state.completed_modules());
}
