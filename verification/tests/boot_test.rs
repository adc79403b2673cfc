use hero_init::boot::{is_first_boot, module_label, modules_to_apply, Module};
use hero_init::ops::{HeroError, Step, SystemOp};
use hero_init::state::{mark_module_complete, HeroState};


fn run_all<F>(mut next: F) -> Vec<SystemOp>
where
    F: FnMut(usize, Option<Result<(), HeroError>>) -> Step<SystemOp>,
{
    let mut ops = Vec::new();
    loop {
        let last = if ops.is_empty() { None } else { Some(Ok(())) };
        match next(ops.len(), last) {
            Step::Perform(op) => ops.push(op),
            Step::Finished(r) => {
                assert!(r.is_ok());
                return ops;
            }
        }
    }
}

#[test]
fn first_boot_compares_the_trimmed_instance_id() {
    assert!(is_first_boot(None, "hero-001"));
    assert!(!is_first_boot(Some("hero-001\n"), "hero-001"));
    assert!(!is_first_boot(Some("  hero-001 "), "hero-001"));
    assert!(is_first_boot(Some("hero-002"), "hero-001"));
    assert!(is_first_boot(Some(""), "hero-001"));
}

#[test]
fn pending_modules_in_order() {
    let state = HeroState::default();
    assert_eq!(
        modules_to_apply(&state, true),
        vec![Module::Metadata, Module::Network, Module::Users, Module::Runcmd]
    );
    assert_eq!(
        modules_to_apply(&state, false),
        vec![Module::Metadata, Module::Network, Module::Users]
    );
}

#[test]
fn completed_modules_are_not_applied_again() {
    let mut state = HeroState::default();
    for m in modules_to_apply(&state, true) {
        mark_module_complete(&mut state, module_label(m));
    }
    assert!(modules_to_apply(&state, true).is_empty());
    let mut partial = HeroState::default();
    mark_module_complete(&mut partial, "network");
    assert_eq!(
        modules_to_apply(&partial, true),
        vec![Module::Metadata, Module::Users, Module::Runcmd]
    );
}

#[test]
fn recorded_instance_id_ends_first_boot() {
    use_recorded_id("hero-001");
}

fn use_recorded_id(id: &str) {
    let ops = run_all(|d, l| hero_init::metadata::write_instance_id(id, d, l));
    let written = match &ops[1] {
        SystemOp::WriteFile { content, .. } => content.clone(),
        _ => panic!("write expected"),
    };
    assert!(!is_first_boot(Some(&written), id));
    // an identifier with white space around it never matches its trimmed copy
    assert!(is_first_boot(Some(" hero-001 "), " hero-001 "));
}
