//! The decisions of a boot: whether this is the machine's first boot with
//! this configuration, and which configuration modules still have to run.
use vstd::prelude::*;
use vstd::string::*;

use crate::metadata::instance_id_ops;
use crate::ops::SystemOpView;
use crate::state::{is_module_complete, HeroState};
use crate::text::{chars_of, chars_eq, trim, trim_chars};

verus! {

/// The label of the SEED device.
pub const DEVICE_LABEL: &'static str = "SEED";

/// The configuration file on the SEED device.
pub const CONFIG_FILE_NAME: &'static str = "hero-init.yaml";

/// Whether this boot is the first with this configuration: it is unless the
/// stored instance identifier, white space around it ignored, is the
/// configured one. A missing or unreadable identifier counts as a first
/// boot.
pub fn is_first_boot(stored_instance_id: Option<&str>, instance_id: &str) -> (first: bool)
    ensures
        first == match stored_instance_id {
            None => true,
            Some(s) => trim(s@) != instance_id@,
        },
{
    match stored_instance_id {
        None => true,
        Some(s) => {
            let stored = trim_chars(&chars_of(s));
            let configured = chars_of(instance_id);
            !chars_eq(&stored, &configured)
        },
    }
}

/// A configuration module, in the order modules are applied.
#[derive(Debug, Clone, Copy, PartialEq, Eq)]
pub enum Module {
    Metadata,
    Network,
    Users,
    Runcmd,
}

/// The name under which a module's completion is recorded.
pub open spec fn module_name(m: Module) -> Seq<char> {
    match m {
        Module::Metadata => "metadata"@,
        Module::Network => "network"@,
        Module::Users => "users"@,
        Module::Runcmd => "runcmd"@,
    }
}

/// The name under which a module's completion is recorded.
pub fn module_label(m: Module) -> (s: &'static str)
    ensures
        s@ == module_name(m),
{
    match m {
        Module::Metadata => "metadata",
        Module::Network => "network",
        Module::Users => "users",
        Module::Runcmd => "runcmd",
    }
}

/// The modules still to apply, in order: metadata, network and users unless
/// recorded complete, and the user's commands unless recorded complete or
/// there are none.
pub open spec fn pending_modules(done: Set<Seq<char>>, has_commands: bool) -> Seq<Module> {
    (if done.contains(module_name(Module::Metadata)) {
        Seq::empty()
    } else {
        seq![Module::Metadata]
    }) + (if done.contains(module_name(Module::Network)) {
        Seq::empty()
    } else {
        seq![Module::Network]
    }) + (if done.contains(module_name(Module::Users)) {
        Seq::empty()
    } else {
        seq![Module::Users]
    }) + (if done.contains(module_name(Module::Runcmd)) || !has_commands {
        Seq::empty()
    } else {
        seq![Module::Runcmd]
    })
}

/// The modules a first boot still has to apply.
pub fn modules_to_apply(state: &HeroState, has_commands: bool) -> (ms: Vec<Module>)
    ensures
        ms@ == pending_modules(state@, has_commands),
{
    let mut ms: Vec<Module> = Vec::new();
    if !is_module_complete(state, module_label(Module::Metadata)) {
        ms.push(Module::Metadata);
    }
    if !is_module_complete(state, module_label(Module::Network)) {
        ms.push(Module::Network);
    }
    if !is_module_complete(state, module_label(Module::Users)) {
        ms.push(Module::Users);
    }
    if !is_module_complete(state, module_label(Module::Runcmd)) && has_commands {
        ms.push(Module::Runcmd);
    }
    assert(ms@ =~= pending_modules(state@, has_commands));
    ms
}

/// Applying is idempotent: once every pending module has been recorded
/// complete, nothing is pending any more.
pub proof fn law_nothing_pending_after_completion(done: Set<Seq<char>>, has_commands: bool)
    ensures
        pending_modules(
            done.union(pending_modules(done, has_commands).map_values(|m: Module| module_name(m)).to_set()),
            has_commands,
        ).len() == 0,
{
    let p = pending_modules(done, has_commands);
    let names = p.map_values(|m: Module| module_name(m));
    let after = done.union(names.to_set());
    assert forall|m: Module| p.contains(m) implies after.contains(module_name(m)) by {
        let i = choose|i: int| 0 <= i < p.len() && p[i] == m;
        assert(names[i] == module_name(m));
        assert(names.contains(module_name(m)));
    }
    assert(!done.contains(module_name(Module::Metadata)) ==> p.contains(Module::Metadata)) by {
        if !done.contains(module_name(Module::Metadata)) {
            assert(p[0] == Module::Metadata);
        }
    }
    assert(!done.contains(module_name(Module::Network)) ==> p.contains(Module::Network)) by {
        if !done.contains(module_name(Module::Network)) {
            let k = if done.contains(module_name(Module::Metadata)) { 0int } else { 1int };
            assert(p[k] == Module::Network);
        }
    }
    assert(!done.contains(module_name(Module::Users)) ==> p.contains(Module::Users)) by {
        if !done.contains(module_name(Module::Users)) {
            let k = (if done.contains(module_name(Module::Metadata)) { 0int } else { 1int }) + (if done.contains(module_name(Module::Network)) { 0int } else { 1int });
            assert(p[k] == Module::Users);
        }
    }
    assert(!done.contains(module_name(Module::Runcmd)) && has_commands ==> p.contains(Module::Runcmd)) by {
        if !done.contains(module_name(Module::Runcmd)) && has_commands {
            assert(p.last() == Module::Runcmd);
        }
    }
    assert(pending_modules(after, has_commands) =~= Seq::<Module>::empty());
}

/// Once the metadata module has recorded the instance identifier, a later
/// boot that reads it back is not a first boot, provided the identifier
/// has no white space around it (the stored value is compared trimmed).
pub proof fn law_recorded_instance_ends_first_boot(instance_id: Seq<char>, path: Seq<char>)
    requires
        trim(instance_id) == instance_id,
    ensures
        instance_id_ops(instance_id, path)[1] matches SystemOpView::WriteFile { content, .. } && !(
        trim(content) != instance_id),
{
}

} // verus!
