//! Which configuration modules have already been applied on this machine.
use vstd::prelude::*;
use vstd::string::*;

use crate::ops::{next_op, next_step, op_step_view, ops_view, HeroError, Step, SystemOp, SystemOpView};
use crate::paths;

verus! {

/// The set of completed modules, each name once.
#[derive(Debug)]
pub struct HeroState {
    completed_modules: Vec<String>,
}

/// The names of a list of strings.
pub open spec fn names(v: Seq<String>) -> Seq<Seq<char>> {
    v.map_values(|s: String| s@)
}

proof fn lemma_push_to_set(s: Seq<Seq<char>>, a: Seq<char>)
    ensures
        s.push(a).to_set() == s.to_set().insert(a),
{
    assert forall|x: Seq<char>| #[trigger] s.push(a).contains(x) == s.to_set().insert(a).contains(x) by {
        if s.contains(x) {
            let i = choose|i: int| 0 <= i < s.len() && s[i] == x;
            assert(s.push(a)[i] == x);
        }
        if s.push(a).contains(x) && x != a {
            let i = choose|i: int| 0 <= i < s.push(a).len() && s.push(a)[i] == x;
            assert(s[i] == x);
        }
        if x == a {
            assert(s.push(a)[s.len() as int] == a);
        }
    }
    assert(s.push(a).to_set() =~= s.to_set().insert(a));
}

proof fn lemma_contains_to_set(s: Seq<Seq<char>>, a: Seq<char>)
    ensures
        s.to_set().contains(a) == s.contains(a),
{
}

impl HeroState {
    #[verifier::type_invariant]
    spec fn distinct_names(self) -> bool {
        names(self.completed_modules@).no_duplicates()
    }

    /// The names of the completed modules.
    pub closed spec fn modules(self) -> Set<Seq<char>> {
        names(self.completed_modules@).to_set()
    }

    /// The names of the completed modules in the order they were recorded.
    pub closed spec fn recorded(self) -> Seq<Seq<char>> {
        names(self.completed_modules@)
    }

    /// The completed modules, each once, in the order they were recorded.
    pub fn completed_modules(&self) -> (r: &Vec<String>)
        ensures
            names(r@) == self.recorded(),
            names(r@).to_set() == self.modules(),
            names(r@).no_duplicates(),
    {
        proof {
            use_type_invariant(self);
        }
        &self.completed_modules
    }

    /// A state holding the given module names (repeats count once); a list
    /// without repeats is kept in its order.
    pub fn from_modules(modules: Vec<String>) -> (s: HeroState)
        ensures
            s.modules() == names(modules@).to_set(),
            names(modules@).no_duplicates() ==> s.recorded() == names(modules@),
    {
        let mut s = HeroState { completed_modules: Vec::new() };
        assert(s.modules() =~= names(modules@).take(0).to_set());
        assert(s.recorded() =~= names(modules@).take(0));
        let mut i: usize = 0;
        while i < modules.len()
            invariant
                i <= modules.len(),
                s.modules() == names(modules@).take(i as int).to_set(),
                names(modules@).no_duplicates() ==> s.recorded() == names(modules@).take(i as int),
            decreases modules.len() - i,
        {
            proof {
                if names(modules@).no_duplicates() {
                    assert(!names(modules@).take(i as int).contains(modules@[i as int]@)) by {
                        if names(modules@).take(i as int).contains(modules@[i as int]@) {
                            let k = choose|k: int|
                                0 <= k < i && names(modules@).take(i as int)[k] == modules@[i as int]@;
                            assert(names(modules@)[k] == names(modules@)[i as int]);
                        }
                    }
                    lemma_contains_to_set(names(modules@).take(i as int), modules@[i as int]@);
                }
            }
            mark_module_complete(&mut s, modules[i].as_str());
            assert(names(modules@).take(i + 1) =~= names(modules@).take(i as int).push(
                modules@[i as int]@,
            ));
            proof {
                lemma_push_to_set(names(modules@).take(i as int), modules@[i as int]@);
            }
            i = i + 1;
        }
        assert(names(modules@).take(modules.len() as int) =~= names(modules@));
        s
    }
}

impl View for HeroState {
    type V = Set<Seq<char>>;

    open spec fn view(&self) -> Set<Seq<char>> {
        self.modules()
    }
}

impl Default for HeroState {
    fn default() -> (s: Self)
        ensures
            s@ == Set::<Seq<char>>::empty(),
    {
        let s = HeroState { completed_modules: Vec::new() };
        assert(s@ =~= Set::<Seq<char>>::empty());
        s
    }
}

/// Whether `module` has already been applied.
pub fn is_module_complete(state: &HeroState, module: &str) -> (done: bool)
    ensures
        done == state@.contains(module@),
{
    proof {
        use_type_invariant(state);
    }
    let v = &state.completed_modules;
    let target = String::from_str(module);
    let mut i: usize = 0;
    while i < v.len()
        invariant
            i <= v.len(),
            target@ == module@,
            v@ == state.completed_modules@,
            forall|k: int| 0 <= k < i ==> (#[trigger] v@[k])@ != module@,
        decreases v.len() - i,
    {
        if v[i] == target {
            assert(names(v@)[i as int] == module@);
            assert(names(v@).contains(module@));
            assert(names(v@).to_set().contains(module@));

            return true;
        }
        i = i + 1;
    }
    assert(!names(v@).contains(module@));
    false
}

/// Whether two states record the same modules, whatever the order they were
/// recorded in.
pub fn same_modules(a: &HeroState, b: &HeroState) -> (r: bool)
    ensures
        r == (a@ == b@),
{
    proof {
        use_type_invariant(a);
        use_type_invariant(b);
    }
    let mut i: usize = 0;
    while i < a.completed_modules.len()
        invariant
            i <= a.completed_modules.len(),
            forall|k: int| 0 <= k < i ==> b@.contains((#[trigger] a.completed_modules@[k])@),
        decreases a.completed_modules.len() - i,
    {
        if !is_module_complete(b, a.completed_modules[i].as_str()) {
            assert(a@.contains(a.completed_modules@[i as int]@)) by {
                assert(names(a.completed_modules@)[i as int] == a.completed_modules@[i as int]@);
            }
            return false;
        }
        i = i + 1;
    }
    let mut j: usize = 0;
    while j < b.completed_modules.len()
        invariant
            j <= b.completed_modules.len(),
            forall|k: int| 0 <= k < j ==> a@.contains((#[trigger] b.completed_modules@[k])@),
        decreases b.completed_modules.len() - j,
    {
        if !is_module_complete(a, b.completed_modules[j].as_str()) {
            assert(b@.contains(b.completed_modules@[j as int]@)) by {
                assert(names(b.completed_modules@)[j as int] == b.completed_modules@[j as int]@);
            }
            return false;
        }
        j = j + 1;
    }
    assert forall|m: Seq<char>| a@.contains(m) <==> b@.contains(m) by {
        if a@.contains(m) {
            let k = choose|k: int| 0 <= k < names(a.completed_modules@).len() && names(a.completed_modules@)[k] == m;
            assert(a.completed_modules@[k]@ == m);
        }
        if b@.contains(m) {
            let k = choose|k: int| 0 <= k < names(b.completed_modules@).len() && names(b.completed_modules@)[k] == m;
            assert(b.completed_modules@[k]@ == m);
        }
    }
    assert(a@ =~= b@);
    true
}

impl PartialEq for HeroState {
    fn eq(&self, other: &Self) -> (r: bool) {
        same_modules(self, other)
    }
}

impl vstd::std_specs::cmp::PartialEqSpecImpl for HeroState {
    open spec fn obeys_eq_spec() -> bool {
        true
    }

    open spec fn eq_spec(&self, other: &Self) -> bool {
        self@ == other@
    }
}

/// Records that `module` has been applied; a module not yet recorded is
/// recorded last.
pub fn mark_module_complete(state: &mut HeroState, module: &str)
    ensures
        final(state)@ == old(state)@.insert(module@),
        final(state).recorded() == if old(state)@.contains(module@) {
            old(state).recorded()
        } else {
            old(state).recorded().push(module@)
        },
{
    proof {
        use_type_invariant(&*state);
    }
    if is_module_complete(state, module) {
        assert(old(state)@.insert(module@) =~= old(state)@);
        return;
    }
    let ghost before = names(state.completed_modules@);
    let mut modules: Vec<String> = Vec::new();
    std::mem::swap(&mut modules, &mut state.completed_modules);
    modules.push(String::from_str(module));
    assert(names(modules@) =~= before.push(module@));
    state.completed_modules = modules;
    proof {
        lemma_push_to_set(before, module@);
    }
}

/// What was found where the state is kept.
#[derive(Debug)]
pub enum StoredState {
    /// No state has been saved yet.
    Missing,
    /// The file could not be read for a reason other than its absence; the
    /// kind of the system's error and its message.
    Unreadable(std::io::ErrorKind, String),
    /// The file could not be understood; the reason.
    Invalid(String),
    /// The module names the file lists.
    Found(Vec<String>),
}

/// The state to start from: an empty state when none was saved yet, the
/// saved modules when they could be read, and otherwise the failure.
pub fn load_state(stored: StoredState) -> (r: Result<HeroState, HeroError>)
    ensures
        match stored {
            StoredState::Missing => r matches Ok(s) && s@ == Set::<Seq<char>>::empty(),
            StoredState::Unreadable(k, m) => r matches Err(HeroError::Io(ek, e)) && ek == k && e@
                == m@,
            StoredState::Invalid(m) => r matches Err(HeroError::InvalidData(e)) && e@ == m@,
            StoredState::Found(v) => r matches Ok(s) && s@ == names(v@).to_set() && (names(
                v@,
            ).no_duplicates() ==> s.recorded() == names(v@)),
        },
{
    match stored {
        StoredState::Missing => Ok(HeroState::default()),
        StoredState::Unreadable(k, m) => Err(HeroError::Io(k, m)),
        StoredState::Invalid(m) => Err(HeroError::InvalidData(m)),
        StoredState::Found(v) => Ok(HeroState::from_modules(v)),
    }
}

/// Saving the state: its directory is created and the serialized state
/// replaces the file atomically, readable and writable by the owner only.
pub open spec fn save_ops(serialized: Seq<char>, path: Seq<char>) -> Seq<SystemOpView> {
    seq![
        SystemOpView::CreateParentDir { path },
        SystemOpView::WriteFileAtomic { path, content: serialized, mode: 0o600 },
    ]
}

fn save_plan(serialized: &str, path: &str) -> (ops: Vec<SystemOp>)
    ensures
        ops_view(ops@) == save_ops(serialized@, path@),
{
    let mut ops: Vec<SystemOp> = Vec::new();
    ops.push(SystemOp::CreateParentDir { path: String::from_str(path) });
    ops.push(
        SystemOp::WriteFileAtomic {
            path: String::from_str(path),
            content: String::from_str(serialized),
            mode: 0o600,
        },
    );
    assert(ops_view(ops@) =~= save_ops(serialized@, path@));
    ops
}

/// Saving the serialized state at `path`: once `completed` steps have
/// succeeded and the last report was `last`, the next step of
/// [`save_ops`], or the end of the run; the first failure ends it.
pub fn save_state_with_path(
    serialized: &str,
    path: &str,
    completed: usize,
    last: Option<Result<(), HeroError>>,
) -> (s: Step<SystemOp>)
    ensures
        op_step_view(s) == next_step(save_ops(serialized@, path@), completed as nat, last),
{
    next_op(save_plan(serialized, path), completed, last)
}

/// Saving the serialized state where later boots read it, step by step (see
/// [`save_state_with_path`]).
pub fn save_state(serialized: &str, completed: usize, last: Option<Result<(), HeroError>>) -> (s:
    Step<SystemOp>)
    ensures
        op_step_view(s) == next_step(
            save_ops(serialized@, paths::HERO_STATE_PATH@),
            completed as nat,
            last,
        ),
{
    save_state_with_path(serialized, paths::HERO_STATE_PATH, completed, last)
}

/// Marking a module complete makes it complete and keeps every module that
/// was complete before; nothing else becomes complete.
pub proof fn law_mark_then_complete(before: Set<Seq<char>>, module: Seq<char>, other: Seq<char>)
    ensures
        before.insert(module).contains(module),
        before.contains(other) ==> before.insert(module).contains(other),
        other != module ==> (before.insert(module).contains(other) == before.contains(other)),
        before.insert(module).insert(module) == before.insert(module),
{
    assert(before.insert(module).insert(module) =~= before.insert(module));
}

/// Reading back the module list a state hands out to be saved gives the
/// same state: the same modules, recorded in the same order, so that the list
/// it hands out for saving is the same again. Here `listed` is what
/// [`HeroState::completed_modules`] returned for `saved`, and `loaded` is
/// what [`load_state`] returned for `StoredState::Found(listed)`.
pub proof fn law_saved_modules_load_back(saved: HeroState, listed: Seq<String>, loaded: HeroState)
    requires
        names(listed) == saved.recorded(),
        names(listed).to_set() == saved@,
        names(listed).no_duplicates(),
        loaded@ == names(listed).to_set(),
        names(listed).no_duplicates() ==> loaded.recorded() == names(listed),
    ensures
        loaded@ == saved@,
        loaded.recorded() == saved.recorded(),
{
}

} // verus!
