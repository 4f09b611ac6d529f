//! Analysis modules: which of a module's plugins are loaded, where their libraries
//! lie, and the status of each loaded plugin while the module runs them in order.
use crate::seqs::{first_index, key_is, lemma_first_index_at, lemma_first_index_none, lookup};
use crate::text::{append_str, chars_eq, chars_of, copy_string, views};
use vstd::prelude::*;

verus! {

/// Where a module's plugin stands.
#[derive(Debug, Clone, Copy, PartialEq, Eq, Structural)]
pub enum PluginStatus {
    NotStarted,
    Running,
    Completed,
    Failed,
}

/// The names of the enabled plugins among `configs` (name, enabled), in order.
pub open spec fn enabled_names(configs: Seq<(String, bool)>) -> Seq<Seq<char>>
    decreases configs.len(),
{
    if configs.len() == 0 {
        Seq::<Seq<char>>::empty()
    } else {
        let prev = enabled_names(configs.drop_last());
        if configs.last().1 {
            prev.push(configs.last().0@)
        } else {
            prev
        }
    }
}

/// The plugins of a module to load: the enabled ones, in the order of the
/// configuration.
pub fn plugins_to_load(configs: &Vec<(String, bool)>) -> (r: Vec<String>)
    ensures
        views(r@) == enabled_names(configs@),
{
    let mut r: Vec<String> = Vec::new();
    let mut i: usize = 0;
    while i < configs.len()
        invariant
            i <= configs.len(),
            views(r@) == enabled_names(configs@.take(i as int)),
        decreases configs.len() - i,
    {
        proof {
            assert(configs@.take(i + 1).drop_last() =~= configs@.take(i as int));
        }
        if configs[i].1 {
            r.push(copy_string(&configs[i].0));
        }
        i = i + 1;
        proof {
            assert(views(r@) =~= enabled_names(configs@.take(i as int)));
        }
    }
    proof {
        assert(configs@.take(configs@.len() as int) =~= configs@);
    }
    r
}

/// The path of the shared library of the plugin `name`:
/// `./plugins/<name>/target/debug/lib<name>.so`.
pub fn plugin_library_path(name: &str) -> (r: String)
    ensures
        r@ == "./plugins/"@ + name@ + "/target/debug/lib"@ + name@ + ".so"@,
{
    let mut r = String::new();
    append_str(&mut r, "./plugins/");
    append_str(&mut r, name);
    append_str(&mut r, "/target/debug/lib");
    append_str(&mut r, name);
    append_str(&mut r, ".so");
    proof {
        assert(r@ =~= "./plugins/"@ + name@ + "/target/debug/lib"@ + name@ + ".so"@);
    }
    r
}

/// The error with which a module stops when the plugin `name` does not load.
pub open spec fn load_failure_text(name: Seq<char>, cause: Seq<char>) -> Seq<char> {
    "Failed to load plugin "@ + name + ": "@ + cause
}

/// The error with which a module stops when the plugin `name` does not load;
/// `cause` is the description of the loader's error.
pub fn load_failure_message(name: &str, cause: &str) -> (r: String)
    ensures
        r@ == load_failure_text(name@, cause@),
{
    let mut r = String::new();
    append_str(&mut r, "Failed to load plugin ");
    append_str(&mut r, name);
    append_str(&mut r, ": ");
    append_str(&mut r, cause);
    proof {
        assert(r@ =~= "Failed to load plugin "@ + name@ + ": "@ + cause@);
    }
    r
}

/// The predicate "the plugin did not load".
pub open spec fn is_failure() -> spec_fn(Result<(), String>) -> bool {
    |o: Result<(), String>| o is Err
}

/// The description of a load failure.
pub open spec fn failure_cause(o: Result<(), String>) -> Seq<char> {
    match o {
        Err(c) => c@,
        Ok(_) => Seq::empty(),
    }
}

/// The plugins a module holds after loading `names` in order, `outcomes[i]` being
/// the outcome of loading `names[i]` (its error's description when it failed): all
/// of them when every load succeeded; otherwise the load stops at the first failure,
/// whose error is returned.
pub fn loaded_plugins(names: &Vec<String>, outcomes: &Vec<Result<(), String>>) -> (r: Result<Vec<String>, String>)
    requires
        names.len() == outcomes.len(),
    ensures
        match first_index(outcomes@, is_failure()) {
            None => r matches Ok(v) && views(v@) == views(names@),
            Some(i) => r matches Err(m) && m@ == load_failure_text(names@[i]@, failure_cause(outcomes@[i])),
        },
{
    let mut loaded: Vec<String> = Vec::new();
    let mut i: usize = 0;
    while i < names.len()
        invariant
            i <= names.len(),
            names.len() == outcomes.len(),
            views(loaded@) == views(names@).take(i as int),
            forall|j: int| 0 <= j < i ==> !is_failure()(outcomes@[j]),
        decreases names.len() - i,
    {
        match &outcomes[i] {
            Err(cause) => {
                proof {
                    lemma_first_index_at(outcomes@, is_failure(), i as int);
                }
                return Err(load_failure_message(names[i].as_str(), cause.as_str()));
            },
            Ok(()) => {
                let ghost before = loaded@;
                loaded.push(copy_string(&names[i]));
                proof {
                    assert(views(loaded@) =~= views(before).push(names@[i as int]@));
                    assert(views(names@).take(i + 1) =~= views(names@).take(i as int).push(names@[i as int]@));
                }
                i = i + 1;
            },
        }
    }
    proof {
        lemma_first_index_none(outcomes@, is_failure());
        assert(views(names@).take(i as int) =~= views(names@));
    }
    Ok(loaded)
}

/// The error with which a module stops when a plugin's execution fails; `cause` is
/// the description of the plugin's error.
pub fn execution_failure_message(cause: &str) -> (r: String)
    ensures
        r@ == "Plugin execution failed: "@ + cause@,
{
    let mut r = String::new();
    append_str(&mut r, "Plugin execution failed: ");
    append_str(&mut r, cause);
    r
}

/// The status of each loaded plugin of a module, and how many plugins have completed.
pub struct ModuleProgress {
    states: Vec<(String, PluginStatus)>,
    current_plugin_index: usize,
}

/// The abstract progress: each loaded plugin's status, in load order, and the count of
/// completed executions.
pub struct ModuleProgressView {
    pub states: Seq<(Seq<char>, PluginStatus)>,
    pub current_plugin_index: nat,
}

impl View for ModuleProgress {
    type V = ModuleProgressView;

    closed spec fn view(&self) -> ModuleProgressView {
        ModuleProgressView {
            states: self.states@.map_values(|e: (String, PluginStatus)| (e.0@, e.1)),
            current_plugin_index: self.current_plugin_index as nat,
        }
    }
}

/// `states` with the status of `name` set to `status`.
pub open spec fn with_status(
    states: Seq<(Seq<char>, PluginStatus)>,
    name: Seq<char>,
    status: PluginStatus,
) -> Seq<(Seq<char>, PluginStatus)> {
    match first_index(states, key_is::<PluginStatus>(name)) {
        Some(i) => states.update(i, (name, status)),
        None => states,
    }
}

/// The status after an execution: completed when it succeeded, failed otherwise.
pub open spec fn outcome_status(succeeded: bool) -> PluginStatus {
    if succeeded {
        PluginStatus::Completed
    } else {
        PluginStatus::Failed
    }
}

impl ModuleProgress {
    /// The progress of a module whose plugins `loaded` were loaded: each has not
    /// started, and nothing has completed.
    pub fn new(loaded: &Vec<String>) -> (r: Self)
        ensures
            r@.states == views(loaded@).map_values(|n: Seq<char>| (n, PluginStatus::NotStarted)),
            r@.current_plugin_index == 0,
    {
        let mut states: Vec<(String, PluginStatus)> = Vec::new();
        let mut i: usize = 0;
        while i < loaded.len()
            invariant
                i <= loaded.len(),
                states@.len() == i,
                forall|k: int| 0 <= k < i ==> (#[trigger] states@[k]).0@ == loaded@[k]@,
                forall|k: int| 0 <= k < i ==> (#[trigger] states@[k]).1 == PluginStatus::NotStarted,
            decreases loaded.len() - i,
        {
            let ghost before = states@;
            states.push((copy_string(&loaded[i]), PluginStatus::NotStarted));
            assert(states@[i as int].0@ == loaded@[i as int]@);
            assert forall|k: int| 0 <= k < i implies #[trigger] states@[k] == before[k] by {}
            i = i + 1;
        }
        let r = ModuleProgress { states, current_plugin_index: 0 };
        proof {
            assert(r@.states =~= views(loaded@).map_values(
                |n: Seq<char>| (n, PluginStatus::NotStarted),
            ));
        }
        r
    }

    /// The status recorded for `name`.
    pub fn status(&self, name: &str) -> (r: Option<PluginStatus>)
        ensures
            r == lookup(self@.states, name@),
    {
        let nc = chars_of(name);
        match self.find(nc.as_slice()) {
            Some(i) => Some(self.states[i].1),
            None => None,
        }
    }

    /// The number of plugins that have completed.
    pub fn current_plugin_index(&self) -> (r: usize)
        ensures
            r == self@.current_plugin_index,
    {
        self.current_plugin_index
    }

    /// Marks the plugin `name` as running.
    pub fn mark_running(&mut self, name: &str)
        requires
            lookup(old(self)@.states, name@) is Some,
        ensures
            final(self)@.states == with_status(old(self)@.states, name@, PluginStatus::Running),
            final(self)@.current_plugin_index == old(self)@.current_plugin_index,
    {
        self.set_status(name, PluginStatus::Running);
    }

    /// Records the outcome of the execution of `name`: completed, and one more
    /// plugin done, when it succeeded; failed otherwise.
    pub fn record_outcome(&mut self, name: &str, succeeded: bool)
        requires
            lookup(old(self)@.states, name@) is Some,
            old(self)@.current_plugin_index < usize::MAX,
        ensures
            final(self)@.states == with_status(old(self)@.states, name@, outcome_status(succeeded)),
            final(self)@.current_plugin_index == old(self)@.current_plugin_index + (if succeeded {
                1nat
            } else {
                0nat
            }),
    {
        if succeeded {
            self.set_status(name, PluginStatus::Completed);
            self.current_plugin_index = self.current_plugin_index + 1;
        } else {
            self.set_status(name, PluginStatus::Failed);
        }
    }

    fn set_status(&mut self, name: &str, status: PluginStatus)
        ensures
            final(self)@.states == with_status(old(self)@.states, name@, status),
            final(self).current_plugin_index == old(self).current_plugin_index,
    {
        let nc = chars_of(name);
        match self.find(nc.as_slice()) {
            Some(i) => {
                proof {
                    crate::seqs::lemma_first_index(old(self)@.states, key_is::<PluginStatus>(name@));
                }
                let key = copy_string(&self.states[i].0);
                self.states.set(i, (key, status));
                proof {
                    assert(self@.states =~= with_status(old(self)@.states, name@, status));
                }
            },
            None => {},
        }
    }

    /// Position of the entry of `name`.
    fn find(&self, name: &[char]) -> (r: Option<usize>)
        ensures
            r matches Some(i) ==> i < self.states.len(),
            r is Some <==> first_index(self@.states, key_is::<PluginStatus>(name@)) is Some,
            r matches Some(i) ==> first_index(self@.states, key_is::<PluginStatus>(name@)) == Some(
                i as int,
            ),
    {
        let ghost s = self@.states;
        let ghost p = key_is::<PluginStatus>(name@);
        let mut i: usize = 0;
        while i < self.states.len()
            invariant
                i <= self.states.len(),
                s == self@.states,
                s.len() == self.states@.len(),
                p == key_is::<PluginStatus>(name@),
                forall|j: int| 0 <= j < i ==> !p(s[j]),
            decreases self.states.len() - i,
        {
            let k = chars_of(self.states[i].0.as_str());
            if chars_eq(k.as_slice(), name) {
                proof {
                    lemma_first_index_at(s, p, i as int);
                }
                return Some(i);
            }
            i = i + 1;
        }
        proof {
            lemma_first_index_none(s, p);
        }
        None
    }
}

/// Law: the enabled plugins of two configuration lists one after the other are those
/// of the first followed by those of the second: each enabled plugin is loaded once,
/// in order, and each disabled one is not.
pub proof fn law_enabled_names_concat(a: Seq<(String, bool)>, b: Seq<(String, bool)>)
    ensures
        enabled_names(a + b) == enabled_names(a) + enabled_names(b),
    decreases b.len(),
{
    if b.len() == 0 {
        assert(a + b =~= a);
        assert(enabled_names(b) == Seq::<Seq<char>>::empty());
        assert(enabled_names(a) + Seq::<Seq<char>>::empty() =~= enabled_names(a));
    } else {
        law_enabled_names_concat(a, b.drop_last());
        assert((a + b).drop_last() =~= a + b.drop_last());
        assert((a + b).last() == b.last());
        assert(enabled_names(a + b) =~= enabled_names(a) + enabled_names(b));
    }
}

/// Law: one element gives exactly its own part.
pub proof fn law_enabled_names_single(x: (String, bool))
    ensures
        enabled_names(seq![x]) == (if x.1 { seq![x.0@] } else { Seq::<Seq<char>>::empty() }),
{
    assert(seq![x].drop_last() =~= Seq::<(String, bool)>::empty());
    assert(enabled_names(seq![x].drop_last()) == Seq::<Seq<char>>::empty());
    assert(seq![x].last() == x);
    assert(enabled_names(seq![x]) =~= (if x.1 { seq![x.0@] } else { Seq::<Seq<char>>::empty() }));
}

} // verus!
