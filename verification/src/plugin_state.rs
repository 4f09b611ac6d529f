//! The plugin scheduler's state: registered plugins, running plugins, and which
//! plugins may start next.
use crate::plugin_types::{ExecutionMode, PluginEvent, PluginRequirements, PluginType};
use crate::seqs::{
    distinct_keys, first_index, insert_entry, key_is, lemma_first_index, lemma_first_index_at,
    lemma_first_index_none, lemma_insert_entry_distinct, lemma_remove_entry_distinct, lookup,
    remove_entry,
};
use crate::text::{chars_eq, chars_of, copy_string};
use vstd::prelude::*;

verus! {

/// The abstract state: registered plugins and running plugins, each keyed by id,
/// in the order in which they were first entered.
pub struct PluginStateView {
    pub plugins: Seq<(Seq<char>, PluginRequirements)>,
    pub running: Seq<(Seq<char>, PluginType)>,
}

/// Registered plugins and the plugins that currently run.
pub struct PluginState {
    plugins: Vec<(String, PluginRequirements)>,
    running: Vec<(String, PluginType)>,
}

impl View for PluginState {
    type V = PluginStateView;

    closed spec fn view(&self) -> PluginStateView {
        PluginStateView {
            plugins: self.plugins@.map_values(|e: (String, PluginRequirements)| (e.0@, e.1)),
            running: self.running@.map_values(|e: (String, PluginType)| (e.0@, e.1)),
        }
    }
}

/// The predicate "the plugin's mode is `Exclusive`".
pub open spec fn is_exclusive_entry() -> spec_fn((Seq<char>, PluginRequirements)) -> bool {
    |e: (Seq<char>, PluginRequirements)| e.1.execution_mode is Exclusive
}

/// Whether `ids` holds the id `id`.
pub open spec fn names(ids: Seq<String>, id: Seq<char>) -> bool {
    exists|k: int| 0 <= k < ids.len() && #[trigger] ids[k]@ == id
}

/// Whether a plugin in mode `a` and one in mode `b` may run at the same time: an
/// exclusive plugin runs with no other, sequential plugins run one at a time, and a
/// parallel plugin runs only with parallel plugins of its own group.
pub open spec fn modes_compatible(a: ExecutionMode, b: ExecutionMode) -> bool {
    match a {
        ExecutionMode::Exclusive => false,
        ExecutionMode::Sequential => b is Unrestricted,
        ExecutionMode::Parallel(g) => b matches ExecutionMode::Parallel(h) && g@ == h@,
        ExecutionMode::Unrestricted => b is Sequential || b is Unrestricted,
    }
}

impl PluginStateView {
    /// Ids are unique among registered plugins and among running plugins.
    pub open spec fn wf(self) -> bool {
        distinct_keys(self.plugins) && distinct_keys(self.running)
    }

    /// The requirements registered under `id`.
    pub open spec fn plugin(self, id: Seq<char>) -> Option<PluginRequirements> {
        lookup(self.plugins, id)
    }

    /// Whether the plugin `id` is marked as running.
    pub open spec fn is_running(self, id: Seq<char>) -> bool {
        first_index(self.running, key_is::<PluginType>(id)) is Some
    }

    /// Every id of `ids` is running.
    pub open spec fn all_running(self, ids: Seq<String>) -> bool {
        forall|k: int| 0 <= k < ids.len() ==> self.is_running(#[trigger] ids[k]@)
    }

    /// Whether the plugin `a` may start next to the plugin `b`, each taken by its own
    /// registration: both are registered, their modes are compatible, and `a` does not
    /// list `b` as incompatible.
    pub open spec fn may_join(self, a: Seq<char>, b: Seq<char>) -> bool {
        match (self.plugin(a), self.plugin(b)) {
            (Some(p), Some(q)) => {
                &&& modes_compatible(p.execution_mode, q.execution_mode)
                &&& !names(p.incompatible_plugins@, b)
            },
            _ => false,
        }
    }

    /// Whether the plugins `a` and `b` may start together: each may start next to the
    /// other.
    pub open spec fn may_run_together(self, a: Seq<char>, b: Seq<char>) -> bool {
        self.may_join(a, b) && self.may_join(b, a)
    }

    /// Whether the plugin `id` may start next to every plugin of `ids`.
    pub open spec fn joins_all(self, id: Seq<char>, ids: Seq<Seq<char>>) -> bool {
        forall|k: int| 0 <= k < ids.len() ==> self.may_join(id, #[trigger] ids[k])
    }

    /// Whether the plugin `id` may run next to every plugin of `ids`.
    pub open spec fn fits_with(self, id: Seq<char>, ids: Seq<Seq<char>>) -> bool {
        forall|k: int| 0 <= k < ids.len() ==> self.may_run_together(id, #[trigger] ids[k])
    }

    /// The ids of the running plugins.
    pub open spec fn running_ids(self) -> Seq<Seq<char>> {
        self.running.map_values(|e: (Seq<char>, PluginType)| e.0)
    }

    /// Whether the plugin `id` may start now: it is registered, every plugin it
    /// requires runs, and it may start next to every running plugin.
    pub open spec fn can_start(self, id: Seq<char>) -> bool {
        match self.plugin(id) {
            None => false,
            Some(p) => self.all_running(p.required_plugins@) && self.joins_all(id, self.running_ids()),
        }
    }

    /// The batch chosen among the first `n` registered plugins, in registration order:
    /// a plugin joins when it does not run, may start, and may run next to every
    /// plugin already chosen. A sequential plugin goes in front; exclusive plugins
    /// are never part of a batch.
    pub open spec fn runnable_prefix(self, n: int) -> Seq<Seq<char>>
        decreases n,
    {
        if n <= 0 {
            Seq::<Seq<char>>::empty()
        } else {
            let prev = self.runnable_prefix(n - 1);
            let id = self.plugins[n - 1].0;
            if !self.is_running(id) && self.can_start(id) && self.fits_with(id, prev) {
                match self.plugins[n - 1].1.execution_mode {
                    ExecutionMode::Sequential => seq![id] + prev,
                    ExecutionMode::Exclusive => prev,
                    _ => prev.push(id),
                }
            } else {
                prev
            }
        }
    }

    /// The plugins to start next: the first exclusive plugin alone (or nothing when
    /// it may not start); without exclusive plugins, the runnable ones.
    pub open spec fn next_plugins(self) -> Seq<Seq<char>> {
        match first_index(self.plugins, is_exclusive_entry()) {
            Some(j) => if self.can_start(self.plugins[j].0) {
                seq![self.plugins[j].0]
            } else {
                Seq::<Seq<char>>::empty()
            },
            None => self.runnable_prefix(self.plugins.len() as int),
        }
    }

    /// The state after marking `id` as running, when it is registered.
    pub open spec fn marked_running(self, id: Seq<char>) -> PluginStateView {
        match self.plugin(id) {
            None => self,
            Some(p) => PluginStateView {
                plugins: self.plugins,
                running: insert_entry(self.running, id, p.plugin_type),
            },
        }
    }

    /// The state after removing `id` from the running plugins.
    pub open spec fn stopped(self, id: Seq<char>) -> PluginStateView {
        PluginStateView { plugins: self.plugins, running: remove_entry(self.running, id) }
    }

    /// The state after an event: a start marks the plugin as running, a shutdown or
    /// a failure removes it from the running plugins, a resource notice changes nothing.
    pub open spec fn after_event(self, event: PluginEvent) -> PluginStateView {
        match event {
            PluginEvent::Started(id) => self.marked_running(id@),
            PluginEvent::Shutdown(id) => self.stopped(id@),
            PluginEvent::Failed(id, _) => self.stopped(id@),
            PluginEvent::ResourceReady { .. } => self,
        }
    }
}

/// Position of the entry with key `id` in a keyed vector, compared by characters.
fn find_plugin(v: &Vec<(String, PluginRequirements)>, id: &[char]) -> (r: Option<usize>)
    ensures
        r matches Some(i) ==> i < v.len(),
        r is Some <==> first_index(
            v@.map_values(|e: (String, PluginRequirements)| (e.0@, e.1)),
            key_is::<PluginRequirements>(id@),
        ) is Some,
        r matches Some(i) ==> first_index(
            v@.map_values(|e: (String, PluginRequirements)| (e.0@, e.1)),
            key_is::<PluginRequirements>(id@),
        ) == Some(i as int),
{
    let ghost s = v@.map_values(|e: (String, PluginRequirements)| (e.0@, e.1));
    let ghost p = key_is::<PluginRequirements>(id@);
    let mut i: usize = 0;
    while i < v.len()
        invariant
            i <= v.len(),
            s == v@.map_values(|e: (String, PluginRequirements)| (e.0@, e.1)),
            p == key_is::<PluginRequirements>(id@),
            forall|j: int| 0 <= j < i ==> !p(s[j]),
        decreases v.len() - i,
    {
        let k = chars_of(v[i].0.as_str());
        if chars_eq(k.as_slice(), id) {
            proof {
                lemma_first_index_at(s, p, i as int);
            }
            return Some(i);
        }
        i = i + 1;
    }
    proof {
        lemma_first_index_none(s, p);
    }
    None
}

/// Position of the running entry with key `id`, compared by characters.
fn find_running(v: &Vec<(String, PluginType)>, id: &[char]) -> (r: Option<usize>)
    ensures
        r matches Some(i) ==> i < v.len(),
        r is Some <==> first_index(
            v@.map_values(|e: (String, PluginType)| (e.0@, e.1)),
            key_is::<PluginType>(id@),
        ) is Some,
        r matches Some(i) ==> first_index(
            v@.map_values(|e: (String, PluginType)| (e.0@, e.1)),
            key_is::<PluginType>(id@),
        ) == Some(i as int),
{
    let ghost s = v@.map_values(|e: (String, PluginType)| (e.0@, e.1));
    let ghost p = key_is::<PluginType>(id@);
    let mut i: usize = 0;
    while i < v.len()
        invariant
            i <= v.len(),
            s == v@.map_values(|e: (String, PluginType)| (e.0@, e.1)),
            p == key_is::<PluginType>(id@),
            forall|j: int| 0 <= j < i ==> !p(s[j]),
        decreases v.len() - i,
    {
        let k = chars_of(v[i].0.as_str());
        if chars_eq(k.as_slice(), id) {
            proof {
                lemma_first_index_at(s, p, i as int);
            }
            return Some(i);
        }
        i = i + 1;
    }
    proof {
        lemma_first_index_none(s, p);
    }
    None
}

impl PluginState {
    /// The state of its fields is well formed: ids are unique.
    pub open spec fn wf(&self) -> bool {
        self@.wf()
    }

    /// An empty state: no plugin registered, none running.
    pub fn new() -> (r: Self)
        ensures
            r.wf(),
            r@.plugins.len() == 0,
            r@.running.len() == 0,
    {
        let r = PluginState { plugins: Vec::new(), running: Vec::new() };
        proof {
            assert(r@.plugins =~= Seq::<(Seq<char>, PluginRequirements)>::empty());
            assert(r@.running =~= Seq::<(Seq<char>, PluginType)>::empty());
        }
        r
    }

    /// Registers `requirements` under `id`, replacing what was registered under it.
    pub fn add_plugin(&mut self, id: String, requirements: PluginRequirements)
        requires
            old(self).wf(),
        ensures
            final(self).wf(),
            final(self)@.plugins == insert_entry(old(self)@.plugins, id@, requirements),
            final(self)@.running == old(self)@.running,
    {
        let idc = chars_of(id.as_str());
        let found = find_plugin(&self.plugins, idc.as_slice());
        proof {
            lemma_insert_entry_distinct(old(self)@.plugins, id@, requirements);
        }
        match found {
            Some(i) => {
                self.plugins.set(i, (id, requirements));
            },
            None => {
                self.plugins.push((id, requirements));
            },
        }
        proof {
            assert(self@.plugins =~= insert_entry(old(self)@.plugins, id@, requirements));
            assert(self@.running =~= old(self)@.running);
        }
    }

    /// The requirements registered under `id`.
    pub fn get_plugin(&self, id: &str) -> (r: Option<&PluginRequirements>)
        ensures
            r matches Some(p) ==> self@.plugin(id@) == Some(*p),
            r is None ==> self@.plugin(id@) is None,
    {
        let idc = chars_of(id);
        match find_plugin(&self.plugins, idc.as_slice()) {
            Some(i) => Some(&self.plugins[i].1),
            None => None,
        }
    }

    /// Marks the plugin `id` as running, with its registered type; does nothing when
    /// `id` is not registered.
    pub fn mark_as_running(&mut self, id: &str)
        requires
            old(self).wf(),
        ensures
            final(self).wf(),
            final(self)@ == old(self)@.marked_running(id@),
    {
        let idc = chars_of(id);
        match find_plugin(&self.plugins, idc.as_slice()) {
            None => {},
            Some(p) => {
                let t = self.plugins[p].1.plugin_type;
                let key = crate::text::string_of(idc.as_slice());
                let found = find_running(&self.running, idc.as_slice());
                proof {
                    lemma_insert_entry_distinct(old(self)@.running, id@, t);
                }
                match found {
                    Some(i) => {
                        self.running.set(i, (key, t));
                    },
                    None => {
                        self.running.push((key, t));
                    },
                }
                proof {
                    assert(self@.running =~= insert_entry(old(self)@.running, id@, t));
                    assert(self@.plugins =~= old(self)@.plugins);
                }
            },
        }
    }

    /// Removes the plugin `id` from the running plugins.
    fn stop(&mut self, id: &str)
        requires
            old(self).wf(),
        ensures
            final(self).wf(),
            final(self)@ == old(self)@.stopped(id@),
    {
        let idc = chars_of(id);
        let found = find_running(&self.running, idc.as_slice());
        proof {
            lemma_remove_entry_distinct(old(self)@.running, id@);
        }
        match found {
            Some(i) => {
                self.running.remove(i);
            },
            None => {},
        }
        proof {
            assert(self@.running =~= remove_entry(old(self)@.running, id@));
            assert(self@.plugins =~= old(self)@.plugins);
        }
    }

    /// Applies a plugin event to the state.
    pub fn handle_event(&mut self, event: PluginEvent)
        requires
            old(self).wf(),
        ensures
            final(self).wf(),
            final(self)@ == old(self)@.after_event(event),
    {
        match event {
            PluginEvent::Started(id) => self.mark_as_running(id.as_str()),
            PluginEvent::Shutdown(id) => self.stop(id.as_str()),
            PluginEvent::Failed(id, _) => self.stop(id.as_str()),
            PluginEvent::ResourceReady { .. } => {},
        }
    }

    /// Whether every id of `ids` is running.
    fn all_running(&self, ids: &Vec<String>) -> (r: bool)
        ensures
            r == self@.all_running(ids@),
    {
        let mut k: usize = 0;
        while k < ids.len()
            invariant
                k <= ids.len(),
                forall|m: int| 0 <= m < k ==> self@.is_running(#[trigger] ids@[m]@),
            decreases ids.len() - k,
        {
            let idc = chars_of(ids[k].as_str());
            if find_running(&self.running, idc.as_slice()).is_none() {
                return false;
            }
            k = k + 1;
        }
        true
    }

    /// Whether the plugins `a` and `b` may start together.
    fn may_run_together(&self, a: &[char], b: &[char]) -> (r: bool)
        ensures
            r == self@.may_run_together(a@, b@),
    {
        self.may_join(a, b) && self.may_join(b, a)
    }

    /// Whether the plugin `a` may start next to the plugin `b`.
    fn may_join(&self, a: &[char], b: &[char]) -> (r: bool)
        ensures
            r == self@.may_join(a@, b@),
    {
        let i = match find_plugin(&self.plugins, a) {
            Some(i) => i,
            None => {
                return false;
            },
        };
        let j = match find_plugin(&self.plugins, b) {
            Some(j) => j,
            None => {
                return false;
            },
        };
        let p = &self.plugins[i].1;
        let q = &self.plugins[j].1;
        assert(self@.plugin(a@) == Some(*p));
        assert(self@.plugin(b@) == Some(*q));
        modes_compatible_exec(&p.execution_mode, &q.execution_mode) && !names_exec(
            &p.incompatible_plugins,
            b,
        )
    }

    /// Whether the plugin `id` may start next to every running plugin.
    fn joins_running(&self, id: &[char]) -> (r: bool)
        ensures
            r == self@.joins_all(id@, self@.running_ids()),
    {
        let ghost ids = self@.running_ids();
        let mut k: usize = 0;
        while k < self.running.len()
            invariant
                k <= self.running.len(),
                ids == self@.running_ids(),
                ids.len() == self.running@.len(),
                forall|m: int| 0 <= m < k ==> self@.may_join(id@, #[trigger] ids[m]),
            decreases self.running.len() - k,
        {
            let oc = chars_of(self.running[k].0.as_str());
            assert(oc@ == ids[k as int]);
            if !self.may_join(id, oc.as_slice()) {
                return false;
            }
            k = k + 1;
        }
        true
    }

    /// Whether the plugin `id` may run next to every plugin of `batch`.
    fn fits_with_batch(&self, id: &[char], batch: &Vec<String>) -> (r: bool)
        ensures
            r == self@.fits_with(id@, crate::text::views(batch@)),
    {
        let ghost ids = crate::text::views(batch@);
        let mut k: usize = 0;
        while k < batch.len()
            invariant
                k <= batch.len(),
                ids == crate::text::views(batch@),
                ids.len() == batch@.len(),
                forall|m: int| 0 <= m < k ==> self@.may_run_together(id@, #[trigger] ids[m]),
            decreases batch.len() - k,
        {
            let oc = chars_of(batch[k].as_str());
            assert(oc@ == ids[k as int]);
            if !self.may_run_together(id, oc.as_slice()) {
                return false;
            }
            k = k + 1;
        }
        true
    }

    /// Whether the plugin `id` may start now.
    fn can_start_plugin(&self, id: &[char]) -> (r: bool)
        ensures
            r == self@.can_start(id@),
    {
        let p = match find_plugin(&self.plugins, id) {
            Some(i) => i,
            None => {
                return false;
            },
        };
        let req = &self.plugins[p].1;
        assert(self@.plugin(id@) == Some(*req));
        self.all_running(&req.required_plugins) && self.joins_running(id)
    }

    /// The ids of the plugins to start next.
    pub fn get_next_plugins(&self) -> (r: Vec<String>)
        requires
            self.wf(),
        ensures
            crate::text::views(r@) == self@.next_plugins(),
    {
        let ghost s = self@.plugins;
        let mut e: usize = 0;
        while e < self.plugins.len()
            invariant
                e <= self.plugins.len(),
                s == self@.plugins,
                s.len() == self.plugins@.len(),
                forall|j: int| 0 <= j < e ==> !is_exclusive_entry()(s[j]),
            decreases self.plugins.len() - e,
        {
            if matches!(self.plugins[e].1.execution_mode, ExecutionMode::Exclusive) {
                proof {
                    lemma_first_index_at(s, is_exclusive_entry(), e as int);
                }
                let idc = chars_of(self.plugins[e].0.as_str());
                let mut r: Vec<String> = Vec::new();
                if self.can_start_plugin(idc.as_slice()) {
                    r.push(copy_string(&self.plugins[e].0));
                }
                proof {
                    assert(crate::text::views(r@) =~= self@.next_plugins());
                }
                return r;
            }
            e = e + 1;
        }
        proof {
            lemma_first_index_none(s, is_exclusive_entry());
        }
        let mut r: Vec<String> = Vec::new();
        let mut i: usize = 0;
        while i < self.plugins.len()
            invariant
                i <= self.plugins.len(),
                s == self@.plugins,
                s.len() == self.plugins@.len(),
                crate::text::views(r@) == self@.runnable_prefix(i as int),
            decreases self.plugins.len() - i,
        {
            let idc = chars_of(self.plugins[i].0.as_str());
            let ghost id = s[i as int].0;
            assert(idc@ == id);
            let running = find_running(&self.running, idc.as_slice()).is_some();
            if !running && self.can_start_plugin(idc.as_slice()) && self.fits_with_batch(
                idc.as_slice(),
                &r,
            ) {
                let name = copy_string(&self.plugins[i].0);
                match &self.plugins[i].1.execution_mode {
                    ExecutionMode::Sequential => {
                        r.insert(0, name);
                    },
                    ExecutionMode::Parallel(_) | ExecutionMode::Unrestricted => {
                        r.push(name);
                    },
                    ExecutionMode::Exclusive => {},
                }
            }
            i = i + 1;
            proof {
                assert(crate::text::views(r@) =~= self@.runnable_prefix(i as int));
            }
        }
        r
    }
}

/// Whether `ids` holds the id `id`, compared by characters.
fn names_exec(ids: &Vec<String>, id: &[char]) -> (r: bool)
    ensures
        r == names(ids@, id@),
{
    let mut k: usize = 0;
    while k < ids.len()
        invariant
            k <= ids.len(),
            forall|m: int| 0 <= m < k ==> ids@[m]@ != id@,
        decreases ids.len() - k,
    {
        let c = chars_of(ids[k].as_str());
        if chars_eq(c.as_slice(), id) {
            assert(ids@[k as int]@ == id@);
            return true;
        }
        k = k + 1;
    }
    false
}

/// Whether plugins in modes `a` and `b` may run at the same time.
fn modes_compatible_exec(a: &ExecutionMode, b: &ExecutionMode) -> (r: bool)
    ensures
        r == modes_compatible(*a, *b),
{
    match a {
        ExecutionMode::Exclusive => false,
        ExecutionMode::Sequential => matches!(b, ExecutionMode::Unrestricted),
        ExecutionMode::Parallel(g) => match b {
            ExecutionMode::Parallel(h) => {
                let gc = chars_of(g.as_str());
                let hc = chars_of(h.as_str());
                chars_eq(gc.as_slice(), hc.as_slice())
            },
            _ => false,
        },
        ExecutionMode::Unrestricted => matches!(
            b,
            ExecutionMode::Sequential | ExecutionMode::Unrestricted
        ),
    }
}

/// Law: after `id` is marked as running, it is running, provided it is registered.
pub proof fn law_started_plugin_runs(v: PluginStateView, id: Seq<char>)
    requires
        v.wf(),
        v.plugin(id) is Some,
    ensures
        v.marked_running(id).is_running(id),
        v.marked_running(id).wf(),
{
    lemma_first_index(v.running, key_is::<PluginType>(id));
    lemma_insert_entry_distinct(v.running, id, v.plugin(id)->0.plugin_type);
    let r = v.marked_running(id).running;
    match first_index(v.running, key_is::<PluginType>(id)) {
        Some(i) => {
            assert(key_is::<PluginType>(id)(r[i]));
        },
        None => {
            assert(key_is::<PluginType>(id)(r[r.len() - 1]));
        },
    }
    lemma_first_index(r, key_is::<PluginType>(id));
}

/// Law: after `id` shuts down or fails, it is no longer running; the registered
/// plugins are unchanged.
pub proof fn law_stopped_plugin_does_not_run(v: PluginStateView, id: Seq<char>)
    requires
        v.wf(),
    ensures
        !v.stopped(id).is_running(id),
        v.stopped(id).plugins == v.plugins,
        v.stopped(id).wf(),
{
    lemma_first_index(v.running, key_is::<PluginType>(id));
    lemma_remove_entry_distinct(v.running, id);
    let r = v.stopped(id).running;
    match first_index(v.running, key_is::<PluginType>(id)) {
        Some(i) => {
            assert forall|j: int| 0 <= j < r.len() implies !key_is::<PluginType>(id)(r[j]) by {
                let j2 = if j < i { j } else { j + 1 };
                assert(r[j] == v.running[j2]);
                assert(v.running[j2].0 != v.running[i].0);
            }
        },
        None => {},
    }
    lemma_first_index(r, key_is::<PluginType>(id));
}

/// Law: what `add_plugin` registers under `id` is what `get_plugin(id)` then gives.
pub proof fn law_registered_plugin_is_found(v: PluginStateView, id: Seq<char>, req: PluginRequirements)
    requires
        v.wf(),
    ensures
        lookup(insert_entry(v.plugins, id, req), id) == Some(req),
{
    lemma_first_index(v.plugins, key_is::<PluginRequirements>(id));
    let r = insert_entry(v.plugins, id, req);
    match first_index(v.plugins, key_is::<PluginRequirements>(id)) {
        Some(i) => {
            lemma_first_index_at(r, key_is::<PluginRequirements>(id), i);
        },
        None => {
            assert forall|j: int| 0 <= j < r.len() - 1 implies !key_is::<PluginRequirements>(id)(r[j]) by {
                assert(r[j] == v.plugins[j]);
            }
            lemma_first_index_at(r, key_is::<PluginRequirements>(id), r.len() - 1);
        },
    }
}

/// `may_run_together` does not depend on the order of its two plugins.
pub proof fn lemma_may_run_together_symmetric(v: PluginStateView, a: Seq<char>, b: Seq<char>)
    ensures
        v.may_run_together(a, b) == v.may_run_together(b, a),
{
}

proof fn lemma_runnable_prefix(v: PluginStateView, n: int)
    requires
        0 <= n <= v.plugins.len(),
    ensures
        v.runnable_prefix(n).len() <= n,
        forall|k: int|
            0 <= k < v.runnable_prefix(n).len() ==> v.can_start(#[trigger] v.runnable_prefix(n)[k])
                && !v.is_running(v.runnable_prefix(n)[k]),
        forall|a: int, b: int|
            0 <= a < v.runnable_prefix(n).len() && 0 <= b < v.runnable_prefix(n).len() && a != b
                ==> v.may_run_together(#[trigger] v.runnable_prefix(n)[a], #[trigger] v.runnable_prefix(n)[b]),
    decreases n,
{
    if n > 0 {
        lemma_runnable_prefix(v, n - 1);
        let prev = v.runnable_prefix(n - 1);
        let id = v.plugins[n - 1].0;
        let cur = v.runnable_prefix(n);
        if !v.is_running(id) && v.can_start(id) && v.fits_with(id, prev) {
            match v.plugins[n - 1].1.execution_mode {
                ExecutionMode::Exclusive => {},
                ExecutionMode::Sequential => {
                    assert forall|k: int| 0 <= k < cur.len() implies v.can_start(#[trigger] cur[k])
                        && !v.is_running(cur[k]) by {
                        if k > 0 {
                            assert(cur[k] == prev[k - 1]);
                        }
                    }
                    assert forall|a: int, b: int|
                        0 <= a < cur.len() && 0 <= b < cur.len() && a != b implies v.may_run_together(
                        #[trigger] cur[a],
                        #[trigger] cur[b],
                    ) by {
                        if a == 0 {
                            assert(cur[b] == prev[b - 1]);
                            assert(v.may_run_together(id, prev[b - 1]));
                        } else if b == 0 {
                            assert(cur[a] == prev[a - 1]);
                            assert(v.may_run_together(id, prev[a - 1]));
                            lemma_may_run_together_symmetric(v, id, prev[a - 1]);
                        } else {
                            assert(cur[a] == prev[a - 1]);
                            assert(cur[b] == prev[b - 1]);
                        }
                    }
                },
                _ => {
                    assert forall|k: int| 0 <= k < cur.len() implies v.can_start(#[trigger] cur[k])
                        && !v.is_running(cur[k]) by {
                        if k < prev.len() {
                            assert(cur[k] == prev[k]);
                        }
                    }
                    assert forall|a: int, b: int|
                        0 <= a < cur.len() && 0 <= b < cur.len() && a != b implies v.may_run_together(
                        #[trigger] cur[a],
                        #[trigger] cur[b],
                    ) by {
                        let last = prev.len() as int;
                        if a == last {
                            assert(cur[b] == prev[b]);
                            assert(v.may_run_together(id, prev[b]));
                        } else if b == last {
                            assert(cur[a] == prev[a]);
                            assert(v.may_run_together(id, prev[a]));
                            lemma_may_run_together_symmetric(v, id, prev[a]);
                        } else {
                            assert(cur[a] == prev[a]);
                            assert(cur[b] == prev[b]);
                        }
                    }
                },
            }
        }
    }
}

/// Law: every plugin that `get_next_plugins` proposes may start; when no plugin is
/// exclusive, none of them already runs.
pub proof fn law_next_plugins_may_start(v: PluginStateView)
    requires
        v.wf(),
    ensures
        forall|k: int| 0 <= k < v.next_plugins().len() ==> v.can_start(#[trigger] v.next_plugins()[k]),
        first_index(v.plugins, is_exclusive_entry()) is None ==> forall|k: int|
            0 <= k < v.next_plugins().len() ==> !v.is_running(#[trigger] v.next_plugins()[k]),
        v.next_plugins().len() <= v.plugins.len(),
{
    lemma_runnable_prefix(v, v.plugins.len() as int);
    lemma_first_index(v.plugins, is_exclusive_entry());
}

/// Law: while an exclusive plugin is registered, at most that one plugin is proposed,
/// and only when no plugin runs.
pub proof fn law_exclusive_plugin_runs_alone(v: PluginStateView)
    requires
        v.wf(),
        first_index(v.plugins, is_exclusive_entry()) is Some,
    ensures
        v.next_plugins().len() <= 1,
        v.next_plugins().len() == 1 ==> v.running.len() == 0,
{
    lemma_first_index(v.plugins, is_exclusive_entry());
    let j = first_index(v.plugins, is_exclusive_entry())->0;
    let id = v.plugins[j].0;
    if v.can_start(id) {
        lemma_first_index(v.plugins, key_is::<PluginRequirements>(id));
        let k = first_index(v.plugins, key_is::<PluginRequirements>(id))->0;
        assert(v.plugins[k].0 == v.plugins[j].0);
        if k != j {
            assert(v.plugins[k].0 != v.plugins[j].0);
        }
        assert(v.plugin(id) == Some(v.plugins[j].1));
        if v.running.len() > 0 {
            assert(v.may_join(id, v.running_ids()[0]));
        }
    }
}

/// Law: a proposed plugin, taken by its registration, has every plugin it requires
/// running and none of the plugins it lists as incompatible; an exclusive one is
/// proposed only when nothing runs; a sequential one only when no running plugin is
/// sequential; a parallel one only when every running plugin, taken by its own
/// registration, is parallel in the same group; and nothing is proposed next to a
/// running exclusive plugin.
pub proof fn law_proposed_plugins_respect_requirements(v: PluginStateView)
    requires
        v.wf(),
    ensures
        forall|k: int|
            0 <= k < v.next_plugins().len() ==> {
                let id = #[trigger] v.next_plugins()[k];
                let p = v.plugin(id)->0;
                &&& v.plugin(id) is Some
                &&& v.all_running(p.required_plugins@)
                &&& forall|j: int|
                    0 <= j < p.incompatible_plugins@.len() ==> !v.is_running(
                        #[trigger] p.incompatible_plugins@[j]@,
                    )
                &&& forall|r: int|
                    0 <= r < v.running.len() ==> {
                        let other = #[trigger] v.plugin(v.running[r].0);
                        &&& other is Some
                        &&& !(other->0.execution_mode is Exclusive)
                        &&& (p.execution_mode is Sequential ==> !(other->0.execution_mode is Sequential))
                        &&& (p.execution_mode matches ExecutionMode::Parallel(g) ==> (
                        other->0.execution_mode matches ExecutionMode::Parallel(h) && h@ == g@))
                    }
                &&& (p.execution_mode is Exclusive ==> v.running.len() == 0)
            },
{
    law_next_plugins_may_start(v);
    assert forall|k: int| 0 <= k < v.next_plugins().len() implies {
        let id = #[trigger] v.next_plugins()[k];
        let p = v.plugin(id)->0;
        &&& v.plugin(id) is Some
        &&& v.all_running(p.required_plugins@)
        &&& forall|j: int|
            0 <= j < p.incompatible_plugins@.len() ==> !v.is_running(
                #[trigger] p.incompatible_plugins@[j]@,
            )
        &&& forall|r: int|
            0 <= r < v.running.len() ==> {
                let other = #[trigger] v.plugin(v.running[r].0);
                &&& other is Some
                    &&& !(other->0.execution_mode is Exclusive)
                &&& (p.execution_mode is Sequential ==> !(other->0.execution_mode is Sequential))
                &&& (p.execution_mode matches ExecutionMode::Parallel(g) ==> (
                other->0.execution_mode matches ExecutionMode::Parallel(h) && h@ == g@))
            }
        &&& (p.execution_mode is Exclusive ==> v.running.len() == 0)
    } by {
        let id = v.next_plugins()[k];
        assert(v.can_start(id));
        let p = v.plugin(id)->0;
        let ids = v.running_ids();
        assert forall|j: int| 0 <= j < p.incompatible_plugins@.len() implies !v.is_running(
            #[trigger] p.incompatible_plugins@[j]@,
        ) by {
            let x = p.incompatible_plugins@[j]@;
            lemma_first_index(v.running, key_is::<PluginType>(x));
            if v.is_running(x) {
                let i = first_index(v.running, key_is::<PluginType>(x))->0;
                assert(ids[i] == x);
                assert(v.may_join(id, ids[i]));
                assert(names(p.incompatible_plugins@, x));
            }
        }
        assert forall|r: int| 0 <= r < v.running.len() implies {
            let other = #[trigger] v.plugin(v.running[r].0);
            &&& other is Some
            &&& !(other->0.execution_mode is Exclusive)
            &&& (p.execution_mode is Sequential ==> !(other->0.execution_mode is Sequential))
            &&& (p.execution_mode matches ExecutionMode::Parallel(g) ==> (
            other->0.execution_mode matches ExecutionMode::Parallel(h) && h@ == g@))
        } by {
            assert(ids[r] == v.running[r].0);
            assert(v.may_join(id, ids[r]));
        }
        if p.execution_mode is Exclusive && v.running.len() > 0 {
            assert(v.may_join(id, ids[0]));
        }
    }
}

/// Law: any two plugins proposed together may run at the same time: neither lists
/// the other as incompatible, at most one of them is sequential, and a parallel one
/// is proposed only with parallel plugins of its own group.
pub proof fn law_proposed_batch_is_compatible(v: PluginStateView)
    requires
        v.wf(),
    ensures
        forall|a: int, b: int|
            0 <= a < v.next_plugins().len() && 0 <= b < v.next_plugins().len() && a != b ==> {
                let x = #[trigger] v.next_plugins()[a];
                let y = #[trigger] v.next_plugins()[b];
                let p = v.plugin(x)->0;
                let q = v.plugin(y)->0;
                &&& v.may_run_together(x, y)
                &&& !(p.execution_mode is Sequential && q.execution_mode is Sequential)
                &&& (p.execution_mode matches ExecutionMode::Parallel(g) ==> (
                q.execution_mode matches ExecutionMode::Parallel(h) && h@ == g@))
            },
{
    lemma_runnable_prefix(v, v.plugins.len() as int);
    lemma_exclusive_batch_len(v);
}

proof fn lemma_exclusive_batch_len(v: PluginStateView)
    requires
        v.wf(),
    ensures
        first_index(v.plugins, is_exclusive_entry()) is Some ==> v.next_plugins().len() <= 1,
{
    if first_index(v.plugins, is_exclusive_entry()) is Some {
        law_exclusive_plugin_runs_alone(v);
    }
}

} // verus!
