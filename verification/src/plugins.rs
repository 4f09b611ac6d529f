//! Plugins as the core sees them: the trait plugin authors implement, the registry
//! of installed plugins, the manager's start decisions, and where IPC messages go.
use crate::message::{ChannelMessage, InternalError};
use crate::plugin_state::{PluginState, PluginStateView};
use crate::plugin_types::{PluginRequirements, PluginType};
use crate::seqs::{first_index, key_is, lookup, lemma_first_index, lemma_first_index_at, lemma_first_index_none};
use crate::terraform::debug_path;
use crate::text::{append_str, chars_eq, chars_of, copy_string, views};
use vstd::prelude::*;

verus! {

/// What a plugin author implements. Errors are their messages.
pub trait Plugin {
    /// What the plugin needs from the scheduler.
    fn requirements(&self) -> PluginRequirements;

    /// Prepares the plugin before it gets work; by default there is nothing to
    /// prepare and it succeeds.
    fn init(&mut self) -> (r: Result<(), String>)
        default_ensures
            r is Ok,
    {
        Ok(())
    }

    /// Processes one piece of work.
    fn process(&mut self, data: &[u8]) -> Result<Vec<u8>, String>;

    /// Releases what the plugin holds; by default there is nothing to release and it
    /// succeeds.
    fn shutdown(&mut self) -> (r: Result<(), String>)
        default_ensures
            r is Ok,
    {
        Ok(())
    }

    /// Whether the plugin is loaded at run time; by default it is not.
    fn is_dynamic(&self) -> (r: bool)
        default_ensures
            !r,
    {
        false
    }
}

/// Errors of the plugin registry.
#[derive(Debug)]
pub enum PluginRegistryError {
    IoError(String),
    DiscoveryError(String),
    SerializationError(String),
}

/// Errors of a plugin instance.
#[derive(Debug)]
pub enum PluginInstanceError {
    ExecutionError(String),
}

/// Errors of the plugin manager.
#[derive(Debug)]
pub enum PluginManagerError {
    PluginRegistryError(PluginRegistryError),
    IpcError(InternalError),
    PluginInstanceError(PluginInstanceError),
}

/// An installed plugin. Configuration values are JSON text.
#[derive(Debug)]
pub struct PluginInfo {
    pub name: String,
    pub version: String,
    pub path: String,
    pub plugin_type: PluginType,
    pub dependencies: Vec<String>,
    pub config: Vec<(String, String)>,
}

/// The installed plugins, by id.
#[derive(Debug)]
pub struct PluginRegistry {
    pub plugins: Vec<(String, PluginInfo)>,
}

/// The ids of a registry's plugins.
pub open spec fn registry_ids(plugins: Seq<(String, PluginInfo)>) -> Seq<(Seq<char>, PluginInfo)> {
    plugins.map_values(|e: (String, PluginInfo)| (e.0@, e.1))
}

/// The first dependency of a list that the registry does not hold.
pub open spec fn missing_dependency(ids: Seq<(Seq<char>, PluginInfo)>, deps: Seq<Seq<char>>) -> Option<Seq<char>>
    decreases deps.len(),
{
    if deps.len() == 0 {
        None
    } else {
        match missing_dependency(ids, deps.drop_last()) {
            Some(d) => Some(d),
            None => if lookup(ids, deps.last()) is None {
                Some(deps.last())
            } else {
                None
            },
        }
    }
}

proof fn lemma_missing_stays(ids: Seq<(Seq<char>, PluginInfo)>, deps: Seq<Seq<char>>, i: int, j: int)
    requires
        0 <= i <= j <= deps.len(),
        missing_dependency(ids, deps.take(i)) is Some,
    ensures
        missing_dependency(ids, deps.take(j)) == missing_dependency(ids, deps.take(i)),
    decreases j - i,
{
    if j > i {
        lemma_missing_stays(ids, deps, i, j - 1);
        assert(deps.take(j).drop_last() =~= deps.take(j - 1));
    }
}

impl PluginRegistry {
    /// The position of the plugin `id`.
    fn index_of(&self, id: &[char]) -> (r: Option<usize>)
        ensures
            r is None <==> first_index(registry_ids(self.plugins@), key_is::<PluginInfo>(id@)) is None,
            r matches Some(i) ==> i < self.plugins@.len()
                && first_index(registry_ids(self.plugins@), key_is::<PluginInfo>(id@)) == Some(i as int),
    {
        let ghost s = registry_ids(self.plugins@);
        let mut k: usize = 0;
        while k < self.plugins.len()
            invariant
                k <= self.plugins.len(),
                s == registry_ids(self.plugins@),
                forall|j: int| 0 <= j < k ==> !key_is::<PluginInfo>(id@)(s[j]),
            decreases self.plugins.len() - k,
        {
            let c = chars_of(self.plugins[k].0.as_str());
            if chars_eq(c.as_slice(), id) {
                proof {
                    lemma_first_index_at(s, key_is::<PluginInfo>(id@), k as int);
                }
                return Some(k);
            }
            k = k + 1;
        }
        proof {
            lemma_first_index_none(s, key_is::<PluginInfo>(id@));
        }
        None
    }

    /// The plugin installed under `id`.
    pub fn get_plugin(&self, id: &str) -> (r: Option<&PluginInfo>)
        ensures
            match lookup(registry_ids(self.plugins@), id@) {
                Some(p) => r == Some(&p),
                None => r is None,
            },
    {
        let c = chars_of(id);
        match self.index_of(c.as_slice()) {
            Some(i) => Some(&self.plugins[i].1),
            None => None,
        }
    }

    /// Checks that the plugin `id` is installed, that its binary exists
    /// (`binary_exists`, as the file system tells), and that every plugin it depends
    /// on is installed.
    pub fn verify_plugin(&self, id: &str, binary_exists: bool) -> (r: Result<(), String>)
        ensures
            match lookup(registry_ids(self.plugins@), id@) {
                None => r matches Err(m) && m@ == "Plugin not found "@ + id@,
                Some(p) => if !binary_exists {
                    r matches Err(m) && m@ == "Plugin binary not found: "@ + debug_path(p.path@)
                } else {
                    match missing_dependency(registry_ids(self.plugins@), views(p.dependencies@)) {
                        Some(d) => r matches Err(m) && m@ == "Missing dependency: "@ + d,
                        None => r is Ok,
                    }
                },
            },
    {
        let info = match self.get_plugin(id) {
            Some(i) => i,
            None => {
                let mut m = String::from_str("Plugin not found ");
                append_str(&mut m, id);
                return Err(m);
            },
        };
        if !binary_exists {
            let mut m = String::from_str("Plugin binary not found: ");
            let d = crate::terraform::debug_path_exec(info.path.as_str());
            append_str(&mut m, d.as_str());
            return Err(m);
        }
        let ghost ids = registry_ids(self.plugins@);
        let ghost dv = views(info.dependencies@);
        let mut i: usize = 0;
        while i < info.dependencies.len()
            invariant
                i <= info.dependencies.len(),
                ids == registry_ids(self.plugins@),
                dv == views(info.dependencies@),
                binary_exists,
                lookup(ids, id@) == Some(*info),
                missing_dependency(ids, dv.take(i as int)) is None,
            decreases info.dependencies.len() - i,
        {
            proof {
                assert(dv.take(i + 1).drop_last() =~= dv.take(i as int));
                lemma_first_index(ids, key_is::<PluginInfo>(dv[i as int]));
            }
            let dc = chars_of(info.dependencies[i].as_str());
            if self.index_of(dc.as_slice()).is_none() {
                proof {
                    lemma_missing_stays(ids, dv, i + 1, dv.len() as int);
                    assert(dv.take(dv.len() as int) =~= dv);
                }
                let mut m = String::from_str("Missing dependency: ");
                append_str(&mut m, info.dependencies[i].as_str());
                return Err(m);
            }
            i = i + 1;
        }
        assert(dv.take(dv.len() as int) =~= dv);
        Ok(())
    }
}

/// The plugins to start next, each with its kind: those that may start, in order.
pub open spec fn starts_of(v: PluginStateView, ids: Seq<Seq<char>>) -> Seq<(Seq<char>, PluginType)>
    decreases ids.len(),
{
    if ids.len() == 0 {
        Seq::empty()
    } else {
        let prev = starts_of(v, ids.drop_last());
        match v.plugin(ids.last()) {
            Some(p) => prev.push((ids.last(), p.plugin_type)),
            None => prev,
        }
    }
}

/// The plugins to start in a cycle of the manager, each with the kind of work to
/// send it; each is marked running once its work is sent.
pub fn plugins_to_start(state: &PluginState) -> (r: Vec<(String, PluginType)>)
    requires
        state.wf(),
    ensures
        r@.map_values(|e: (String, PluginType)| (e.0@, e.1)) == starts_of(state@, state@.next_plugins()),
{
    let ids = state.get_next_plugins();
    let ghost iv = views(ids@);
    let mut r: Vec<(String, PluginType)> = Vec::new();
    let mut i: usize = 0;
    while i < ids.len()
        invariant
            i <= ids.len(),
            iv == views(ids@),
            r@.map_values(|e: (String, PluginType)| (e.0@, e.1)) == starts_of(state@, iv.take(i as int)),
        decreases ids.len() - i,
    {
        proof {
            assert(iv.take(i + 1).drop_last() =~= iv.take(i as int));
        }
        match state.get_plugin(ids[i].as_str()) {
            Some(p) => {
                r.push((copy_string(&ids[i]), p.plugin_type));
            },
            None => {},
        }
        i = i + 1;
        assert(r@.map_values(|e: (String, PluginType)| (e.0@, e.1)) =~= starts_of(state@, iv.take(i as int)));
    }
    assert(iv.take(ids@.len() as int) =~= iv);
    r
}

/// Where the host sends a message.
#[derive(Debug, Clone, Copy, PartialEq, Eq, Structural)]
pub enum HostRoute {
    Task,
    Command,
}

/// Where a plugin sends a message.
#[derive(Debug, Clone, Copy, PartialEq, Eq, Structural)]
pub enum PluginRoute {
    Result,
    Event,
    Registration,
}

/// Why a message cannot be sent.
#[derive(Debug, Clone, Copy, PartialEq, Eq, Structural)]
pub enum RouteError {
    NotInitialized,
    NoPublisher,
    Unsupported,
}

/// Where the host sends a message: tasks and commands go to plugins; the channel
/// must be initialised and have a publisher.
pub fn host_route(initialized: bool, has_publisher: bool, message: &ChannelMessage) -> (r: Result<HostRoute, RouteError>)
    ensures
        !initialized ==> r == Err::<HostRoute, RouteError>(RouteError::NotInitialized),
        initialized && !has_publisher ==> r == Err::<HostRoute, RouteError>(RouteError::NoPublisher),
        initialized && has_publisher ==> r == match *message {
            ChannelMessage::Task(_) => Ok::<HostRoute, RouteError>(HostRoute::Task),
            ChannelMessage::Command(_) => Ok(HostRoute::Command),
            _ => Err(RouteError::Unsupported),
        },
{
    if !initialized {
        return Err(RouteError::NotInitialized);
    }
    if !has_publisher {
        return Err(RouteError::NoPublisher);
    }
    match message {
        ChannelMessage::Task(_) => Ok(HostRoute::Task),
        ChannelMessage::Command(_) => Ok(HostRoute::Command),
        _ => Err(RouteError::Unsupported),
    }
}

/// The message of a routing error on the host side; an unsupported message is
/// described by the caller, who shows the message itself.
pub fn host_route_message(e: RouteError) -> (r: Option<String>)
    ensures
        e == RouteError::NotInitialized ==> (r matches Some(m) && m@ == "Host IPC is not initialized"@),
        e == RouteError::NoPublisher ==> (r matches Some(m) && m@ == "Host publisher is not initialized"@),
        e == RouteError::Unsupported ==> r is None,
{
    match e {
        RouteError::NotInitialized => Some(String::from_str("Host IPC is not initialized")),
        RouteError::NoPublisher => Some(String::from_str("Host publisher is not initialized")),
        RouteError::Unsupported => None,
    }
}

/// Where a plugin sends a message: results and events go to the host, and a
/// registration needs no sending; the channel must be initialised and have a
/// publisher.
pub fn plugin_route(initialized: bool, has_publisher: bool, message: &ChannelMessage) -> (r: Result<PluginRoute, RouteError>)
    ensures
        !initialized ==> r == Err::<PluginRoute, RouteError>(RouteError::NotInitialized),
        initialized && !has_publisher ==> r == Err::<PluginRoute, RouteError>(RouteError::NoPublisher),
        initialized && has_publisher ==> r == match *message {
            ChannelMessage::Result(_) => Ok::<PluginRoute, RouteError>(PluginRoute::Result),
            ChannelMessage::Event(_) => Ok(PluginRoute::Event),
            ChannelMessage::Registration(_) => Ok(PluginRoute::Registration),
            _ => Err(RouteError::Unsupported),
        },
{
    if !initialized {
        return Err(RouteError::NotInitialized);
    }
    if !has_publisher {
        return Err(RouteError::NoPublisher);
    }
    match message {
        ChannelMessage::Result(_) => Ok(PluginRoute::Result),
        ChannelMessage::Event(_) => Ok(PluginRoute::Event),
        ChannelMessage::Registration(_) => Ok(PluginRoute::Registration),
        _ => Err(RouteError::Unsupported),
    }
}

/// The message of a routing error on the plugin side; an unsupported message is
/// described by the caller, who shows the message itself.
pub fn plugin_route_message(e: RouteError) -> (r: Option<String>)
    ensures
        e == RouteError::NotInitialized ==> (r matches Some(m) && m@ == "Plugin IPC is not initialized"@),
        e == RouteError::NoPublisher ==> (r matches Some(m) && m@ == "Plugin publisher is not initialized"@),
        e == RouteError::Unsupported ==> r is None,
{
    match e {
        RouteError::NotInitialized => Some(String::from_str("Plugin IPC is not initialized")),
        RouteError::NoPublisher => Some(String::from_str("Plugin publisher is not initialized")),
        RouteError::Unsupported => None,
    }
}

/// Law: a plugin's dependencies are complete exactly when every one of them is
/// registered; when one is missing, the dependency reported is the first one, in
/// the plugin's order, that is not registered.
pub proof fn law_missing_dependency_is_first_unregistered(
    ids: Seq<(Seq<char>, PluginInfo)>,
    deps: Seq<Seq<char>>,
)
    ensures
        missing_dependency(ids, deps) is None <==> forall|k: int|
            0 <= k < deps.len() ==> lookup(ids, #[trigger] deps[k]) is Some,
        missing_dependency(ids, deps) matches Some(d) ==> exists|k: int|
            0 <= k < deps.len() && #[trigger] deps[k] == d && lookup(ids, d) is None && forall|j: int|
                0 <= j < k ==> lookup(ids, #[trigger] deps[j]) is Some,
    decreases deps.len(),
{
    if deps.len() > 0 {
        let d0 = deps.drop_last();
        law_missing_dependency_is_first_unregistered(ids, d0);
        assert forall|k: int| 0 <= k < d0.len() implies #[trigger] d0[k] == deps[k] by {}
        let last = deps.len() - 1;
        match missing_dependency(ids, d0) {
            Some(d) => {
                let k = choose|k: int|
                    0 <= k < d0.len() && #[trigger] d0[k] == d && lookup(ids, d) is None && forall|j: int|
                        0 <= j < k ==> lookup(ids, #[trigger] d0[j]) is Some;
                assert(deps[k] == d);
                assert forall|j: int| 0 <= j < k implies lookup(ids, #[trigger] deps[j]) is Some by {
                    assert(d0[j] == deps[j]);
                }
            },
            None => {
                if lookup(ids, deps.last()) is None {
                    assert(deps[last] == deps.last());
                    assert forall|j: int| 0 <= j < last implies lookup(ids, #[trigger] deps[j]) is Some by {
                        assert(d0[j] == deps[j]);
                    }
                } else {
                    assert forall|k: int| 0 <= k < deps.len() implies lookup(ids, #[trigger] deps[k]) is Some by {
                        if k < last {
                            assert(d0[k] == deps[k]);
                        }
                    }
                }
            },
        }
    }
}

/// Law: every registered plugin of a list is started, in the list's order, with the
/// kind of work its registration names; so each proposed plugin is started once with
/// its own kind.
pub proof fn law_starts_keep_order_and_kind(v: PluginStateView, ids: Seq<Seq<char>>)
    requires
        forall|k: int| 0 <= k < ids.len() ==> v.plugin(#[trigger] ids[k]) is Some,
    ensures
        starts_of(v, ids).len() == ids.len(),
        forall|k: int|
            0 <= k < ids.len() ==> #[trigger] starts_of(v, ids)[k] == (ids[k], v.plugin(ids[k])->0.plugin_type),
    decreases ids.len(),
{
    if ids.len() > 0 {
        let d = ids.drop_last();
        assert forall|k: int| 0 <= k < d.len() implies v.plugin(#[trigger] d[k]) is Some by {
            assert(d[k] == ids[k]);
        }
        law_starts_keep_order_and_kind(v, d);
        assert(v.plugin(ids[ids.len() - 1]) is Some);
        assert forall|k: int| 0 <= k < ids.len() implies #[trigger] starts_of(v, ids)[k] == (
            ids[k],
            v.plugin(ids[k])->0.plugin_type,
        ) by {
            if k < d.len() {
                assert(d[k] == ids[k]);
            }
        }
    }
}

/// Law: a manager cycle starts exactly the plugins the scheduler proposes, in order,
/// each with its registered kind.
pub proof fn law_cycle_starts_the_proposed_plugins(v: PluginStateView)
    requires
        v.wf(),
    ensures
        starts_of(v, v.next_plugins()).len() == v.next_plugins().len(),
        forall|k: int|
            0 <= k < v.next_plugins().len() ==> #[trigger] starts_of(v, v.next_plugins())[k] == (
                v.next_plugins()[k],
                v.plugin(v.next_plugins()[k])->0.plugin_type,
            ),
{
    crate::plugin_state::law_next_plugins_may_start(v);
    law_starts_keep_order_and_kind(v, v.next_plugins());
}

} // verus!
