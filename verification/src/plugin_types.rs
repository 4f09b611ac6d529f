//! Plugin kinds, execution modes, lifecycle events and plugin requirements.
use vstd::prelude::*;

verus! {

/// The kind of work a plugin does.
#[derive(Debug, Clone, Copy, PartialEq, Eq, Structural)]
pub enum PluginType {
    Storage,
    Analysis,
    Machinery,
}

impl PluginType {
    /// The name of the plugin kind, as it is displayed.
    pub fn name(&self) -> (r: &'static str)
        ensures
            r@ == plugin_type_name(*self),
    {
        match self {
            PluginType::Storage => "Storage",
            PluginType::Analysis => "Analysis",
            PluginType::Machinery => "Machinery",
        }
    }
}

/// The displayed name of a plugin kind.
pub open spec fn plugin_type_name(t: PluginType) -> Seq<char> {
    match t {
        PluginType::Storage => "Storage"@,
        PluginType::Analysis => "Analysis"@,
        PluginType::Machinery => "Machinery"@,
    }
}

/// How a plugin may run next to other plugins.
#[derive(Debug, Clone)]
pub enum ExecutionMode {
    /// Runs alone: only when nothing else runs.
    Exclusive,
    /// Runs one at a time; placed first in the batch it joins.
    Sequential,
    /// Runs only next to parallel plugins of the same named group.
    Parallel(String),
    /// Has no requirement of its own.
    Unrestricted,
}

/// A lifecycle event reported by a plugin.
#[derive(Debug, Clone)]
pub enum PluginEvent {
    ResourceReady { id: String, plugin_type: PluginType },
    Started(String),
    Shutdown(String),
    Failed(String, String),
}

/// What a plugin needs from the scheduler.
#[derive(Debug, Clone)]
pub struct PluginRequirements {
    pub plugin_type: PluginType,
    pub execution_mode: ExecutionMode,
    /// Plugins that must be running before this one starts.
    pub required_plugins: Vec<String>,
    /// Plugins this one must not run next to.
    pub incompatible_plugins: Vec<String>,
}

/// A message exchanged between the core and a plugin.
#[derive(Debug, Clone)]
pub struct PluginMessage {
    pub plugin_id: String,
    pub plugin_type: PluginType,
    pub data: Vec<u8>,
}

} // verus!
