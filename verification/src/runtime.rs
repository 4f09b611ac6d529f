//! The life of a plugin process as decisions: what it does next after each outcome,
//! and how its lifecycle events travel as numeric ids.
use crate::plugin_types::{PluginEvent, PluginMessage, PluginType};
use crate::text::{append_str, copy_string};
use vstd::prelude::*;

verus! {

/// The numeric id under which a lifecycle event is signalled.
pub open spec fn event_id_of(e: PluginEvent) -> usize {
    match e {
        PluginEvent::ResourceReady { .. } => 1,
        PluginEvent::Started(_) => 2,
        PluginEvent::Failed(_, _) => 3,
        PluginEvent::Shutdown(_) => 4,
    }
}

/// The numeric id under which a lifecycle event is signalled.
pub fn event_id(e: &PluginEvent) -> (r: usize)
    ensures
        r == event_id_of(*e),
{
    match e {
        PluginEvent::ResourceReady { .. } => 1,
        PluginEvent::Started(_) => 2,
        PluginEvent::Failed(_, _) => 3,
        PluginEvent::Shutdown(_) => 4,
    }
}

/// The event that the receiving side makes of a signalled id. An id carries no
/// details, so these are fixed placeholders; an unknown id gives nothing.
pub fn event_from_id(id: usize) -> (r: Option<PluginEvent>)
    ensures
        1 <= id <= 4 <==> r is Some,
        r matches Some(e) ==> event_id_of(e) == id,
        id == 1 ==> (r matches Some(PluginEvent::ResourceReady { id: i, plugin_type })
            && i@ == "plugin-id"@ && plugin_type == PluginType::Analysis),
        id == 2 ==> (r matches Some(PluginEvent::Started(i)) && i@ == "plugin-id"@),
        id == 3 ==> (r matches Some(PluginEvent::Failed(i, m)) && i@ == "plugin-id"@ && m@ == "error"@),
        id == 4 ==> (r matches Some(PluginEvent::Shutdown(i)) && i@ == "plugin-id"@),
{
    if id == 1 {
        Some(PluginEvent::ResourceReady { id: String::from_str("plugin-id"), plugin_type: PluginType::Analysis })
    } else if id == 2 {
        Some(PluginEvent::Started(String::from_str("plugin-id")))
    } else if id == 3 {
        Some(PluginEvent::Failed(String::from_str("plugin-id"), String::from_str("error")))
    } else if id == 4 {
        Some(PluginEvent::Shutdown(String::from_str("plugin-id")))
    } else {
        None
    }
}

/// Every event's id is understood on the receiving side as an event of the same kind.
pub proof fn law_event_kind_survives_signalling(e: PluginEvent)
    ensures
        1 <= event_id_of(e) <= 4,
        match e {
            PluginEvent::ResourceReady { .. } => event_id_of(e) == 1,
            PluginEvent::Started(_) => event_id_of(e) == 2,
            PluginEvent::Failed(_, _) => event_id_of(e) == 3,
            PluginEvent::Shutdown(_) => event_id_of(e) == 4,
        },
{
}

/// Whether a plugin takes a data message: only those addressed to its kind.
pub fn wants_message(msg: &PluginMessage, own: PluginType) -> (r: bool)
    ensures
        r == (msg.plugin_type == own),
{
    msg.plugin_type == own
}

/// The message carrying a plugin's result.
pub fn result_message(plugin_id: &String, plugin_type: PluginType, data: Vec<u8>) -> (r: PluginMessage)
    ensures
        r.plugin_id@ == plugin_id@,
        r.plugin_type == plugin_type,
        r.data@ == data@,
{
    PluginMessage { plugin_id: copy_string(plugin_id), plugin_type, data }
}

/// The message carrying work for plugins of a kind; it names no plugin.
pub fn data_message(plugin_type: PluginType, data: Vec<u8>) -> (r: PluginMessage)
    ensures
        r.plugin_id@ == Seq::<char>::empty(),
        r.plugin_type == plugin_type,
        r.data@ == data@,
{
    PluginMessage { plugin_id: String::new(), plugin_type, data }
}

/// Where a plugin process is in its life.
#[derive(Debug)]
pub enum RuntimePhase {
    /// Not started.
    Start,
    /// Waiting for the plugin's initialisation.
    Initializing,
    /// Waiting for the ready event to be signalled.
    AnnouncingReady,
    /// Waiting for work.
    Receiving,
    /// Waiting for the started event to be signalled; then this work is processed.
    AnnouncingStart(Vec<u8>),
    /// Waiting for the plugin to process work.
    Processing,
    /// Waiting for the result to be sent.
    Sending,
    /// Waiting for the failure event to be signalled; the plugin's error message.
    AnnouncingFailure(String),
    /// Waiting for the plugin's shutdown.
    ShuttingDown,
    /// Waiting for the shutdown event to be signalled.
    AnnouncingShutdown,
    /// Finished.
    Done,
}

/// A plugin process: its id, its kind, and its phase.
#[derive(Debug)]
pub struct RuntimeState {
    pub plugin_id: String,
    pub plugin_type: PluginType,
    pub phase: RuntimePhase,
}

/// The outcome of the last action, as the process driving the plugin reports it.
/// Errors are their messages.
#[derive(Debug)]
pub enum RuntimeEvent {
    Begin,
    Initialized(Result<(), String>),
    Signalled(Result<(), String>),
    Received(Result<Option<Vec<u8>>, String>),
    Processed(Result<Vec<u8>, String>),
    ResultSent(Result<(), String>),
    ShutDown(Result<(), String>),
}

/// What the driving process does next.
#[derive(Debug)]
pub enum RuntimeAction {
    /// Initialise the plugin.
    Init,
    /// Signal a lifecycle event.
    Notify(PluginEvent),
    /// Wait for work.
    Receive,
    /// Let the plugin process this work.
    Process(Vec<u8>),
    /// Send this result.
    SendResult(Vec<u8>),
    /// Shut the plugin down.
    Shutdown,
    /// Stop, successfully or with an error message.
    Stop(Result<(), String>),
    /// The outcome does not belong to the current phase: nothing to do.
    Ignore,
}

/// The message of a processing failure.
pub open spec fn processing_error(id: Seq<char>, e: Seq<char>) -> Seq<char> {
    "Plugin processing error for plugin ID "@ + id + ": "@ + e
}

fn prefixed(prefix: &str, e: &String) -> (r: String)
    ensures
        r@ == prefix@ + e@,
{
    let mut m = String::from_str(prefix);
    append_str(&mut m, e.as_str());
    m
}

impl RuntimeState {
    /// A plugin process that has not started.
    pub fn new(plugin_id: String, plugin_type: PluginType) -> (r: Self)
        ensures
            r.plugin_id@ == plugin_id@,
            r.plugin_type == plugin_type,
            r.phase is Start,
    {
        RuntimeState { plugin_id, plugin_type, phase: RuntimePhase::Start }
    }

    /// The next action after an outcome; the phase moves on accordingly. The plugin
    /// is initialised and announced ready; then each piece of work is announced,
    /// processed and its result sent, until no work is left; then the plugin is shut
    /// down and that is announced. The first failure stops the process: a failed
    /// processing is announced first.
    pub fn step(&mut self, event: RuntimeEvent) -> (r: RuntimeAction)
        ensures
            final(self).plugin_id@ == old(self).plugin_id@,
            final(self).plugin_type == old(self).plugin_type,
            ({
                let id = old(self).plugin_id@;
                match (old(self).phase, event) {
                    (RuntimePhase::Start, RuntimeEvent::Begin) =>
                        r is Init && final(self).phase is Initializing,
                    (RuntimePhase::Initializing, RuntimeEvent::Initialized(Ok(()))) =>
                        (r matches RuntimeAction::Notify(PluginEvent::ResourceReady { id: i, plugin_type: t })
                            && i@ == id && t == old(self).plugin_type)
                        && final(self).phase is AnnouncingReady,
                    (RuntimePhase::Initializing, RuntimeEvent::Initialized(Err(e))) =>
                        (r matches RuntimeAction::Stop(Err(m)) && m@ == "Plugin initialization failed: "@ + e@)
                        && final(self).phase is Done,
                    (RuntimePhase::AnnouncingReady, RuntimeEvent::Signalled(Ok(()))) =>
                        r is Receive && final(self).phase is Receiving,
                    (RuntimePhase::Receiving, RuntimeEvent::Received(Ok(Some(d)))) =>
                        (r matches RuntimeAction::Notify(PluginEvent::Started(i)) && i@ == id)
                        && (final(self).phase matches RuntimePhase::AnnouncingStart(x) && x@ == d@),
                    (RuntimePhase::Receiving, RuntimeEvent::Received(Ok(None))) =>
                        r is Shutdown && final(self).phase is ShuttingDown,
                    (RuntimePhase::AnnouncingStart(d), RuntimeEvent::Signalled(Ok(()))) =>
                        (r matches RuntimeAction::Process(x) && x@ == d@) && final(self).phase is Processing,
                    (RuntimePhase::Processing, RuntimeEvent::Processed(Ok(res))) =>
                        (r matches RuntimeAction::SendResult(x) && x@ == res@) && final(self).phase is Sending,
                    (RuntimePhase::Processing, RuntimeEvent::Processed(Err(e))) =>
                        (r matches RuntimeAction::Notify(PluginEvent::Failed(i, m)) && i@ == id && m@ == e@)
                        && (final(self).phase matches RuntimePhase::AnnouncingFailure(m) && m@ == e@),
                    (RuntimePhase::Sending, RuntimeEvent::ResultSent(Ok(()))) =>
                        r is Receive && final(self).phase is Receiving,
                    (RuntimePhase::Sending, RuntimeEvent::ResultSent(Err(e))) =>
                        (r matches RuntimeAction::Stop(Err(m)) && m@ == "Failed to send result: "@ + e@)
                        && final(self).phase is Done,
                    (RuntimePhase::AnnouncingFailure(e), RuntimeEvent::Signalled(Ok(()))) =>
                        (r matches RuntimeAction::Stop(Err(m)) && m@ == processing_error(id, e@))
                        && final(self).phase is Done,
                    (RuntimePhase::ShuttingDown, RuntimeEvent::ShutDown(Ok(()))) =>
                        (r matches RuntimeAction::Notify(PluginEvent::Shutdown(i)) && i@ == id)
                        && final(self).phase is AnnouncingShutdown,
                    (RuntimePhase::ShuttingDown, RuntimeEvent::ShutDown(Err(e))) =>
                        (r matches RuntimeAction::Stop(Err(m)) && m@ == "Plugin shutdown failed: "@ + e@)
                        && final(self).phase is Done,
                    (RuntimePhase::AnnouncingShutdown, RuntimeEvent::Signalled(Ok(()))) =>
                        r matches RuntimeAction::Stop(Ok(())) && final(self).phase is Done,
                    (RuntimePhase::AnnouncingReady, RuntimeEvent::Signalled(Err(e))) =>
                        (r matches RuntimeAction::Stop(Err(m)) && m@ == e@) && final(self).phase is Done,
                    (RuntimePhase::AnnouncingStart(_), RuntimeEvent::Signalled(Err(e))) =>
                        (r matches RuntimeAction::Stop(Err(m)) && m@ == e@) && final(self).phase is Done,
                    (RuntimePhase::AnnouncingFailure(_), RuntimeEvent::Signalled(Err(e))) =>
                        (r matches RuntimeAction::Stop(Err(m)) && m@ == e@) && final(self).phase is Done,
                    (RuntimePhase::AnnouncingShutdown, RuntimeEvent::Signalled(Err(e))) =>
                        (r matches RuntimeAction::Stop(Err(m)) && m@ == e@) && final(self).phase is Done,
                    (RuntimePhase::Receiving, RuntimeEvent::Received(Err(e))) =>
                        (r matches RuntimeAction::Stop(Err(m)) && m@ == e@) && final(self).phase is Done,
                    _ => r is Ignore && final(self).phase == old(self).phase,
                }
            }),
    {
        let mut phase = RuntimePhase::Done;
        std::mem::swap(&mut phase, &mut self.phase);
        let (next, action) = match (phase, event) {
            (RuntimePhase::Start, RuntimeEvent::Begin) => (RuntimePhase::Initializing, RuntimeAction::Init),
            (RuntimePhase::Initializing, RuntimeEvent::Initialized(Ok(()))) => (
                RuntimePhase::AnnouncingReady,
                RuntimeAction::Notify(PluginEvent::ResourceReady {
                    id: copy_string(&self.plugin_id),
                    plugin_type: self.plugin_type,
                }),
            ),
            (RuntimePhase::Initializing, RuntimeEvent::Initialized(Err(e))) => (
                RuntimePhase::Done,
                RuntimeAction::Stop(Err(prefixed("Plugin initialization failed: ", &e))),
            ),
            (RuntimePhase::AnnouncingReady, RuntimeEvent::Signalled(Ok(()))) => (RuntimePhase::Receiving, RuntimeAction::Receive),
            (RuntimePhase::Receiving, RuntimeEvent::Received(Ok(Some(d)))) => (
                RuntimePhase::AnnouncingStart(d),
                RuntimeAction::Notify(PluginEvent::Started(copy_string(&self.plugin_id))),
            ),
            (RuntimePhase::Receiving, RuntimeEvent::Received(Ok(None))) => (RuntimePhase::ShuttingDown, RuntimeAction::Shutdown),
            (RuntimePhase::AnnouncingStart(d), RuntimeEvent::Signalled(Ok(()))) => (RuntimePhase::Processing, RuntimeAction::Process(d)),
            (RuntimePhase::Processing, RuntimeEvent::Processed(Ok(res))) => (RuntimePhase::Sending, RuntimeAction::SendResult(res)),
            (RuntimePhase::Processing, RuntimeEvent::Processed(Err(e))) => {
                let m = copy_string(&e);
                (
                    RuntimePhase::AnnouncingFailure(e),
                    RuntimeAction::Notify(PluginEvent::Failed(copy_string(&self.plugin_id), m)),
                )
            },
            (RuntimePhase::Sending, RuntimeEvent::ResultSent(Ok(()))) => (RuntimePhase::Receiving, RuntimeAction::Receive),
            (RuntimePhase::Sending, RuntimeEvent::ResultSent(Err(e))) => (
                RuntimePhase::Done,
                RuntimeAction::Stop(Err(prefixed("Failed to send result: ", &e))),
            ),
            (RuntimePhase::AnnouncingFailure(e), RuntimeEvent::Signalled(Ok(()))) => {
                let mut m = String::from_str("Plugin processing error for plugin ID ");
                append_str(&mut m, self.plugin_id.as_str());
                append_str(&mut m, ": ");
                append_str(&mut m, e.as_str());
                (RuntimePhase::Done, RuntimeAction::Stop(Err(m)))
            },
            (RuntimePhase::ShuttingDown, RuntimeEvent::ShutDown(Ok(()))) => (
                RuntimePhase::AnnouncingShutdown,
                RuntimeAction::Notify(PluginEvent::Shutdown(copy_string(&self.plugin_id))),
            ),
            (RuntimePhase::ShuttingDown, RuntimeEvent::ShutDown(Err(e))) => (
                RuntimePhase::Done,
                RuntimeAction::Stop(Err(prefixed("Plugin shutdown failed: ", &e))),
            ),
            (RuntimePhase::AnnouncingShutdown, RuntimeEvent::Signalled(Ok(()))) => (RuntimePhase::Done, RuntimeAction::Stop(Ok(()))),
            (RuntimePhase::AnnouncingReady, RuntimeEvent::Signalled(Err(e))) => (RuntimePhase::Done, RuntimeAction::Stop(Err(e))),
            (RuntimePhase::AnnouncingStart(_), RuntimeEvent::Signalled(Err(e))) => (RuntimePhase::Done, RuntimeAction::Stop(Err(e))),
            (RuntimePhase::AnnouncingFailure(_), RuntimeEvent::Signalled(Err(e))) => (RuntimePhase::Done, RuntimeAction::Stop(Err(e))),
            (RuntimePhase::AnnouncingShutdown, RuntimeEvent::Signalled(Err(e))) => (RuntimePhase::Done, RuntimeAction::Stop(Err(e))),
            (RuntimePhase::Receiving, RuntimeEvent::Received(Err(e))) => (RuntimePhase::Done, RuntimeAction::Stop(Err(e))),
            (p, _) => (p, RuntimeAction::Ignore),
        };
        self.phase = next;
        action
    }
}

} // verus!
