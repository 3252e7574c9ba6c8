//! Where events and checkpoints are kept. Implementations (databases, files) live with
//! the application; the library states nothing of what they return.
use vstd::prelude::*;

use crate::error::NuroError;
use crate::event::{events_view, Event, EventView};
use crate::json::JsonValue;
use crate::runtime::replay::{filter_by_run, of_run};

verus! {

/// A store of recorded events.
pub trait EventStore {
    /// Records an event.
    fn append(&self, event: &Event) -> Result<(), NuroError>;

    /// The events of a session, in the order they were recorded.
    fn list_by_session(&self, session_id: &str) -> Result<Vec<Event>, NuroError>;

    /// The events of one run of a session: by default, those of the session whose run is
    /// `run_id`.
    fn list_by_session_run(&self, session_id: &str, run_id: &str) -> (r: Result<Vec<Event>, NuroError>)
        default_ensures
            r matches Ok(es) ==> exists|listed: Seq<EventView>|
                events_view(es@) == #[trigger] of_run(listed, run_id@),
    {
        match self.list_by_session(session_id) {
            Ok(events) => Ok(filter_by_run(&events, run_id)),
            Err(e) => Err(e),
        }
    }
}

/// A store of JSON checkpoints, keyed by session and node.
pub trait CheckpointStore {
    /// Saves the checkpoint of `node_id` in `session_id`.
    fn save_checkpoint(&self, session_id: &str, node_id: &str, state: &JsonValue) -> Result<(), NuroError>;

    /// The checkpoint of `node_id` in `session_id`, if one was saved.
    fn load_checkpoint(&self, session_id: &str, node_id: &str) -> Result<Option<JsonValue>, NuroError>;
}

} // verus!
