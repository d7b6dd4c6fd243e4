//! The state of a world editor: it edits only while the world is paused,
//! and counts its edits.

use vstd::prelude::*;

verus! {

/// The editor of one world: paused or not, and how many edits it made.
#[derive(Debug)]
pub struct WorldEditorState {
    pub world_id: String,
    pub revision: u64,
    pub is_paused: bool,
}

pub open spec fn not_editable_message() -> Seq<char> {
    "World is not paused - editor operations not allowed"@
}

impl WorldEditorState {
    /// A new editor: paused, with no edit made.
    pub fn new(world_id: String) -> (r: WorldEditorState)
        ensures
            r.world_id@ == world_id@,
            r.revision == 0,
            r.is_paused,
    {
        WorldEditorState { world_id, revision: 0, is_paused: true }
    }

    /// Whether the world is paused.
    pub fn is_paused(&self) -> (r: bool)
        ensures
            r == self.is_paused,
    {
        self.is_paused
    }

    /// Pauses or resumes the world.
    pub fn set_paused(&mut self, paused: bool)
        ensures
            final(self).is_paused == paused,
            final(self).revision == old(self).revision,
            final(self).world_id == old(self).world_id,
    {
        self.is_paused = paused;
    }

    /// The number of edits made.
    pub fn revision(&self) -> (r: u64)
        ensures
            r == self.revision,
    {
        self.revision
    }

    /// An edit may start only while the world is paused.
    pub fn ensure_editable(&self) -> (r: Result<(), String>)
        ensures
            match r {
                Ok(_) => self.is_paused,
                Err(e) => !self.is_paused && e@ == not_editable_message(),
            },
    {
        if !self.is_paused {
            return Err("World is not paused - editor operations not allowed".to_owned());
        }
        Ok(())
    }

    /// Counts a finished edit.
    pub fn record_edit(&mut self)
        requires
            old(self).is_paused,
            old(self).revision < u64::MAX,
        ensures
            final(self).revision == old(self).revision + 1,
            final(self).is_paused,
            final(self).world_id == old(self).world_id,
    {
        self.revision = self.revision + 1;
    }
}

/// A location with children cannot be deleted.
pub fn check_location_deletable(child_count: i64) -> (r: Result<(), String>)
    ensures
        match r {
            Ok(_) => child_count <= 0,
            Err(e) => child_count > 0 && e@ == "Cannot delete location with children"@,
        },
{
    if child_count > 0 {
        return Err("Cannot delete location with children".to_owned());
    }
    Ok(())
}

} // verus!
