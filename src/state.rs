//! The persisted story-list snapshot used for restart recovery.
use vstd::prelude::*;

use crate::types::Story;

verus! {

/// Save time, the full top-level id list, and the stories materialized so far.
#[derive(Debug, Clone)]
pub struct StoryListState {
    pub saved_at: i64,
    pub story_ids: Vec<u64>,
    pub stories: Vec<Story>,
}

/// Why a snapshot is refused.
#[derive(Debug, Clone, Copy, PartialEq, Eq)]
pub enum StateError {
    /// The id list is empty (likely a failed fetch): keep the older snapshot.
    EmptyStoryIds,
    /// The story list is empty: keep the older snapshot.
    EmptyStories,
}

impl StoryListState {
    pub open spec fn wf(&self) -> bool {
        self.story_ids@.len() > 0 && self.stories@.len() > 0
    }
}

/// Builds the snapshot to persist; an empty id list or story list is refused
/// so that a good snapshot is never replaced by an empty one.
pub fn save_story_list_state(story_ids: Vec<u64>, stories: Vec<Story>, saved_at: i64) -> (r: Result<StoryListState, StateError>)
    ensures
        story_ids@.len() == 0 ==> r == Err::<StoryListState, StateError>(StateError::EmptyStoryIds),
        story_ids@.len() > 0 && stories@.len() == 0 ==> r == Err::<StoryListState, StateError>(
            StateError::EmptyStories,
        ),
        story_ids@.len() > 0 && stories@.len() > 0 ==> (r matches Ok(s) && s.wf() && s.saved_at
            == saved_at && s.story_ids@ == story_ids@ && s.stories@ == stories@),
{
    if story_ids.len() == 0 {
        return Err(StateError::EmptyStoryIds);
    }
    if stories.len() == 0 {
        return Err(StateError::EmptyStories);
    }
    Ok(StoryListState { saved_at, story_ids, stories })
}

/// Whether a loaded snapshot may be restored: both lists non-empty.
pub fn restorable(state: &StoryListState) -> (r: bool)
    ensures
        r == state.wf(),
{
    state.story_ids.len() > 0 && state.stories.len() > 0
}

} // verus!
