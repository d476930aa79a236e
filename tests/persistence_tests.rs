use hntui::atomic_write::{AtomicWrite, StepOutcome, WritePhase, WriteStep};
use hntui::state::{save_story_list_state, StateError};
use hntui::types::{HnItem, Story};

fn story(id: u64) -> Story {
    Story::try_from_item(HnItem {
        id,
        kind: Some("story".to_string()),
        by: Some("a".to_string()),
        time: Some(1),
        title: Some("t".to_string()),
        url: None,
        text: None,
        score: Some(1),
        descendants: None,
        kids: None,
        dead: None,
        deleted: None,
    })
    .unwrap()
}

#[test]
fn empty_snapshot_is_refused() {
    assert_eq!(save_story_list_state(vec![], vec![story(1)], 5).unwrap_err(), StateError::EmptyStoryIds);
    assert_eq!(save_story_list_state(vec![1], vec![], 5).unwrap_err(), StateError::EmptyStories);
    let s = save_story_list_state(vec![1, 2], vec![story(1)], 5).unwrap();
    assert_eq!(s.saved_at, 5);
    assert_eq!(s.story_ids, vec![1, 2]);
}

#[test]
fn atomic_write_plain_path() {
    let mut w = AtomicWrite::new();
    assert_eq!(w.next_step(), WriteStep::WriteTemp);
    w.on_outcome(StepOutcome::Succeeded);
    assert_eq!(w.next_step(), WriteStep::Rename);
    w.on_outcome(StepOutcome::Succeeded);
    assert_eq!(w.next_step(), WriteStep::Finished { ok: true });
}

#[test]
fn atomic_write_retries_once_after_conflict() {
    let mut w = AtomicWrite::new();
    w.on_outcome(StepOutcome::Succeeded);
    w.on_outcome(StepOutcome::AlreadyExists);
    assert_eq!(w.next_step(), WriteStep::RemoveDestination);
    w.on_outcome(StepOutcome::Succeeded);
    assert_eq!(w.next_step(), WriteStep::Rename);
    w.on_outcome(StepOutcome::AlreadyExists);
    assert_eq!(w.phase, WritePhase::Failed);
    assert_eq!(w.next_step(), WriteStep::Finished { ok: false });
}

#[test]
fn failed_temp_write_never_renames() {
    let mut w = AtomicWrite::new();
    w.on_outcome(StepOutcome::Failed);
    assert_eq!(w.next_step(), WriteStep::Finished { ok: false });
}
