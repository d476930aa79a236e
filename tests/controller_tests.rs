use hntui::config::Cli;
use hntui::controller::{App, AppEvent, Effect, LoadKind, Screen, StoriesLoadMode};
use hntui::fetch::nodes_from_items;
use hntui::input::{Action, KeyCode, KeyInput, Modifiers};
use hntui::types::{HnItem, Story};

fn cli() -> Cli {
    Cli {
        count: 30,
        page_size: 30,
        cache_size: 500,
        concurrency: 20,
        no_file_cache: true,
        file_cache_dir: None,
        file_cache_ttl_secs: 3600,
        base_url: "https://hacker-news.firebaseio.com/v0".to_string(),
        ui_config: None,
    }
}

fn item(id: u64, kind: &str, kids: &[u64]) -> HnItem {
    HnItem {
        id,
        kind: Some(kind.to_string()),
        by: Some("someone".to_string()),
        time: Some(1_000),
        title: Some(format!("story {id}")),
        url: None,
        text: Some(format!("comment {id}")),
        score: Some(10),
        descendants: Some(kids.len() as i64),
        kids: if kids.is_empty() { None } else { Some(kids.to_vec()) },
        dead: None,
        deleted: None,
    }
}

fn story(id: u64, kids: &[u64]) -> Story {
    Story::try_from_item(item(id, "story", kids)).unwrap()
}

fn loaded_app(stories: Vec<Story>) -> App {
    let mut app = App::new(&cli(), 0);
    app.refresh_stories();
    let generation = app.stories_generation;
    let ids: Vec<u64> = stories.iter().map(|s| s.id).collect();
    app.handle_app_event(AppEvent::StoriesLoaded {
        generation,
        mode: StoriesLoadMode::Replace,
        story_ids: Some(ids),
        stories,
    });
    app.take_effects();
    app
}

#[test]
fn stale_stories_result_changes_nothing() {
    let mut app = loaded_app(vec![story(1, &[]), story(2, &[])]);
    app.refresh_stories();
    let current = app.stories_generation;
    app.take_effects();
    app.handle_app_event(AppEvent::StoriesLoaded {
        generation: current.wrapping_sub(1),
        mode: StoriesLoadMode::Replace,
        story_ids: Some(vec![99]),
        stories: vec![story(99, &[])],
    });
    assert_eq!(app.stories.len(), 2);
    assert_eq!(app.story_ids, vec![1, 2]);
    assert!(app.story_loading);
    assert!(app.take_effects().is_empty());
}

#[test]
fn refresh_requests_stories_under_new_generation() {
    let mut app = App::new(&cli(), 0);
    app.refresh_stories();
    let effects = app.take_effects();
    assert_eq!(effects.len(), 1);
    match &effects[0] {
        Effect::LoadStories { generation, count } => {
            assert_eq!(*generation, 1);
            assert_eq!(*count, 30);
        }
        other => panic!("unexpected effect {other:?}"),
    }
    assert!(app.story_loading);
}

#[test]
fn current_stories_result_replaces_list_and_saves_snapshot() {
    let mut app = App::new(&cli(), 0);
    app.refresh_stories();
    let generation = app.stories_generation;
    app.take_effects();
    app.handle_app_event(AppEvent::StoriesLoaded {
        generation,
        mode: StoriesLoadMode::Replace,
        story_ids: Some(vec![1, 2, 3]),
        stories: vec![story(1, &[]), story(2, &[])],
    });
    assert!(!app.story_loading);
    assert_eq!(app.stories.len(), 2);
    assert_eq!(app.story_ids, vec![1, 2, 3]);
    let effects = app.take_effects();
    assert!(effects.iter().any(|e| matches!(e, Effect::SaveStoryList { story_ids, .. } if story_ids == &vec![1, 2, 3])));
}

#[test]
fn error_for_current_load_is_surfaced() {
    let mut app = App::new(&cli(), 0);
    app.refresh_stories();
    let generation = app.stories_generation;
    app.handle_app_event(AppEvent::Error { generation, kind: LoadKind::Stories, message: "boom".to_string() });
    assert!(!app.story_loading);
    assert_eq!(app.last_error.as_deref(), Some("boom"));
    app.handle_app_event(AppEvent::Error {
        generation: generation + 5,
        kind: LoadKind::Stories,
        message: "late".to_string(),
    });
    assert_eq!(app.last_error.as_deref(), Some("boom"));
}

#[test]
fn error_of_another_class_is_stale() {
    let mut app = App::new(&cli(), 0);
    app.refresh_stories();
    let generation = app.stories_generation;
    assert_ne!(generation, app.comments_generation);
    app.handle_app_event(AppEvent::Error { generation, kind: LoadKind::Comments, message: "late".to_string() });
    assert!(app.story_loading);
    assert_eq!(app.last_error, None);
}

#[test]
fn help_and_quit_actions() {
    let mut app = App::new(&cli(), 0);
    app.handle_action(Action::ToggleHelp);
    assert!(app.help_visible);
    app.handle_action(Action::BackOrQuit);
    assert!(!app.help_visible);
    assert!(!app.should_quit());
    app.handle_action(Action::BackOrQuit);
    assert!(app.should_quit());
}

#[test]
fn end_to_end_story_comments_and_expansion() {
    let mut app = loaded_app(vec![story(42, &[1, 2])]);
    app.handle_action(Action::Enter);
    assert_eq!(app.view, Screen::Comments);
    let effects = app.take_effects();
    let (generation, kids) = match &effects[..] {
        [Effect::LoadComments { generation, story_id: 42, kids }] => (*generation, kids.clone()),
        other => panic!("unexpected effects {other:?}"),
    };
    assert_eq!(kids, vec![1, 2]);
    let roots = nodes_from_items(vec![item(1, "comment", &[5]), item(2, "comment", &[])], 0);
    app.handle_app_event(AppEvent::CommentsLoaded { generation, story_id: 42, comments: roots });
    assert_eq!(app.comment_tree.len(), 2);
    assert!(app.comment_tree.iter().all(|n| n.comment.depth == 0));
    assert_eq!(app.comment_list.len(), 2);

    app.comment_list_state.select(Some(0));
    app.handle_action(Action::Expand);
    let effects = app.take_effects();
    let children_fetches: Vec<&Effect> =
        effects.iter().filter(|e| matches!(e, Effect::LoadCommentChildren { .. })).collect();
    assert_eq!(children_fetches.len(), 1);
    let generation = match children_fetches[0] {
        Effect::LoadCommentChildren { generation, parent_id: 1, kids, depth: 1 } => {
            assert_eq!(kids, &vec![5]);
            *generation
        }
        other => panic!("unexpected effect {other:?}"),
    };
    assert!(app.comment_tree[0].comment.children_loading);

    let children = nodes_from_items(vec![item(5, "comment", &[])], 1);
    app.handle_app_event(AppEvent::CommentChildrenLoaded { generation, parent_id: 1, children });
    assert_eq!(app.comment_tree[0].children.len(), 1);
    assert_eq!(app.comment_tree[0].children[0].comment.depth, 1);
    assert!(app.comment_tree[0].comment.children_loaded);
    assert!(!app.comment_tree[0].comment.children_loading);
    let ids: Vec<u64> = app.comment_list.iter().map(|c| c.id).collect();
    assert_eq!(ids, vec![1, 5, 2]);
}

#[test]
fn children_fetch_failure_collapses_node() {
    let mut app = loaded_app(vec![story(42, &[1])]);
    app.handle_action(Action::Enter);
    let generation = match &app.take_effects()[..] {
        [Effect::LoadComments { generation, .. }] => *generation,
        other => panic!("unexpected effects {other:?}"),
    };
    let roots = nodes_from_items(vec![item(1, "comment", &[5])], 0);
    app.handle_app_event(AppEvent::CommentsLoaded { generation, story_id: 42, comments: roots });
    app.comment_list_state.select(Some(0));
    app.handle_action(Action::Expand);
    let generation = match &app.take_effects()[..] {
        [Effect::LoadCommentChildren { generation, .. }] => *generation,
        other => panic!("unexpected effects {other:?}"),
    };
    app.handle_app_event(AppEvent::CommentChildrenError {
        generation,
        parent_id: 1,
        message: "network down".to_string(),
    });
    assert!(app.comment_tree[0].comment.collapsed);
    assert!(!app.comment_tree[0].comment.children_loading);
    assert!(app.comment_tree[0].children.is_empty());
    assert_eq!(app.last_error.as_deref(), Some("network down"));
}

#[test]
fn idle_prefetch_starts_closest_stories_first() {
    let mut app = loaded_app(vec![story(1, &[11]), story(2, &[12]), story(3, &[13]), story(4, &[])]);
    app.story_list_state.select(Some(1));
    app.tick(10_000);
    let effects = app.take_effects();
    let prefetched: Vec<u64> = effects
        .iter()
        .filter_map(|e| match e {
            Effect::PrefetchComments { story_id, .. } => Some(*story_id),
            _ => None,
        })
        .collect();
    assert_eq!(prefetched, vec![2, 1, 3]);
    assert!(app.is_comment_prefetching_for_story(2));
    assert!(!app.is_comment_prefetching_for_story(4));
}

#[test]
fn restore_refuses_empty_snapshot() {
    let mut app = App::new(&cli(), 0);
    app.restore_story_list_state(vec![], vec![]);
    assert!(app.last_error.is_some());
    assert!(app.stories.is_empty());
    app.restore_story_list_state(vec![7], vec![story(7, &[])]);
    assert_eq!(app.stories.len(), 1);
}

#[test]
fn short_list_prefetches_next_page() {
    let mut app = App::new(&cli(), 0);
    app.refresh_stories();
    let generation = app.stories_generation;
    app.take_effects();
    app.handle_app_event(AppEvent::StoriesLoaded {
        generation,
        mode: StoriesLoadMode::Replace,
        story_ids: Some((1..=40).collect()),
        stories: vec![story(1, &[]), story(2, &[])],
    });
    app.take_effects();
    app.maybe_prefetch_stories();
    let effects = app.take_effects();
    match &effects[..] {
        [Effect::LoadMoreStories { generation: g, ids }] => {
            assert_eq!(*g, generation);
            assert_eq!(ids, &(3..=32).collect::<Vec<u64>>());
        }
        other => panic!("unexpected effects {other:?}"),
    }
    assert!(app.prefetch_in_flight);
    app.maybe_prefetch_stories();
    assert!(app.take_effects().is_empty());
}

#[test]
fn prefetch_error_for_unawaited_story_stays_in_background() {
    let mut app = loaded_app(vec![story(1, &[11]), story(2, &[])]);
    app.tick(10_000);
    let generation = match &app.take_effects()[..] {
        [Effect::PrefetchComments { generation, story_id: 1, .. }] => *generation,
        other => panic!("unexpected effects {other:?}"),
    };
    app.note_user_activity(10_000);
    app.handle_app_event(AppEvent::PrefetchError { generation, story_id: 1, message: "timeout".to_string() });
    assert_eq!(app.last_error, None);
    assert!(!app.comment_loading);
    assert!(!app.is_comment_prefetching_for_story(1));
}

#[test]
fn prefetch_error_for_awaited_story_is_shown() {
    let mut app = loaded_app(vec![story(1, &[11])]);
    app.tick(10_000);
    let generation = match &app.take_effects()[..] {
        [Effect::PrefetchComments { generation, story_id: 1, .. }] => *generation,
        other => panic!("unexpected effects {other:?}"),
    };
    app.handle_action(Action::Enter);
    assert_eq!(app.awaiting_prefetch_story_id, Some(1));
    assert!(app.comment_loading);
    assert!(app.take_effects().is_empty());
    app.handle_app_event(AppEvent::PrefetchError { generation, story_id: 1, message: "timeout".to_string() });
    assert_eq!(app.last_error.as_deref(), Some("timeout"));
    assert!(!app.comment_loading);
    assert_eq!(app.awaiting_prefetch_story_id, None);
}

#[test]
fn prefetched_comments_are_shown_without_fetching() {
    let mut app = loaded_app(vec![story(1, &[11])]);
    app.tick(10_000);
    let generation = match &app.take_effects()[..] {
        [Effect::PrefetchComments { generation, story_id: 1, .. }] => *generation,
        other => panic!("unexpected effects {other:?}"),
    };
    let roots = nodes_from_items(vec![item(11, "comment", &[])], 0);
    app.handle_app_event(AppEvent::CommentsPrefetched { generation, story_id: 1, comments: roots });
    assert!(app.prefetched_comments_cache.contains_key(&1));
    let comments_generation = app.comments_generation;
    app.handle_action(Action::Enter);
    assert_eq!(app.view, Screen::Comments);
    assert!(app.take_effects().is_empty());
    assert!(!app.prefetched_comments_cache.contains_key(&1));
    assert_eq!(app.comments_generation, comments_generation);
    assert_eq!(app.current_story.as_ref().map(|s| s.id), Some(1));
    let ids: Vec<u64> = app.comment_list.iter().map(|c| c.id).collect();
    assert_eq!(ids, vec![11]);
}

#[test]
fn refresh_keeps_the_selected_story_selected() {
    let mut app = loaded_app(vec![story(1, &[]), story(2, &[]), story(3, &[])]);
    app.story_list_state.select(Some(1));
    app.refresh_stories();
    assert_eq!(app.pending_story_selection_id, Some(2));
    let generation = app.stories_generation;
    app.handle_app_event(AppEvent::StoriesLoaded {
        generation,
        mode: StoriesLoadMode::Replace,
        story_ids: Some(vec![9, 2, 1]),
        stories: vec![story(9, &[]), story(8, &[]), story(2, &[])],
    });
    assert_eq!(app.story_list_state.selected, Some(2));
    assert_eq!(app.pending_story_selection_id, None);
}

#[test]
fn missing_comment_reports_its_id() {
    let mut app = loaded_app(vec![story(42, &[1])]);
    app.start_loading_comment_children(77);
    assert_eq!(app.last_error.as_deref(), Some("comment not found id=77"));
    assert!(app.take_effects().is_empty());
}

#[test]
fn toggle_collapses_and_expands_loaded_comment() {
    let mut app = loaded_app(vec![story(42, &[1])]);
    app.handle_action(Action::Enter);
    let generation = match &app.take_effects()[..] {
        [Effect::LoadComments { generation, .. }] => *generation,
        other => panic!("unexpected effects {other:?}"),
    };
    let mut roots = nodes_from_items(vec![item(1, "comment", &[5])], 0);
    roots[0].children = nodes_from_items(vec![item(5, "comment", &[])], 1);
    roots[0].comment.children_loaded = true;
    app.handle_app_event(AppEvent::CommentsLoaded { generation, story_id: 42, comments: roots });
    let ids: Vec<u64> = app.comment_list.iter().map(|c| c.id).collect();
    assert_eq!(ids, vec![1, 5]);
    app.comment_list_state.select(Some(0));
    app.toggle_selected_comment_collapse();
    assert!(app.comment_tree[0].comment.collapsed);
    assert_eq!(app.comment_list.len(), 1);
    app.toggle_selected_comment_collapse();
    assert!(!app.comment_tree[0].comment.collapsed);
    assert_eq!(app.comment_list.len(), 2);
    assert!(app.take_effects().is_empty());
}

#[test]
fn key_press_postpones_idle_prefetch() {
    let mut app = loaded_app(vec![story(1, &[11])]);
    app.handle_key(KeyInput { code: KeyCode::Char('j'), modifiers: Modifiers::Plain }, 10_000);
    assert_eq!(app.last_user_activity_ms, 10_000);
    assert_eq!(app.now_ms, 10_000);
    app.tick(10_100);
    assert!(app.take_effects().is_empty());
    app.tick(10_600);
    match &app.take_effects()[..] {
        [Effect::PrefetchComments { story_id: 1, .. }] => {}
        other => panic!("unexpected effects {other:?}"),
    }
}

#[test]
fn refresh_in_comment_view_requests_the_current_story() {
    let mut app = loaded_app(vec![story(42, &[1, 2])]);
    app.handle_action(Action::Enter);
    let first = match &app.take_effects()[..] {
        [Effect::LoadComments { generation, .. }] => *generation,
        other => panic!("unexpected effects {other:?}"),
    };
    app.handle_action(Action::Refresh);
    match &app.take_effects()[..] {
        [Effect::LoadComments { generation, story_id: 42, kids }] => {
            assert_eq!(*generation, first + 1);
            assert_eq!(kids, &vec![1, 2]);
        }
        other => panic!("unexpected effects {other:?}"),
    }
    assert!(app.comment_loading);
}

#[test]
fn keys_are_ignored_while_help_is_shown() {
    let mut app = loaded_app(vec![story(1, &[]), story(2, &[])]);
    app.handle_action(Action::ToggleHelp);
    app.handle_action(Action::MoveDown);
    assert_eq!(app.story_list_state.selected, Some(0));
    assert!(app.help_visible);
    app.handle_action(Action::BackOrQuit);
    assert!(!app.help_visible);
    assert!(!app.should_quit());
}
