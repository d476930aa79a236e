use hntui::types::{Comment, HnItem, ItemError, Story, StoryField};

fn story_item(id: u64) -> HnItem {
    HnItem {
        id,
        kind: Some("story".to_string()),
        by: Some("pg".to_string()),
        time: Some(1_700_000_000),
        title: Some("A title".to_string()),
        url: Some("https://example.com/a".to_string()),
        text: None,
        score: Some(42),
        descendants: Some(7),
        kids: Some(vec![1, 2]),
        dead: None,
        deleted: None,
    }
}

fn comment_item(id: u64) -> HnItem {
    HnItem {
        id,
        kind: Some("comment".to_string()),
        by: Some("bob".to_string()),
        time: Some(10),
        title: None,
        url: None,
        text: Some("hello".to_string()),
        score: None,
        descendants: None,
        kids: None,
        dead: None,
        deleted: None,
    }
}

#[test]
fn story_from_valid_item() {
    let s = Story::try_from_item(story_item(42)).unwrap();
    assert_eq!(s.id, 42);
    assert_eq!(s.title, "A title");
    assert_eq!(s.url.as_deref(), Some("https://example.com/a"));
    assert_eq!(s.score, 42);
    assert_eq!(s.by, "pg");
    assert_eq!(s.comment_count, 7);
    assert_eq!(s.kids, vec![1, 2]);
}

#[test]
fn story_defaults_for_optional_fields() {
    let mut it = story_item(5);
    it.descendants = None;
    it.kids = None;
    it.url = None;
    let s = Story::try_from_item(it).unwrap();
    assert_eq!(s.comment_count, 0);
    assert!(s.kids.is_empty());
    assert!(s.url.is_none());
}

#[test]
fn story_rejects_wrong_kind() {
    let mut it = story_item(9);
    it.kind = Some("comment".to_string());
    assert_eq!(Story::try_from_item(it).unwrap_err(), ItemError::WrongKind { id: 9 });
    let mut it = story_item(9);
    it.kind = None;
    assert_eq!(Story::try_from_item(it).unwrap_err(), ItemError::WrongKind { id: 9 });
}

#[test]
fn story_reports_first_missing_field() {
    let mut it = story_item(3);
    it.title = None;
    it.score = None;
    assert_eq!(
        Story::try_from_item(it).unwrap_err(),
        ItemError::MissingField { id: 3, field: StoryField::Title }
    );
    let mut it = story_item(3);
    it.time = None;
    assert_eq!(
        Story::try_from_item(it).unwrap_err(),
        ItemError::MissingField { id: 3, field: StoryField::Time }
    );
}

#[test]
fn comment_keeps_text_and_depth() {
    let c = Comment::from_item(comment_item(11), 3);
    assert_eq!(c.id, 11);
    assert_eq!(c.text, "hello");
    assert_eq!(c.depth, 3);
    assert!(!c.collapsed && !c.children_loaded && !c.children_loading);
}

#[test]
fn comment_text_fallbacks_follow_flag_precedence() {
    let mut it = comment_item(1);
    it.text = Some("   \n\t".to_string());
    it.deleted = Some(true);
    it.dead = Some(true);
    assert_eq!(Comment::from_item(it, 0).text, "[deleted]");
    let mut it = comment_item(2);
    it.text = None;
    it.dead = Some(true);
    assert_eq!(Comment::from_item(it, 0).text, "[dead]");
    let mut it = comment_item(3);
    it.text = None;
    assert_eq!(Comment::from_item(it, 0).text, "[no text]");
}

#[test]
fn comment_text_is_rendered_from_markup() {
    let mut it = comment_item(12);
    it.text = Some("It&#x27;s <i>fine</i><p>Next &amp; last".to_string());
    assert_eq!(Comment::from_item(it, 0).text, "It's fine\nNext & last");
}
