use hntui::fetch::{
    attach_prefetched, child_batches, item_url, nodes_from_items, normalize_base_url,
    reorder_by_index, stories_from_items, top_stories_url, InFlightRegistry, Role, TopIdsCache,
};
use hntui::types::{HnItem, ItemError};

fn item(id: u64, kind: &str, kids: &[u64]) -> HnItem {
    HnItem {
        id,
        kind: Some(kind.to_string()),
        by: Some("u".to_string()),
        time: Some(1),
        title: Some(format!("t{id}")),
        url: None,
        text: Some(format!("c{id}")),
        score: Some(1),
        descendants: None,
        kids: if kids.is_empty() { None } else { Some(kids.to_vec()) },
        dead: None,
        deleted: None,
    }
}

#[test]
fn concurrent_requests_share_one_fetch() {
    let mut reg = InFlightRegistry::new();
    let roles: Vec<Role> = (0..5).map(|_| reg.join(7)).collect();
    assert_eq!(roles.iter().filter(|r| **r == Role::Leader).count(), 1);
    assert_eq!(roles[0], Role::Leader);
    assert!(reg.is_in_flight(7));
    assert_eq!(reg.finish(7), 4);
    assert!(!reg.is_in_flight(7));
    assert_eq!(reg.join(7), Role::Leader);
}

#[test]
fn finish_of_unknown_id_is_harmless() {
    let mut reg = InFlightRegistry::new();
    assert_eq!(reg.finish(3), 0);
}

#[test]
fn batch_results_follow_request_order() {
    // requested ids [3, 1, 2]; completions arrive as 1, 2, 3
    let requested = [3u64, 1, 2];
    let arrived = vec![(1usize, item(1, "story", &[])), (2, item(2, "story", &[])), (0, item(3, "story", &[]))];
    let ordered = reorder_by_index(arrived, requested.len());
    let ids: Vec<u64> = ordered.iter().map(|i| i.id).collect();
    assert_eq!(ids, vec![3, 1, 2]);
}

#[test]
fn urls() {
    assert_eq!(normalize_base_url("https://h.example/v0///"), "https://h.example/v0");
    assert_eq!(top_stories_url("https://h.example/v0"), "https://h.example/v0/topstories.json");
    assert_eq!(item_url("https://h.example/v0", 8863), "https://h.example/v0/item/8863.json");
}

#[test]
fn top_ids_cache_expires() {
    let mut c = TopIdsCache::new(30);
    assert!(c.get(0).is_none());
    c.store(100, vec![5, 6]);
    assert_eq!(c.get(130), Some(vec![5, 6]));
    assert!(c.get(131).is_none());
}

#[test]
fn stories_batch_stops_at_first_bad_item() {
    let ok = stories_from_items(vec![item(1, "story", &[]), item(2, "story", &[])]).unwrap();
    assert_eq!(ok.len(), 2);
    let err = stories_from_items(vec![item(1, "story", &[]), item(2, "job", &[]), item(3, "poll", &[])]);
    assert_eq!(err.unwrap_err(), ItemError::WrongKind { id: 2 });
}

#[test]
fn comment_nodes_and_prefetch_steps() {
    let mut nodes = nodes_from_items(vec![item(1, "comment", &[5]), item(2, "comment", &[])], 0);
    assert_eq!(nodes.len(), 2);
    assert!(nodes.iter().all(|n| n.comment.depth == 0 && n.children.is_empty()));
    let batches = child_batches(&nodes);
    assert_eq!(batches, vec![(0usize, vec![5u64])]);
    let children = nodes_from_items(vec![item(5, "comment", &[])], 1);
    attach_prefetched(&mut nodes, vec![(0, children)]);
    assert!(nodes[0].comment.children_loaded);
    assert_eq!(nodes[0].children.len(), 1);
    assert_eq!(nodes[0].children[0].comment.depth, 1);
    assert!(!nodes[1].comment.children_loaded);
}
