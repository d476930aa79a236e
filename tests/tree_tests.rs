use hntui::tree::{flatten_comment_tree, set_collapse_in_tree};
use hntui::types::{Comment, CommentNode, HnItem};

fn item(id: u64, kids: &[u64]) -> HnItem {
    HnItem {
        id,
        kind: Some("comment".to_string()),
        by: Some("alice".to_string()),
        time: Some(100),
        title: None,
        url: None,
        text: Some(format!("text {id}")),
        score: None,
        descendants: None,
        kids: if kids.is_empty() { None } else { Some(kids.to_vec()) },
        dead: None,
        deleted: None,
    }
}

fn node(id: u64, depth: usize, kids: &[u64], children: Vec<CommentNode>) -> CommentNode {
    CommentNode { comment: Comment::from_item(item(id, kids), depth), children }
}

#[test]
fn collapsed_node_hides_descendants() {
    let mut tree = vec![
        node(1, 0, &[2], vec![node(2, 1, &[3], vec![node(3, 2, &[], vec![])])]),
        node(4, 0, &[], vec![]),
    ];
    let ids: Vec<u64> = flatten_comment_tree(&tree).iter().map(|c| c.id).collect();
    assert_eq!(ids, vec![1, 2, 3, 4]);
    assert_eq!(set_collapse_in_tree(&mut tree, 2, true), Some(()));
    let ids: Vec<u64> = flatten_comment_tree(&tree).iter().map(|c| c.id).collect();
    assert_eq!(ids, vec![1, 2, 4]);
    assert_eq!(set_collapse_in_tree(&mut tree, 2, false), Some(()));
    let ids: Vec<u64> = flatten_comment_tree(&tree).iter().map(|c| c.id).collect();
    assert_eq!(ids, vec![1, 2, 3, 4]);
}
