use capybara::comment::{Comment, CommentId};
use capybara::comments::{push_reply, CommentWithChildren};
use capybara::feed::FeedItem;
use capybara::path::PathError;
use capybara::person::PersonId;
use capybara::post::{LanguageId, PostId};

fn comment(id: i32, path: &str) -> Comment {
    Comment {
        id: CommentId(id),
        creator_id: PersonId(1),
        post_id: PostId(1),
        content: format!("comment {id}"),
        removed: false,
        published: 0,
        updated: None,
        deleted: false,
        ap_id: format!("https://example.org/comment/{id}"),
        local: true,
        path: path.to_string(),
        distinguished: false,
        language_id: LanguageId(0),
    }
}

fn shape(forest: &[CommentWithChildren<Comment>]) -> Vec<(i32, Vec<i32>)> {
    forest
        .iter()
        .map(|n| (n.0.id.0, n.1.iter().map(|c| c.0.id.0).collect()))
        .collect()
}

#[test]
fn forest_round_trip() {
    let records = vec![
        comment(1, "0.1"),
        comment(2, "0.1.2"),
        comment(3, "0.1.3"),
        comment(4, "0.4"),
    ];
    let forest = CommentWithChildren::from_comments(records).unwrap();
    assert_eq!(shape(&forest), vec![(1, vec![2, 3]), (4, vec![])]);
    assert!(forest[0].1[0].1.is_empty());
    assert!(forest[0].1[1].1.is_empty());
}

#[test]
fn forest_drops_orphans() {
    let forest = CommentWithChildren::from_comments(vec![comment(99, "0.1.99")]).unwrap();
    assert!(forest.is_empty());
}

#[test]
fn forest_of_nothing_is_empty() {
    let forest = CommentWithChildren::<Comment>::from_comments(Vec::new()).unwrap();
    assert!(forest.is_empty());
}

#[test]
fn forest_keeps_deep_chains_and_order() {
    let records = vec![
        comment(7, "0.5.6.7"),
        comment(5, "0.5"),
        comment(8, "0.5.8"),
        comment(6, "0.5.6"),
    ];
    let forest = CommentWithChildren::from_comments(records).unwrap();
    assert_eq!(shape(&forest), vec![(5, vec![8, 6])]);
    let six = &forest[0].1[1];
    assert_eq!(six.1.len(), 1);
    assert_eq!(six.1[0].0.id, CommentId(7));
}

#[test]
fn forest_gives_replies_to_first_of_duplicate_ids() {
    let records = vec![comment(1, "0.1"), comment(1, "0.1"), comment(2, "0.1.2")];
    let forest = CommentWithChildren::from_comments(records).unwrap();
    assert_eq!(shape(&forest), vec![(1, vec![2]), (1, vec![])]);
}

#[test]
fn forest_rejects_path_without_parent() {
    let r = CommentWithChildren::from_comments(vec![comment(1, "0.1"), comment(3, "3")]);
    assert_eq!(r.err(), Some(PathError::MissingParent));
}

#[test]
fn forest_rejects_non_numeric_parent() {
    let r = CommentWithChildren::from_comments(vec![comment(3, "0.x.3"), comment(4, "4")]);
    assert_eq!(r.err(), Some(PathError::InvalidParent));
}

#[test]
fn reply_is_appended_as_leaf() {
    let mut forest = CommentWithChildren::from_comments(vec![comment(1, "0.1")]).unwrap();
    push_reply(&mut forest[0].1, comment(2, "0.1.2"));
    assert_eq!(shape(&forest), vec![(1, vec![2])]);
    assert!(forest[0].1[0].1.is_empty());
}

#[test]
fn comment_node_key_is_comment_id() {
    let forest = CommentWithChildren::from_comments(vec![comment(42, "0.42")]).unwrap();
    assert_eq!(forest[0].key(), 42);
}
