use planner::comments::{Comment, CommentStore};
use planner::lookup::NotFound;

fn comment(title: &str, content: &str) -> Comment {
    Comment { id: None, title: title.to_string(), content: content.to_string() }
}

fn seeded() -> CommentStore {
    let mut store = CommentStore::new();
    store.add(comment("Market research", "Find my keynote attached..."));
    store.add(comment("Market research", "I've added the data..."));
    store
}

#[test]
fn a_new_comment_store_is_empty() {
    let store = CommentStore::new();
    assert_eq!(store.len(), 0);
    assert!(store.list().is_empty());
}

#[test]
fn comments_are_numbered_from_one() {
    let mut store = CommentStore::new();
    assert_eq!(store.add(comment("a", "1")).id, Some(1));
    assert_eq!(store.add(comment("b", "2")).id, Some(2));
    assert_eq!(store.add(comment("c", "3")).id, Some(3));
    assert_eq!(store.len(), 3);
}

#[test]
fn the_id_a_caller_writes_on_a_comment_is_ignored() {
    let mut store = CommentStore::new();
    let stored = store.add(Comment { id: Some(40), title: "a".to_string(), content: "b".to_string() });
    assert_eq!(stored.id, Some(1));
    assert_eq!(stored.title, "a");
    assert_eq!(stored.content, "b");
}

#[test]
fn comments_are_listed_in_the_order_added() {
    let mut store = seeded();
    store.add(comment("third", "c"));
    let listed = store.list();
    assert_eq!(listed.len(), 3);
    assert_eq!(listed[0].content, "Find my keynote attached...");
    assert_eq!(listed[1].content, "I've added the data...");
    assert_eq!(listed[2].title, "third");
    assert_eq!(listed[0].id, Some(1));
    assert_eq!(listed[1].id, Some(2));
    assert_eq!(listed[2].id, Some(3));
}

#[test]
fn a_new_comment_id_was_not_in_the_store() {
    let mut store = CommentStore::new();
    for _ in 0..20 {
        let before = store.list();
        let added = store.add(comment("t", "c"));
        assert!(before.iter().all(|c| c.id != added.id));
    }
}

#[test]
fn updating_a_comment_replaces_title_and_content() {
    let mut store = seeded();
    let updated = store.update(2, comment("Budget", "Revised figures")).unwrap();
    assert_eq!(updated.id, Some(2));
    assert_eq!(updated.title, "Budget");
    assert_eq!(updated.content, "Revised figures");
    let listed = store.list();
    assert_eq!(listed.len(), 2);
    assert_eq!(listed[1].id, Some(2));
    assert_eq!(listed[1].title, "Budget");
    assert_eq!(listed[1].content, "Revised figures");
    assert_eq!(listed[0].id, Some(1));
    assert_eq!(listed[0].title, "Market research");
    assert_eq!(listed[0].content, "Find my keynote attached...");
}

#[test]
fn updating_a_comment_keeps_its_id_whatever_the_replacement_says() {
    let mut store = seeded();
    let replacement = Comment { id: Some(9), title: "x".to_string(), content: "y".to_string() };
    let updated = store.update(1, replacement).unwrap();
    assert_eq!(updated.id, Some(1));
    assert_eq!(store.list()[0].id, Some(1));
    assert_eq!(store.list()[0].title, "x");
}

#[test]
fn updating_a_comment_that_is_not_there_changes_nothing() {
    let mut store = seeded();
    for id in [0, 3, 9, u32::MAX] {
        assert_eq!(store.update(id, comment("x", "y")).err(), Some(NotFound));
    }
    let listed = store.list();
    assert_eq!(listed.len(), 2);
    assert_eq!(listed[0].title, "Market research");
    assert_eq!(listed[0].content, "Find my keynote attached...");
    assert_eq!(listed[1].content, "I've added the data...");
    assert!(CommentStore::new().update(1, comment("x", "y")).is_err());
}
