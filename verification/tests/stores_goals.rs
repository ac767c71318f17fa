use planner::goals::{CreateGoal, GoalStore};
use planner::lookup::NotFound;
use uuid::{Uuid, Variant};

fn wanted(title: &str) -> CreateGoal {
    CreateGoal {
        title: title.to_string(),
        description: "why".to_string(),
        priority: "High".to_string(),
        due_date: "2025-06-30".to_string(),
    }
}

#[test]
fn a_new_goal_store_is_empty() {
    let store = GoalStore::new();
    assert_eq!(store.len(), 0);
    assert!(store.list().is_empty());
}

#[test]
fn a_created_goal_has_no_progress_and_no_sub_goals() {
    let mut store = GoalStore::new();
    let goal = store.create(wanted("run"));
    assert_eq!(goal.progress, 0);
    assert!(goal.sub_goals.is_empty());
    assert_eq!(goal.title, "run");
    assert_eq!(goal.description, "why");
    assert_eq!(goal.priority, "High");
    assert_eq!(goal.due_date, "2025-06-30");
    let listed = store.list();
    assert_eq!(listed.len(), 1);
    assert_eq!(listed[0].id, goal.id);
    assert_eq!(listed[0].progress, 0);
    assert!(listed[0].sub_goals.is_empty());
}

#[test]
fn a_created_goal_has_no_progress_whatever_is_asked() {
    let mut store = GoalStore::new();
    let empty = CreateGoal {
        title: String::new(),
        description: String::new(),
        priority: String::new(),
        due_date: String::new(),
    };
    let goal = store.create(empty);
    assert_eq!(goal.progress, 0);
    assert!(goal.sub_goals.is_empty());
    assert_eq!(goal.title, "");
}

#[test]
fn a_created_goal_carries_a_random_uuid() {
    let mut store = GoalStore::new();
    for _ in 0..50 {
        let goal = store.create(wanted("run"));
        let id = Uuid::from_u128(goal.id);
        assert_eq!(id.get_version_num(), 4);
        assert_eq!(id.get_variant(), Variant::RFC4122);
        assert_eq!((goal.id >> 76) & 0xF, 4);
        assert_eq!((goal.id >> 62) & 0x3, 2);
    }
}

#[test]
fn created_goals_differ_in_their_ids() {
    let mut store = GoalStore::new();
    let first = store.create(wanted("a"));
    let second = store.create(wanted("b"));
    assert_ne!(first.id, second.id);
}

#[test]
fn a_goal_is_created_under_the_id_given() {
    let mut store = GoalStore::new();
    let goal = store.create_as(0xa1a2a3a4b1b2c1c2d1d2d3d4d5d6d7d8, wanted("run"));
    assert_eq!(goal.id, 0xa1a2a3a4b1b2c1c2d1d2d3d4d5d6d7d8);
    assert_eq!(goal.progress, 0);
    assert!(goal.sub_goals.is_empty());
    assert_eq!(store.list()[0].id, 0xa1a2a3a4b1b2c1c2d1d2d3d4d5d6d7d8);
}

#[test]
fn goals_are_listed_in_the_order_created() {
    let mut store = GoalStore::new();
    let titles = ["a", "b", "c", "d"];
    let mut ids = Vec::new();
    for title in titles {
        ids.push(store.create(wanted(title)).id);
    }
    let listed = store.list();
    assert_eq!(listed.len(), 4);
    for i in 0..4 {
        assert_eq!(listed[i].title, titles[i]);
        assert_eq!(listed[i].id, ids[i]);
    }
}

#[test]
fn progress_is_set_on_the_goal_named() {
    let mut store = GoalStore::new();
    store.create_as(1, wanted("a"));
    store.create_as(2, wanted("b"));
    let updated = store.update_progress(2, 40).unwrap();
    assert_eq!(updated.id, 2);
    assert_eq!(updated.progress, 40);
    assert_eq!(updated.title, "b");
    assert_eq!(updated.description, "why");
    assert_eq!(updated.priority, "High");
    assert_eq!(updated.due_date, "2025-06-30");
    assert!(updated.sub_goals.is_empty());
    let listed = store.list();
    assert_eq!(listed[0].progress, 0);
    assert_eq!(listed[1].progress, 40);
}

#[test]
fn progress_takes_any_value_of_a_byte() {
    let mut store = GoalStore::new();
    let goal = store.create(wanted("a"));
    assert_eq!(store.update_progress(goal.id, 255).unwrap().progress, 255);
    assert_eq!(store.update_progress(goal.id, 0).unwrap().progress, 0);
    assert_eq!(store.update_progress(goal.id, 100).unwrap().progress, 100);
    assert_eq!(store.list()[0].progress, 100);
}

#[test]
fn progress_of_a_goal_that_is_not_there_changes_nothing() {
    let mut store = GoalStore::new();
    store.create_as(1, wanted("a"));
    assert_eq!(store.update_progress(2, 40).err(), Some(NotFound));
    assert_eq!(store.list().len(), 1);
    assert_eq!(store.list()[0].progress, 0);
    assert!(GoalStore::new().update_progress(1, 1).is_err());
}

#[test]
fn of_two_goals_with_one_id_the_first_gets_the_progress() {
    let mut store = GoalStore::new();
    store.create_as(7, wanted("a"));
    store.create_as(7, wanted("b"));
    let updated = store.update_progress(7, 9).unwrap();
    assert_eq!(updated.title, "a");
    let listed = store.list();
    assert_eq!(listed[0].progress, 9);
    assert_eq!(listed[1].progress, 0);
}
