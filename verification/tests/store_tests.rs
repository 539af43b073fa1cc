use rust_api::store::{RemoveResult, TaskStore};
use rust_api::task::Task;

fn task(id: u32, title: &str, completed: bool) -> Task {
    Task { id, title: title.to_string(), completed }
}

#[test]
fn empty_store_has_nothing() {
    let mut s = TaskStore::new();
    assert_eq!(s.len(), 0);
    assert!(s.list().is_empty());
    assert!(s.get(1).is_none());
    assert_eq!(s.remove(1), RemoveResult::NotFound);
    assert!(s.replace(1, "x".to_string(), true).is_none());
}

#[test]
fn seeded_store_holds_the_two_fixtures() {
    let s = TaskStore::seeded();
    let all = s.list();
    assert_eq!(all.len(), 2);
    assert_eq!(all[0], task(1, "Learn X", false));
    assert_eq!(all[1], task(2, "Build API", true));
}

#[test]
fn create_only_runs_assign_unique_ids() {
    let mut s = TaskStore::new();
    let mut seen: Vec<u32> = Vec::new();
    for k in 0..10 {
        let t = s.insert(task(0, &format!("job {k}"), false));
        assert!(!seen.contains(&t.id), "id {} reused", t.id);
        seen.push(t.id);
    }
    assert_eq!(seen, vec![1, 2, 3, 4, 5, 6, 7, 8, 9, 10]);
}

#[test]
fn insert_ignores_the_payload_id() {
    let mut s = TaskStore::seeded();
    let t = s.insert(task(999, "Write tests", false));
    assert_eq!(t.id, 3);
}

#[test]
fn list_after_insert_ends_with_the_new_task() {
    let mut s = TaskStore::seeded();
    let t = s.insert(task(0, "Write tests", false));
    let all = s.list();
    assert_eq!(all.len(), 3);
    assert_eq!(*all.last().unwrap(), t);
    assert_eq!(all[0], task(1, "Learn X", false));
    assert_eq!(all[1], task(2, "Build API", true));
}

#[test]
fn get_returns_what_was_last_written() {
    let mut s = TaskStore::seeded();
    let t = s.insert(task(0, "Write tests", false));
    assert_eq!(s.get(t.id), Some(task(3, "Write tests", false)));

    let updated = s.replace(t.id, "Write more tests".to_string(), true);
    assert_eq!(updated, Some(task(3, "Write more tests", true)));
    assert_eq!(s.get(t.id), Some(task(3, "Write more tests", true)));

    // Operations aimed at other ids leave the lookup unaffected.
    s.replace(1, "Learn Y".to_string(), true);
    assert_eq!(s.get(t.id), Some(task(3, "Write more tests", true)));
    s.remove(1);
    assert_eq!(s.get(t.id), Some(task(3, "Write more tests", true)));

    assert_eq!(s.remove(t.id), RemoveResult::Removed);
    assert_eq!(s.get(t.id), None);
}

#[test]
fn replace_is_idempotent() {
    let mut s1 = TaskStore::seeded();
    s1.replace(2, "Build API".to_string(), false);
    let once = s1.list();

    let mut s2 = TaskStore::seeded();
    s2.replace(2, "Build API".to_string(), false);
    s2.replace(2, "Build API".to_string(), false);
    let twice = s2.list();

    assert_eq!(once, twice);
}

#[test]
fn replace_missing_id_changes_nothing() {
    let mut s = TaskStore::seeded();
    assert!(s.replace(9, "ghost".to_string(), true).is_none());
    assert_eq!(s.list(), TaskStore::seeded().list());
}

#[test]
fn second_remove_reports_not_found() {
    let mut s = TaskStore::seeded();
    assert_eq!(s.remove(2), RemoveResult::Removed);
    assert_eq!(s.remove(2), RemoveResult::NotFound);
    assert_eq!(s.len(), 1);
}

#[test]
fn id_assignment_can_collide_after_a_removal() {
    // The id is recomputed as `length + 1` on every insertion, not taken
    // from a monotonic counter. After removing a non-final task, the next
    // insertion reuses an id a surviving task still holds, and lookups then
    // answer with the earlier record.
    let mut s = TaskStore::seeded();
    assert_eq!(s.remove(1), RemoveResult::Removed);
    let t = s.insert(task(0, "Ship it", false));
    assert_eq!(t.id, 2);
    assert_eq!(s.get(2), Some(task(2, "Build API", true)));
    let all = s.list();
    assert_eq!(all.len(), 2);
    assert_eq!(all[0].id, 2);
    assert_eq!(all[1].id, 2);
}

#[test]
fn removal_closes_the_gap_and_keeps_order() {
    let mut s = TaskStore::new();
    for name in ["a", "b", "c", "d"] {
        s.insert(task(0, name, false));
    }
    assert_eq!(s.remove(2), RemoveResult::Removed);
    let titles: Vec<String> = s.list().into_iter().map(|t| t.title).collect();
    assert_eq!(titles, vec!["a".to_string(), "c".to_string(), "d".to_string()]);
}

#[test]
fn equal_titles_do_not_confuse_lookup() {
    let mut s = TaskStore::new();
    s.insert(task(0, "same", false));
    s.insert(task(0, "same", true));
    assert_eq!(s.get(1), Some(task(1, "same", false)));
    assert_eq!(s.get(2), Some(task(2, "same", true)));
}
