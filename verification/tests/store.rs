use todo_list::store::TodoList;

#[test]
fn empty_store_lists_nothing() {
    let store = TodoList::initialize();
    assert_eq!(store.list_tasks().len(), 0);
    assert_eq!(store.list_tasks_best_practice().len(), 0);
}

#[test]
fn two_tasks_listed_in_order() {
    let mut store = TodoList::initialize();
    let first = store.add_task("breakfast");
    let second = store.add_task("walk");
    let listed = store.list_tasks();
    assert_eq!(listed.len(), 2);
    assert_eq!(listed[0].id, first.id);
    assert_eq!(listed[0].description, "breakfast");
    assert!(!listed[0].completed);
    assert_eq!(listed[1].id, second.id);
    assert_eq!(listed[1].description, "walk");
    assert!(!listed[1].completed);
}

#[test]
fn complete_marks_single_entry_done() {
    let mut store = TodoList::initialize();
    let task = store.add_task("work");
    assert!(!task.completed);
    let done = store.complete_task(task.id);
    let done = done.expect("the issued id must be found");
    assert_eq!(done.id, task.id);
    assert_eq!(done.description, "work");
    assert!(done.completed);
    let listed = store.list_tasks();
    assert_eq!(listed.len(), 1);
    assert_eq!(listed[0].id, task.id);
    assert_eq!(listed[0].description, "work");
    assert!(listed[0].completed);
}

#[test]
fn complete_twice_is_idempotent() {
    let mut store = TodoList::initialize();
    let task = store.add_task("tea");
    let first = store.complete_task(task.id);
    assert!(first.map(|t| t.completed).unwrap_or(false));
    let second = store.complete_task(task.id);
    let second = second.expect("the second call still reports found");
    assert!(second.completed);
    let listed = store.list_tasks();
    assert_eq!(listed.len(), 1);
    assert!(listed[0].completed);
    assert_eq!(listed[0].id, task.id);
    assert_eq!(listed[0].description, "tea");
}

#[test]
fn complete_unknown_id_is_noop() {
    let mut store = TodoList::initialize();
    let before = vec![
        store.add_task("breakfast"),
        store.add_task("walk"),
        store.add_task("coffe"),
    ];
    let stranger = uuid::Uuid::new_v4().as_u128();
    assert!(before.iter().all(|t| t.id != stranger));
    let outcome = store.complete_task(stranger);
    assert!(outcome.is_none());
    let listed = store.list_tasks();
    assert_eq!(listed.len(), before.len());
    for (seen, issued) in listed.iter().zip(before.iter()) {
        assert_eq!(seen.id, issued.id);
        assert_eq!(seen.description, issued.description);
        assert!(!seen.completed);
    }
}

#[test]
fn identifiers_are_unique() {
    let mut store = TodoList::initialize();
    let descriptions = ["breakfast", "walk", "coffe", "lunch", "work", "tea", "dinner", "sleep"];
    let mut ids = Vec::new();
    for d in descriptions {
        ids.push(store.add_task(d).id);
    }
    for i in 0..ids.len() {
        for j in 0..ids.len() {
            if i != j {
                assert_ne!(ids[i], ids[j]);
            }
        }
    }
}

#[test]
fn add_task_best_practice_returns_stored_copy() {
    let mut store = TodoList::initialize();
    let added = store.add_task_best_practice("dinner");
    let added = added.expect("the write is confirmed under exclusive ownership");
    assert_eq!(added.description, "dinner");
    assert!(!added.completed);
    let listed = store.list_tasks();
    assert_eq!(listed.len(), 1);
    assert_eq!(listed[0].id, added.id);
    assert_eq!(listed[0].description, "dinner");
    assert!(!listed[0].completed);
}

#[test]
fn identity_and_description_survive_completion() {
    let mut store = TodoList::initialize();
    let kept = store.add_task("walk");
    let target = store.add_task("lunch");
    store.complete_task(target.id).expect("issued id");
    let listed = store.list_tasks();
    assert_eq!(listed.len(), 2);
    assert_eq!(listed[0].id, kept.id);
    assert_eq!(listed[0].description, "walk");
    assert!(!listed[0].completed);
    assert_eq!(listed[1].id, target.id);
    assert_eq!(listed[1].description, "lunch");
    assert!(listed[1].completed);
}

#[test]
fn list_views_match_owned_list() {
    let mut store = TodoList::initialize();
    store.add_task("coffe");
    store.add_task_best_practice("sleep");
    let owned = store.list_tasks();
    let views = store.list_tasks_best_practice();
    assert_eq!(owned.len(), views.len());
    for (copy, view) in owned.iter().zip(views.iter()) {
        assert_eq!(copy.id, view.id);
        assert_eq!(copy.description, view.description);
        assert_eq!(copy.completed, view.completed);
    }
}

#[test]
fn empty_description_is_accepted() {
    let mut store = TodoList::initialize();
    let task = store.add_task("");
    let listed = store.list_tasks();
    assert_eq!(listed.len(), 1);
    assert_eq!(listed[0].id, task.id);
    assert_eq!(listed[0].description, "");
    assert!(!listed[0].completed);
}
