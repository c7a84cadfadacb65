use scheduler_module::index_store::{enabled_task_next_runs, TaskSchedule};

fn task(id: &str, enabled: bool, next_run_ms: i64) -> TaskSchedule {
    TaskSchedule { id: id.to_string(), enabled, next_run_ms }
}

#[test]
fn next_runs_keep_enabled_tasks_ordered_by_id() {
    let tasks = vec![
        task("b", true, 5),
        task("a", true, 3),
        task("b", true, 7),
        task("c", false, 1),
    ];
    assert_eq!(
        enabled_task_next_runs(&tasks),
        vec![("a".to_string(), 3), ("b".to_string(), 7)]
    );
}

#[test]
fn next_runs_of_no_enabled_task_is_empty() {
    assert!(enabled_task_next_runs(&[task("x", false, 9)].to_vec()).is_empty());
    assert!(enabled_task_next_runs(&Vec::new()).is_empty());
}

#[test]
fn next_runs_order_ids_by_code_point() {
    let tasks = vec![task("task-10", true, 1), task("Task-2", true, 2), task("task-2", true, 3)];
    let ids: Vec<String> = enabled_task_next_runs(&tasks).into_iter().map(|(id, _)| id).collect();
    assert_eq!(ids, vec!["Task-2".to_string(), "task-10".to_string(), "task-2".to_string()]);
}
