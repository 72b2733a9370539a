use d1doctor::store::{TaskStore, StoreError};

fn test_db() -> TaskStore {
    TaskStore::new()
}

#[test]
fn test_insert_and_get_task() {
    let mut db = test_db();
    db.insert_task("tsk_001", "install openclaw", 1000).unwrap();
    let task = db.get_task("tsk_001").unwrap();
    assert_eq!(task.task_id, "tsk_001");
    assert_eq!(task.input, "install openclaw");
    assert_eq!(task.status, "submitted");
}

#[test]
fn test_update_task_status() {
    let mut db = test_db();
    db.insert_task("tsk_002", "setup rust", 1000).unwrap();
    db.update_task_status("tsk_002", "executing", None, 2000);
    let task = db.get_task("tsk_002").unwrap();
    assert_eq!(task.status, "executing");
}

#[test]
fn test_insert_step() {
    let mut db = test_db();
    db.insert_task("tsk_003", "configure git", 1000).unwrap();
    db.insert_step("step_001", "tsk_003", 1, "Check git installed").unwrap();
    let steps = db.get_steps("tsk_003");
    assert_eq!(steps.len(), 1);
    assert_eq!(steps[0].description, "Check git installed");
}

#[test]
fn test_list_tasks_recent() {
    let mut db = test_db();
    db.insert_task("tsk_a", "task a", 1000).unwrap();
    db.insert_task("tsk_b", "task b", 2000).unwrap();
    let tasks = db.list_tasks_recent(10);
    assert_eq!(tasks.len(), 2);
    // most recently inserted first
    assert_eq!(tasks[0].task_id, "tsk_b");
    assert_eq!(tasks[1].task_id, "tsk_a");
}

#[test]
fn test_get_nonexistent_task_returns_none() {
    let db = test_db();
    let task = db.get_task("nonexistent");
    assert!(task.is_none());
}

#[test]
fn test_daemon_log_append() {
    let mut db = test_db();
    db.append_log("info", "daemon started", 1000);
    assert_eq!(db.log_count(), 1);
}

#[test]
fn test_duplicate_task_id_rejected_on_second_insert() {
    let mut db = test_db();
    assert!(db.insert_task("tsk_dup", "first", 1000).is_ok());
    let second = db.insert_task("tsk_dup", "second", 2000);
    assert_eq!(second, Err(StoreError::DuplicateTaskId));
    // the stored row is still the first one
    let task = db.get_task("tsk_dup").unwrap();
    assert_eq!(task.input, "first");
}

#[test]
fn test_get_task_reflects_most_recent_update() {
    let mut db = test_db();
    db.insert_task("tsk_upd", "do things", 1000).unwrap();
    db.update_task_status("tsk_upd", "executing", None, 2000);
    db.update_task_status("tsk_upd", "completed", Some("{\"ok\":true}"), 3000);
    let task = db.get_task("tsk_upd").unwrap();
    assert_eq!(task.status, "completed");
    assert_eq!(task.result_json.as_deref(), Some("{\"ok\":true}"));
    assert_eq!(task.updated_at, 3000);
    assert_eq!(task.created_at, 1000);
}

#[test]
fn test_update_absent_task_is_noop() {
    let mut db = test_db();
    db.update_task_status("missing", "completed", None, 1000);
    assert!(db.get_task("missing").is_none());
}

#[test]
fn test_steps_ordered_and_duplicate_step_rejected() {
    let mut db = test_db();
    db.insert_task("tsk_s", "plan", 1000).unwrap();
    db.insert_step("st_1", "tsk_s", 1, "first").unwrap();
    db.insert_step("st_2", "tsk_s", 2, "second").unwrap();
    assert_eq!(db.insert_step("st_1", "tsk_s", 3, "again"), Err(StoreError::DuplicateStepId));
    assert_eq!(
        db.insert_step("st_3", "tsk_s", 2, "stale order"),
        Err(StoreError::NonMonotonicStepOrder)
    );
    let steps = db.get_steps("tsk_s");
    assert_eq!(steps.len(), 2);
    assert!(steps[0].step_order < steps[1].step_order);
}

#[test]
fn test_update_step_status() {
    let mut db = test_db();
    db.insert_task("tsk_u", "plan", 1000).unwrap();
    db.insert_step("st_u", "tsk_u", 1, "do it").unwrap();
    db.update_step_status("st_u", "completed", Some("{\"out\":1}"), 5000);
    let steps = db.get_steps("tsk_u");
    assert_eq!(steps[0].status, "completed");
    assert_eq!(steps[0].completed_at, Some(5000));
}

#[test]
fn test_log_records_content() {
    let mut db = test_db();
    db.append_log("info", "daemon started", 1000);
    db.append_log("warn", "retrying upstream connect", 2000);
    let entries = db.log_entries();
    assert_eq!(entries.len(), 2);
    assert_eq!(entries[0].level, "info");
    assert_eq!(entries[0].msg, "daemon started");
    assert_eq!(entries[0].ts, 1000);
    assert_eq!(entries[1].level, "warn");
    assert_eq!(entries[1].msg, "retrying upstream connect");
    assert_eq!(entries[1].ts, 2000);
}

#[test]
fn test_log_keeps_earlier_entries() {
    let mut db = test_db();
    db.append_log("info", "first", 1);
    db.append_log("info", "second", 2);
    db.append_log("error", "third", 3);
    let entries = db.log_entries();
    assert_eq!(entries.len(), 3);
    assert_eq!(entries[0].msg, "first");
    assert_eq!(entries[1].msg, "second");
    assert_eq!(entries[2].msg, "third");
}

#[test]
fn test_fresh_step_with_monotone_order_is_accepted() {
    let mut db = test_db();
    db.insert_task("tsk_m", "plan", 1000).unwrap();
    assert!(db.insert_step("st_a", "tsk_m", 1, "one").is_ok());
    assert!(db.insert_step("st_b", "tsk_m", 2, "two").is_ok());
    // an unrelated task is not constrained by tsk_m's orders
    db.insert_task("tsk_other", "plan", 1001).unwrap();
    assert!(db.insert_step("st_c", "tsk_other", 1, "one").is_ok());
}

#[test]
fn test_list_tasks_recent_newest_creation_first() {
    let mut db = test_db();
    db.insert_task("tsk_1", "one", 1000).unwrap();
    db.insert_task("tsk_2", "two", 2000).unwrap();
    db.insert_task("tsk_3", "three", 3000).unwrap();
    let tasks = db.list_tasks_recent(2);
    assert_eq!(tasks.len(), 2);
    assert_eq!(tasks[0].created_at, 3000);
    assert_eq!(tasks[1].created_at, 2000);
    assert!(tasks[0].created_at >= tasks[1].created_at);
}
