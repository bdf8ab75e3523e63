use book_library_updater::config::Method;
use book_library_updater::pipeline::{
    all_entities, all_succeeded, deps_ready, dump_url, published_status, AlreadyRunning, Entity,
    GateStatus, Gates, RunGuard, UpdateError,
};

#[test]
fn dump_files_and_dependencies() {
    assert_eq!(Entity::Author.dump_file(), "lib.libavtorname.sql");
    assert_eq!(Entity::BookGenre.dump_file(), "lib.libgenre.sql");
    assert_eq!(Entity::BookAuthor.deps(), vec![Entity::Author, Entity::Book]);
    assert_eq!(Entity::SequenceInfo.deps(), vec![Entity::Book, Entity::Sequence]);
    assert_eq!(Entity::AuthorAnnotationPic.deps(), vec![Entity::AuthorAnnotation]);
    assert!(Entity::Book.deps().is_empty());
    assert!(Entity::BookAnnotation.owns_gate());
    assert!(!Entity::Translator.owns_gate());
}

#[test]
fn twelve_tasks_in_launch_order() {
    let all = all_entities();
    assert_eq!(all.len(), 12);
    assert_eq!(all[0], Entity::Author);
    assert_eq!(all[11], Entity::BookGenre);
}

#[test]
fn deps_ready_waits_only_for_pending() {
    assert!(deps_ready(&[]));
    assert!(deps_ready(&[GateStatus::Success, GateStatus::Failed]));
    assert!(!deps_ready(&[GateStatus::Success, GateStatus::Pending]));
}

#[test]
fn gates_release_dependents_on_success_or_failure() {
    let mut gates = Gates::new();
    assert!(gates.ready_for(Entity::Author));
    assert!(!gates.ready_for(Entity::BookAuthor));
    gates.publish(Entity::Author, true);
    assert!(!gates.ready_for(Entity::BookAuthor));
    assert_eq!(gates.poll(Entity::Book), GateStatus::Pending);
    gates.publish(Entity::Book, false);
    assert_eq!(gates.poll(Entity::Author), GateStatus::Success);
    assert_eq!(gates.poll(Entity::Book), GateStatus::Failed);
    assert_eq!(gates.poll(Entity::Genre), GateStatus::Pending);
    assert!(gates.ready_for(Entity::BookAuthor));
    assert!(!gates.ready_for(Entity::BookGenre));
}

#[test]
fn failed_producer_publishes_failed() {
    assert_eq!(published_status(true), GateStatus::Success);
    assert_eq!(published_status(false), GateStatus::Failed);
}

#[test]
fn second_trigger_is_refused() {
    let mut guard = RunGuard::new();
    assert_eq!(guard.try_acquire(), Ok(()));
    assert_eq!(guard.try_acquire(), Err(AlreadyRunning));
    guard.release();
    assert_eq!(guard.try_acquire(), Ok(()));
}

#[test]
fn run_succeeds_only_when_every_task_does() {
    assert!(all_succeeded(&[true, true]));
    assert!(!all_succeeded(&[true, false, true]));
    assert!(all_succeeded(&[]));
}

#[test]
fn dump_url_layout() {
    assert_eq!(dump_url("http://host", "lib.libbook.sql"), "http://host/sql/lib.libbook.sql.gz");
}

#[test]
fn error_and_method_values() {
    assert_ne!(UpdateError::Network, UpdateError::Disk);
    assert_eq!(UpdateError::MapperMismatch(2), UpdateError::MapperMismatch(2));
    assert_ne!(Method::Get, Method::Post);
}
