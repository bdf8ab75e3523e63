use book_library_updater::pipeline::{all_entities, Entity};
use book_library_updater::rows::Row;
use book_library_updater::store::Store;
use book_library_updater::types::{
    Author, Book, BookAnnotation, BookAuthor, Date, Sequence, SequenceInfo,
};

fn author(id: u64, last: &str) -> Row {
    Row::Author(Author {
        id,
        last_name: last.to_string(),
        first_name: "F".to_string(),
        middle_name: String::new(),
    })
}

fn book(id: u64, lang: &str, deleted: bool) -> Row {
    Row::Book(Book {
        id,
        title: "T".to_string(),
        lang: lang.to_string(),
        file_type: "fb2".to_string(),
        uploaded: Date { year: 2020, month: 1, day: 2 },
        is_deleted: deleted,
        pages: 10,
        year: 2000,
    })
}

#[test]
fn same_author_twice_keeps_one_row_with_latest_name() {
    let mut store = Store::new();
    store.run_task(Entity::Author, vec![author(1, "First"), author(1, "Second")]);
    assert_eq!(store.author_count(), 1);
    assert_eq!(store.author(1).unwrap().last_name, "Second");
}

#[test]
fn book_in_other_language_is_marked_deleted() {
    let mut store = Store::new();
    store.run_task(Entity::Book, vec![book(1, "en", false), book(2, "ru", false)]);
    assert!(store.book(1).unwrap().is_deleted);
    assert!(!store.book(2).unwrap().is_deleted);
}

#[test]
fn book_in_target_languages_keeps_flag() {
    let mut store = Store::new();
    store.run_task(Entity::Book, vec![book(1, "be", true), book(2, "uk", false)]);
    assert!(store.book(1).unwrap().is_deleted);
    assert!(!store.book(2).unwrap().is_deleted);
}

#[test]
fn negative_series_position_is_stored_as_magnitude() {
    let mut store = Store::new();
    store.run_task(Entity::Book, vec![book(1, "ru", false)]);
    store.run_task(Entity::Sequence, vec![Row::Sequence(Sequence { id: 5, name: "S".to_string() })]);
    store.run_task(
        Entity::SequenceInfo,
        vec![Row::SequenceInfo(SequenceInfo { book_id: 1, sequence_id: 5, position: -3 })],
    );
    assert_eq!(store.book_sequence_position(1, 5), Some(3));
}

#[test]
fn relation_with_missing_author_is_skipped() {
    let mut store = Store::new();
    store.run_task(Entity::Author, vec![author(2, "A")]);
    store.run_task(Entity::Book, vec![book(1, "ru", false)]);
    store.run_task(
        Entity::BookAuthor,
        vec![
            Row::BookAuthor(BookAuthor { book_id: 1, author_id: 999 }),
            Row::BookAuthor(BookAuthor { book_id: 42, author_id: 2 }),
        ],
    );
    assert_eq!(store.book_author_count(), 0);
    assert!(!store.has_book_author(1, 999));
}

#[test]
fn relation_with_both_parents_is_stored_once() {
    let mut store = Store::new();
    store.run_task(Entity::Author, vec![author(2, "A")]);
    store.run_task(Entity::Book, vec![book(1, "ru", false)]);
    let link = Row::BookAuthor(BookAuthor { book_id: 1, author_id: 2 });
    store.run_task(Entity::BookAuthor, vec![link.clone(), link]);
    assert_eq!(store.book_author_count(), 1);
    assert!(store.has_book_author(1, 2));
}

#[test]
fn annotation_text_is_stored_for_existing_book() {
    let mut store = Store::new();
    store.run_task(Entity::Book, vec![book(1, "ru", false)]);
    let note = BookAnnotation {
        book_id: 1,
        title: "About".to_string(),
        body: Some("\nHello\nWorld there".to_string()),
    };
    let orphan = BookAnnotation { book_id: 2, title: "x".to_string(), body: None };
    store.run_task(
        Entity::BookAnnotation,
        vec![Row::BookAnnotation(note), Row::BookAnnotation(orphan)],
    );
    let stored = store.book_annotation(1).unwrap();
    assert_eq!(stored.body, Some("\nHello\nWorld there".to_string()));
    assert!(store.book_annotation(2).is_none());
}

#[test]
fn running_a_task_twice_changes_nothing() {
    let rows = vec![author(1, "A"), author(2, "B"), author(1, "C")];
    let mut once = Store::new();
    once.run_task(Entity::Author, rows.clone());
    let mut twice = Store::new();
    twice.run_task(Entity::Author, rows.clone());
    twice.run_task(Entity::Author, rows);
    assert_eq!(once.author_count(), twice.author_count());
    assert_eq!(once.author(1), twice.author(1));
    assert_eq!(once.author(2), twice.author(2));
    assert_eq!(twice.author(1).unwrap().last_name, "C");
}

#[test]
fn order_of_distinct_keys_does_not_matter() {
    let mut a = Store::new();
    a.run_task(Entity::Author, vec![author(1, "A"), author(2, "B")]);
    let mut b = Store::new();
    b.run_task(Entity::Author, vec![author(2, "B"), author(1, "A")]);
    assert_eq!(a.author(1), b.author(1));
    assert_eq!(a.author(2), b.author(2));
}

#[test]
fn whole_pipeline_twice_equals_once() {
    let inputs = |e: Entity| -> Vec<Row> {
        match e {
            Entity::Author => vec![author(2, "A")],
            Entity::Book => vec![book(1, "en", false)],
            Entity::BookAuthor => vec![
                Row::BookAuthor(BookAuthor { book_id: 1, author_id: 2 }),
                Row::BookAuthor(BookAuthor { book_id: 1, author_id: 3 }),
            ],
            _ => vec![],
        }
    };
    let mut once = Store::new();
    for e in all_entities() {
        once.run_task(e, inputs(e));
    }
    let mut twice = Store::new();
    for _ in 0..2 {
        for e in all_entities() {
            twice.run_task(e, inputs(e));
        }
    }
    assert_eq!(once.author(2), twice.author(2));
    assert_eq!(once.book(1), twice.book(1));
    assert!(twice.book(1).unwrap().is_deleted);
    assert_eq!(twice.book_author_count(), 1);
    assert_eq!(once.book_author_count(), 1);
}
