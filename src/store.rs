//! The effect of the upserts and of the post-pass on the rows of one
//! source, as an in-memory store. Entity rows are keyed by remote id;
//! relation rows by the pair of parent remote ids.
//!
//! This is a model: the service itself writes to PostgreSQL through stored
//! procedures that follow the same rules, and nothing here checks that SQL
//! against the model. The laws below hold of the model: a task run twice,
//! or the whole pipeline run twice, changes nothing; within a task only the
//! most recent row of each key counts; relation rows with an absent parent
//! are skipped; the book post-pass hides other languages; series positions
//! are stored as magnitudes.
use vstd::prelude::*;
use std::collections::{HashMap, HashSet};
use crate::pipeline::{all_entities_spec, launch_index, Entity};
use crate::rows::{row_entity, Row};
use crate::types::{Author, Book, Genre, Sequence};

verus! {

broadcast use vstd::std_specs::hash::group_hash_axioms;

/// The stored part of an annotation; its picture file is kept apart.
#[derive(Debug, Clone, PartialEq, Eq)]
pub struct Annotation {
    pub title: String,
    pub body: Option<String>,
}

/// The contents of the store.
#[verifier::ext_equal]
pub ghost struct StoreModel {
    pub authors: Map<u64, Author>,
    pub books: Map<u64, Book>,
    pub sequences: Map<u64, Sequence>,
    pub genres: Map<u64, Genre>,
    pub book_authors: Set<u128>,
    pub translations: Map<u128, u64>,
    pub book_sequences: Map<u128, u64>,
    pub book_genres: Set<u128>,
    pub book_annotations: Map<u64, Annotation>,
    pub book_annotation_files: Map<u64, String>,
    pub author_annotations: Map<u64, Annotation>,
    pub author_annotation_files: Map<u64, String>,
}

/// The key of a relation row: the two parent remote ids side by side.
pub open spec fn pair_key(a: u64, b: u64) -> u128 {
    (a * 0x1_0000_0000_0000_0000 + b) as u128
}

/// The magnitude of a position.
pub open spec fn abs_of(p: i64) -> u64 {
    (if p < 0 { -(p as int) } else { p as int }) as u64
}

/// The languages whose books stay visible.
pub open spec fn target_lang(l: Seq<char>) -> bool {
    l == seq!['r', 'u'] || l == seq!['b', 'e'] || l == seq!['u', 'k']
}

/// A book as the post-pass leaves it.
pub open spec fn language_filtered(b: Book) -> Book {
    if target_lang(b.lang@) {
        b
    } else {
        Book { is_deleted: true, ..b }
    }
}

/// The store after upserting one row. A relation row whose parent is
/// absent, and an annotation (or picture) whose parent is absent, change
/// nothing.
pub open spec fn apply_row(m: StoreModel, r: Row) -> StoreModel {
    match r {
        Row::Author(a) => StoreModel { authors: m.authors.insert(a.id, a), ..m },
        Row::Book(b) => StoreModel { books: m.books.insert(b.id, b), ..m },
        Row::Sequence(s) => StoreModel { sequences: m.sequences.insert(s.id, s), ..m },
        Row::Genre(g) => StoreModel { genres: m.genres.insert(g.id, g), ..m },
        Row::BookAuthor(x) => if m.books.contains_key(x.book_id) && m.authors.contains_key(
            x.author_id,
        ) {
            StoreModel {
                book_authors: m.book_authors.insert(pair_key(x.book_id, x.author_id)),
                ..m
            }
        } else {
            m
        },
        Row::Translator(x) => if m.books.contains_key(x.book_id) && m.authors.contains_key(
            x.author_id,
        ) {
            StoreModel {
                translations: m.translations.insert(pair_key(x.book_id, x.author_id), x.position),
                ..m
            }
        } else {
            m
        },
        Row::SequenceInfo(x) => if m.books.contains_key(x.book_id) && m.sequences.contains_key(
            x.sequence_id,
        ) {
            StoreModel {
                book_sequences: m.book_sequences.insert(
                    pair_key(x.book_id, x.sequence_id),
                    abs_of(x.position),
                ),
                ..m
            }
        } else {
            m
        },
        Row::BookGenre(x) => if m.books.contains_key(x.book_id) && m.genres.contains_key(
            x.genre_id,
        ) {
            StoreModel { book_genres: m.book_genres.insert(pair_key(x.book_id, x.genre_id)), ..m }
        } else {
            m
        },
        Row::BookAnnotation(x) => if m.books.contains_key(x.book_id) {
            StoreModel {
                book_annotations: m.book_annotations.insert(
                    x.book_id,
                    Annotation { title: x.title, body: x.body },
                ),
                ..m
            }
        } else {
            m
        },
        Row::BookAnnotationPic(x) => if m.book_annotations.contains_key(x.book_id) {
            StoreModel {
                book_annotation_files: m.book_annotation_files.insert(x.book_id, x.file),
                ..m
            }
        } else {
            m
        },
        Row::AuthorAnnotation(x) => if m.authors.contains_key(x.author_id) {
            StoreModel {
                author_annotations: m.author_annotations.insert(
                    x.author_id,
                    Annotation { title: x.title, body: x.body },
                ),
                ..m
            }
        } else {
            m
        },
        Row::AuthorAnnotationPic(x) => if m.author_annotations.contains_key(x.author_id) {
            StoreModel {
                author_annotation_files: m.author_annotation_files.insert(x.author_id, x.file),
                ..m
            }
        } else {
            m
        },
    }
}

/// The store after upserting the rows in order.
pub open spec fn apply_rows(m: StoreModel, rows: Seq<Row>) -> StoreModel
    decreases rows.len(),
{
    if rows.len() == 0 {
        m
    } else {
        apply_row(apply_rows(m, rows.drop_last()), rows.last())
    }
}

/// The post-pass of a task: books in other languages than the target ones
/// are marked deleted after the book task; other tasks have none.
pub open spec fn after_task(m: StoreModel, e: Entity) -> StoreModel {
    if e == Entity::Book {
        StoreModel {
            books: Map::new(|k: u64| m.books.contains_key(k), |k: u64| language_filtered(m.books[k])),
            ..m
        }
    } else {
        m
    }
}

/// The store after a whole task: its rows upserted in order, then its
/// post-pass.
pub open spec fn run_task_spec(m: StoreModel, e: Entity, rows: Seq<Row>) -> StoreModel {
    after_task(apply_rows(m, rows), e)
}

/// The key that a row is upserted under within its table.
pub open spec fn row_key(r: Row) -> (u64, u64) {
    match r {
        Row::Author(a) => (a.id, 0),
        Row::Book(b) => (b.id, 0),
        Row::Sequence(s) => (s.id, 0),
        Row::Genre(g) => (g.id, 0),
        Row::BookAuthor(x) => (x.book_id, x.author_id),
        Row::Translator(x) => (x.book_id, x.author_id),
        Row::SequenceInfo(x) => (x.book_id, x.sequence_id),
        Row::BookGenre(x) => (x.book_id, x.genre_id),
        Row::BookAnnotation(x) => (x.book_id, 0),
        Row::BookAnnotationPic(x) => (x.book_id, 0),
        Row::AuthorAnnotation(x) => (x.author_id, 0),
        Row::AuthorAnnotationPic(x) => (x.author_id, 0),
    }
}

/// Whether every row belongs to entity `e`, as the rows of one task do.
pub open spec fn rows_of(e: Entity, rows: Seq<Row>) -> bool {
    forall|i: int| 0 <= i < rows.len() ==> #[trigger] row_entity(rows[i]) == e
}

/// Whether some row of `rows` has key `k`.
pub open spec fn has_key(rows: Seq<Row>, k: (u64, u64)) -> bool {
    exists|i: int| 0 <= i < rows.len() && #[trigger] row_key(rows[i]) == k
}

proof fn lemma_pair_key_injective(a: u64, b: u64, c: u64, d: u64)
    requires
        pair_key(a, b) == pair_key(c, d),
    ensures
        a == c && b == d,
{
    let n: int = 0x1_0000_0000_0000_0000;
    assert(a * n + b <= u128::MAX && c * n + d <= u128::MAX) by (nonlinear_arith)
        requires
            a <= u64::MAX,
            b <= u64::MAX,
            c <= u64::MAX,
            d <= u64::MAX,
            n == 0x1_0000_0000_0000_0000,
    ;
    assert(a == c) by (nonlinear_arith)
        requires
            a * n + b == c * n + d,
            0 <= b < n,
            0 <= d < n,
            0 <= a,
            0 <= c,
    ;
}

/// Two rows of one task with different keys can be upserted in either order.
proof fn lemma_row_commute(m: StoreModel, r: Row, s: Row)
    requires
        row_entity(r) == row_entity(s),
        row_key(r) != row_key(s),
    ensures
        apply_row(apply_row(m, r), s) == apply_row(apply_row(m, s), r),
{
    let (a, b) = row_key(r);
    let (c, d) = row_key(s);
    if pair_key(a, b) == pair_key(c, d) {
        lemma_pair_key_injective(a, b, c, d);
    }
    assert(apply_row(apply_row(m, r), s) =~= apply_row(apply_row(m, s), r));
}

/// A row is overwritten by a later row of the same task with the same key.
proof fn lemma_row_overwrite(m: StoreModel, r: Row, s: Row)
    requires
        row_entity(r) == row_entity(s),
        row_key(r) == row_key(s),
    ensures
        apply_row(apply_row(m, r), s) == apply_row(m, s),
{
    assert(apply_row(apply_row(m, r), s) =~= apply_row(m, s));
}

proof fn lemma_has_key_prefix(rows: Seq<Row>, k: (u64, u64))
    requires
        rows.len() > 0,
    ensures
        has_key(rows, k) <==> (has_key(rows.drop_last(), k) || row_key(rows.last()) == k),
{
    if has_key(rows, k) && row_key(rows.last()) != k {
        let i = choose|i: int| 0 <= i < rows.len() && #[trigger] row_key(rows[i]) == k;
        assert(rows.drop_last()[i] == rows[i]);
    }
    if has_key(rows.drop_last(), k) {
        let i = choose|i: int| 0 <= i < rows.drop_last().len() && #[trigger] row_key(rows.drop_last()[i]) == k;
        assert(rows[i] == rows.drop_last()[i]);
    }
    if row_key(rows.last()) == k {
        assert(row_key(rows[rows.len() - 1]) == k);
    }
}

/// A row whose key no later row has can be moved past those rows.
proof fn lemma_commute_past(m: StoreModel, e: Entity, r: Row, rows: Seq<Row>)
    requires
        row_entity(r) == e,
        rows_of(e, rows),
        !has_key(rows, row_key(r)),
    ensures
        apply_rows(apply_row(m, r), rows) == apply_row(apply_rows(m, rows), r),
    decreases rows.len(),
{
    if rows.len() > 0 {
        let init = rows.drop_last();
        lemma_has_key_prefix(rows, row_key(r));
        assert(row_entity(rows[rows.len() - 1]) == e);
        lemma_commute_past(m, e, r, init);
        lemma_row_commute(apply_rows(m, init), r, rows.last());
    }
}

/// A row is absorbed by the rows that follow it when one of them has its key.
proof fn lemma_absorb(m: StoreModel, e: Entity, r: Row, rows: Seq<Row>)
    requires
        row_entity(r) == e,
        rows_of(e, rows),
        has_key(rows, row_key(r)),
    ensures
        apply_rows(apply_row(m, r), rows) == apply_rows(m, rows),
    decreases rows.len(),
{
    let init = rows.drop_last();
    lemma_has_key_prefix(rows, row_key(r));
    assert(row_entity(rows[rows.len() - 1]) == e);
    if has_key(init, row_key(r)) {
        lemma_absorb(m, e, r, init);
    } else {
        lemma_commute_past(m, e, r, init);
        lemma_row_overwrite(apply_rows(m, init), r, rows.last());
    }
}

/// Rows whose keys all occur in `rows` leave no trace once `rows` follow.
proof fn lemma_covered(m: StoreModel, e: Entity, rows: Seq<Row>, earlier: Seq<Row>)
    requires
        rows_of(e, rows),
        rows_of(e, earlier),
        forall|i: int| 0 <= i < earlier.len() ==> has_key(rows, #[trigger] row_key(earlier[i])),
    ensures
        apply_rows(apply_rows(m, earlier), rows) == apply_rows(m, rows),
    decreases earlier.len(),
{
    if earlier.len() > 0 {
        let init = earlier.drop_last();
        let t = earlier.last();
        assert(row_entity(earlier[earlier.len() - 1]) == e);
        assert(has_key(rows, row_key(earlier[earlier.len() - 1])));
        lemma_absorb(apply_rows(m, init), e, t, rows);
        assert forall|i: int| 0 <= i < init.len() implies has_key(rows, #[trigger] row_key(init[i])) by {
            assert(init[i] == earlier[i]);
        }
        assert forall|i: int| 0 <= i < init.len() implies #[trigger] row_entity(init[i]) == e by {
            assert(init[i] == earlier[i]);
        }
        lemma_covered(m, e, rows, init);
    }
}

/// The post-pass after a book row depends on the state before it only
/// through the post-pass of that state.
proof fn lemma_filter_then_book(x: StoreModel, y: StoreModel, r: Row)
    requires
        row_entity(r) == Entity::Book,
        after_task(x, Entity::Book) == after_task(y, Entity::Book),
    ensures
        after_task(apply_row(x, r), Entity::Book) == after_task(apply_row(y, r), Entity::Book),
{
    let ax = after_task(x, Entity::Book);
    let ay = after_task(y, Entity::Book);
    assert(x.books.dom() =~= y.books.dom()) by {
        assert forall|k: u64| x.books.contains_key(k) <==> y.books.contains_key(k) by {
            assert(ax.books.contains_key(k) == x.books.contains_key(k));
            assert(ay.books.contains_key(k) == y.books.contains_key(k));
        }
    }
    assert(x =~= StoreModel { books: x.books, ..y }) by {
        assert(ax.authors == ay.authors);
    }
    assert forall|k: u64| #[trigger] x.books.contains_key(k) implies language_filtered(x.books[k])
        == language_filtered(y.books[k]) by {
        assert(ax.books[k] == ay.books[k]);
    }
    assert(after_task(apply_row(x, r), Entity::Book) =~= after_task(apply_row(y, r), Entity::Book));
}

proof fn lemma_filter_then_books(y: StoreModel, rows: Seq<Row>)
    requires
        rows_of(Entity::Book, rows),
    ensures
        after_task(apply_rows(after_task(y, Entity::Book), rows), Entity::Book) == after_task(
            apply_rows(y, rows),
            Entity::Book,
        ),
    decreases rows.len(),
{
    if rows.len() == 0 {
        let a = after_task(y, Entity::Book);
        assert forall|k: u64| #[trigger] y.books.contains_key(k) implies language_filtered(
            language_filtered(y.books[k]),
        ) == language_filtered(y.books[k]) by {}
        assert(after_task(a, Entity::Book) =~= a);
    } else {
        let init = rows.drop_last();
        assert(row_entity(rows[rows.len() - 1]) == Entity::Book);
        lemma_filter_then_books(y, init);
        lemma_filter_then_book(
            apply_rows(after_task(y, Entity::Book), init),
            apply_rows(y, init),
            rows.last(),
        );
    }
}

/// Running a task twice on the same rows leaves the store as running it
/// once does, for every entity.
pub proof fn lemma_task_idempotent(m: StoreModel, e: Entity, rows: Seq<Row>)
    requires
        rows_of(e, rows),
    ensures
        run_task_spec(run_task_spec(m, e, rows), e, rows) == run_task_spec(m, e, rows),
{
    assert forall|i: int| 0 <= i < rows.len() implies has_key(rows, #[trigger] row_key(rows[i])) by {}
    lemma_covered(m, e, rows, rows);
    if e == Entity::Book {
        lemma_filter_then_books(apply_rows(m, rows), rows);
    }
}

/// The most recent row of each key among `rows`.
pub open spec fn latest(rows: Seq<Row>) -> Map<(u64, u64), Row>
    decreases rows.len(),
{
    if rows.len() == 0 {
        Map::empty()
    } else {
        latest(rows.drop_last()).insert(row_key(rows.last()), rows.last())
    }
}

/// Whether every row of `l` belongs to entity `e` and sits under its key.
pub open spec fn keyed(e: Entity, l: Map<(u64, u64), Row>) -> bool {
    &&& l.dom().finite()
    &&& forall|k: (u64, u64)| #[trigger] l.contains_key(k) ==> row_key(l[k]) == k && row_entity(l[k]) == e
}

/// The store after upserting each row of `l` once, in some order.
spec fn apply_latest(m: StoreModel, l: Map<(u64, u64), Row>) -> StoreModel
    decreases l.dom().len(),
{
    if l.dom().finite() && l.dom().len() > 0 {
        let k = l.dom().choose();
        proof {
            proof_remove_shrinks(l, k);
        }
        apply_row(apply_latest(m, l.remove(k)), l[k])
    } else {
        m
    }
}

proof fn proof_remove_shrinks(l: Map<(u64, u64), Row>, k: (u64, u64))
    requires
        l.dom().finite(),
        l.contains_key(k),
    ensures
        l.remove(k).dom().len() < l.dom().len(),
        l.remove(k).dom().finite(),
{
    assert(l.remove(k).dom() =~= l.dom().remove(k));
}

/// `apply_latest` may take the rows of a keyed map in any order.
proof fn lemma_apply_latest_pick(m: StoreModel, e: Entity, l: Map<(u64, u64), Row>, k: (u64, u64))
    requires
        keyed(e, l),
        l.contains_key(k),
    ensures
        apply_latest(m, l) == apply_row(apply_latest(m, l.remove(k)), l[k]),
    decreases l.dom().len(),
{
    proof_remove_shrinks(l, k);
    let c = l.dom().choose();
    assert(l.dom().len() > 0);
    if c != k {
        proof_remove_shrinks(l, c);
        let lc = l.remove(c);
        let lk = l.remove(k);
        assert(keyed(e, lc));
        assert(keyed(e, lk));
        assert(lc.contains_key(k));
        assert(lk.contains_key(c));
        lemma_apply_latest_pick(m, e, lc, k);
        lemma_apply_latest_pick(m, e, lk, c);
        assert(lc.remove(k) =~= lk.remove(c));
        let a = apply_latest(m, lc.remove(k));
        assert(lc[k] == l[k]);
        assert(lk[c] == l[c]);
        lemma_row_commute(a, l[c], l[k]);
    }
}

proof fn lemma_apply_latest_insert(m: StoreModel, e: Entity, l: Map<(u64, u64), Row>, r: Row)
    requires
        keyed(e, l),
        row_entity(r) == e,
    ensures
        keyed(e, l.insert(row_key(r), r)),
        apply_latest(m, l.insert(row_key(r), r)) == apply_row(apply_latest(m, l), r),
{
    let k = row_key(r);
    let li = l.insert(k, r);
    assert(li.dom() =~= l.dom().insert(k));
    lemma_apply_latest_pick(m, e, li, k);
    if l.contains_key(k) {
        assert(li.remove(k) =~= l.remove(k));
        lemma_apply_latest_pick(m, e, l, k);
        lemma_row_overwrite(apply_latest(m, l.remove(k)), l[k], r);
    } else {
        assert(li.remove(k) =~= l);
    }
}

proof fn lemma_apply_rows_is_latest(m: StoreModel, e: Entity, rows: Seq<Row>)
    requires
        rows_of(e, rows),
    ensures
        keyed(e, latest(rows)),
        apply_rows(m, rows) == apply_latest(m, latest(rows)),
    decreases rows.len(),
{
    if rows.len() == 0 {
        assert(latest(rows).dom() =~= Set::<(u64, u64)>::empty());
    } else {
        let init = rows.drop_last();
        assert(row_entity(rows[rows.len() - 1]) == e);
        assert(rows_of(e, init)) by {
            assert forall|i: int| 0 <= i < init.len() implies #[trigger] row_entity(init[i]) == e by {
                assert(init[i] == rows[i]);
            }
        }
        lemma_apply_rows_is_latest(m, e, init);
        lemma_apply_latest_insert(m, e, latest(init), rows.last());
    }
}

/// Within a task, the outcome depends on the rows only through the most
/// recent row of each key: two row sequences with the same most recent rows
/// leave the store alike.
pub proof fn lemma_task_depends_on_latest_rows(m: StoreModel, e: Entity, a: Seq<Row>, b: Seq<Row>)
    requires
        rows_of(e, a),
        rows_of(e, b),
        latest(a) == latest(b),
    ensures
        run_task_spec(m, e, a) == run_task_spec(m, e, b),
{
    lemma_apply_rows_is_latest(m, e, a);
    lemma_apply_rows_is_latest(m, e, b);
}

/// Whether two stores hold the same table for the rows of entity `e`.
pub open spec fn agree_on(x: StoreModel, y: StoreModel, e: Entity) -> bool {
    match e {
        Entity::Author => x.authors == y.authors,
        Entity::Book => x.books == y.books,
        Entity::Sequence => x.sequences == y.sequences,
        Entity::Genre => x.genres == y.genres,
        Entity::BookAuthor => x.book_authors == y.book_authors,
        Entity::Translator => x.translations == y.translations,
        Entity::SequenceInfo => x.book_sequences == y.book_sequences,
        Entity::BookGenre => x.book_genres == y.book_genres,
        Entity::BookAnnotation => x.book_annotations == y.book_annotations,
        Entity::BookAnnotationPic => x.book_annotation_files == y.book_annotation_files,
        Entity::AuthorAnnotation => x.author_annotations == y.author_annotations,
        Entity::AuthorAnnotationPic => x.author_annotation_files == y.author_annotation_files,
    }
}

/// Whether two stores hold the same tables for the parents that the rows of
/// entity `e` are checked against.
pub open spec fn agree_on_parents(x: StoreModel, y: StoreModel, e: Entity) -> bool {
    match e {
        Entity::BookAuthor | Entity::Translator => agree_on(x, y, Entity::Author) && agree_on(
            x,
            y,
            Entity::Book,
        ),
        Entity::SequenceInfo => agree_on(x, y, Entity::Book) && agree_on(x, y, Entity::Sequence),
        Entity::BookGenre => agree_on(x, y, Entity::Book) && agree_on(x, y, Entity::Genre),
        Entity::BookAnnotation => agree_on(x, y, Entity::Book),
        Entity::BookAnnotationPic => agree_on(x, y, Entity::BookAnnotation),
        Entity::AuthorAnnotation => agree_on(x, y, Entity::Author),
        Entity::AuthorAnnotationPic => agree_on(x, y, Entity::AuthorAnnotation),
        _ => true,
    }
}

proof fn lemma_agree_everywhere(x: StoreModel, y: StoreModel)
    requires
        forall|e: Entity| #[trigger] agree_on(x, y, e),
    ensures
        x == y,
{
    assert(agree_on(x, y, Entity::Author) && agree_on(x, y, Entity::Book));
    assert(agree_on(x, y, Entity::Sequence) && agree_on(x, y, Entity::Genre));
    assert(agree_on(x, y, Entity::BookAuthor) && agree_on(x, y, Entity::Translator));
    assert(agree_on(x, y, Entity::SequenceInfo) && agree_on(x, y, Entity::BookGenre));
    assert(agree_on(x, y, Entity::BookAnnotation) && agree_on(x, y, Entity::BookAnnotationPic));
    assert(agree_on(x, y, Entity::AuthorAnnotation) && agree_on(x, y, Entity::AuthorAnnotationPic));
    assert(x =~= y);
}

/// A row changes the table of its own entity only, and what it does there
/// depends on that table and on its parents' tables only.
proof fn lemma_row_frame(x: StoreModel, y: StoreModel, r: Row)
    ensures
        forall|f: Entity| f != row_entity(r) ==> #[trigger] agree_on(apply_row(x, r), x, f),
        agree_on(x, y, row_entity(r)) && agree_on_parents(x, y, row_entity(r)) ==> agree_on(
            apply_row(x, r),
            apply_row(y, r),
            row_entity(r),
        ),
{
}

proof fn lemma_rows_frame(x: StoreModel, y: StoreModel, e: Entity, rows: Seq<Row>)
    requires
        rows_of(e, rows),
    ensures
        forall|f: Entity| f != e ==> #[trigger] agree_on(apply_rows(x, rows), x, f),
        agree_on(x, y, e) && agree_on_parents(x, y, e) ==> agree_on(
            apply_rows(x, rows),
            apply_rows(y, rows),
            e,
        ) && agree_on_parents(apply_rows(x, rows), apply_rows(y, rows), e),
    decreases rows.len(),
{
    if rows.len() > 0 {
        let init = rows.drop_last();
        assert(row_entity(rows[rows.len() - 1]) == e);
        assert(rows_of(e, init)) by {
            assert forall|i: int| 0 <= i < init.len() implies #[trigger] row_entity(init[i]) == e by {
                assert(init[i] == rows[i]);
            }
        }
        lemma_rows_frame(x, y, e, init);
        let (xi, yi) = (apply_rows(x, init), apply_rows(y, init));
        lemma_row_frame(xi, yi, rows.last());
        lemma_row_frame(yi, xi, rows.last());
        assert forall|f: Entity| f != e implies #[trigger] agree_on(apply_rows(x, rows), x, f) by {
            assert(agree_on(apply_row(xi, rows.last()), xi, f));
            assert(agree_on(xi, x, f));
        }
    }
}

proof fn lemma_task_frame(x: StoreModel, y: StoreModel, e: Entity, rows: Seq<Row>)
    requires
        rows_of(e, rows),
    ensures
        forall|f: Entity| f != e ==> #[trigger] agree_on(run_task_spec(x, e, rows), x, f),
        agree_on(x, y, e) && agree_on_parents(x, y, e) ==> agree_on(
            run_task_spec(x, e, rows),
            run_task_spec(y, e, rows),
            e,
        ),
{
    lemma_rows_frame(x, y, e, rows);
    assert forall|f: Entity| f != e implies #[trigger] agree_on(run_task_spec(x, e, rows), x, f) by {
        assert(agree_on(apply_rows(x, rows), x, f));
    }
}

/// The store after running the tasks `es` in order, task `i` on `inputs[i]`.
pub open spec fn run_tasks(m: StoreModel, es: Seq<Entity>, inputs: Seq<Seq<Row>>) -> StoreModel
    decreases es.len(),
{
    if es.len() == 0 || inputs.len() != es.len() {
        m
    } else {
        run_task_spec(run_tasks(m, es.drop_last(), inputs.drop_last()), es.last(), inputs.last())
    }
}

/// Whether `inputs` gives each of the twelve tasks, in launch order, rows of
/// its own entity.
pub open spec fn pipeline_inputs(inputs: Seq<Seq<Row>>) -> bool {
    &&& inputs.len() == 12
    &&& forall|i: int| 0 <= i < 12 ==> rows_of(all_entities_spec()[i], #[trigger] inputs[i])
}

/// The store after the twelve tasks, each after the producers it waits on.
pub open spec fn pipeline_spec(m: StoreModel, inputs: Seq<Seq<Row>>) -> StoreModel {
    run_tasks(m, all_entities_spec(), inputs)
}

proof fn lemma_launch_order()
    ensures
        all_entities_spec().len() == 12,
        forall|k: int| 0 <= k < 12 ==> launch_index(#[trigger] all_entities_spec()[k]) == k,
{
    let es = all_entities_spec();
    assert forall|k: int| 0 <= k < 12 implies launch_index(#[trigger] es[k]) == k by {
        if k == 0 {} else if k == 1 {} else if k == 2 {} else if k == 3 {} else if k == 4 {
        } else if k == 5 {} else if k == 6 {} else if k == 7 {} else if k == 8 {} else if k == 9 {
        } else if k == 10 {} else {}
    }
}

/// The store after the first `n` tasks of the pipeline.
spec fn pipeline_prefix(m: StoreModel, inputs: Seq<Seq<Row>>, n: int) -> StoreModel {
    run_tasks(m, all_entities_spec().take(n), inputs.take(n))
}

proof fn lemma_prefix_step(m: StoreModel, inputs: Seq<Seq<Row>>, k: int)
    requires
        inputs.len() == 12,
        0 <= k < 12,
    ensures
        pipeline_prefix(m, inputs, k + 1) == run_task_spec(
            pipeline_prefix(m, inputs, k),
            all_entities_spec()[k],
            inputs[k],
        ),
{
    let es = all_entities_spec();
    assert(es.take(k + 1).drop_last() =~= es.take(k));
    assert(inputs.take(k + 1).drop_last() =~= inputs.take(k));
}

/// Tasks later in launch order keep the tables of the earlier ones.
proof fn lemma_later_tasks_keep(m: StoreModel, inputs: Seq<Seq<Row>>, n: int, k: int, f: Entity)
    requires
        pipeline_inputs(inputs),
        0 <= n <= k <= 12,
        launch_index(f) < n,
    ensures
        agree_on(pipeline_prefix(m, inputs, k), pipeline_prefix(m, inputs, n), f),
    decreases k - n,
{
    if k > n {
        lemma_later_tasks_keep(m, inputs, n, k - 1, f);
        lemma_prefix_step(m, inputs, k - 1);
        lemma_launch_order();
        let e = all_entities_spec()[k - 1];
        let x = pipeline_prefix(m, inputs, k - 1);
        lemma_task_frame(x, x, e, inputs[k - 1]);
        assert(agree_on(run_task_spec(x, e, inputs[k - 1]), x, f));
    }
}

/// Running the twelve tasks again on the same rows leaves the store as the
/// first run left it.
pub proof fn lemma_pipeline_idempotent(m: StoreModel, inputs: Seq<Seq<Row>>)
    requires
        pipeline_inputs(inputs),
    ensures
        pipeline_spec(pipeline_spec(m, inputs), inputs) == pipeline_spec(m, inputs),
{
    let es = all_entities_spec();
    let p = pipeline_spec(m, inputs);
    lemma_launch_order();
    assert(es.take(12) =~= es);
    assert(inputs.take(12) =~= inputs);
    assert(pipeline_prefix(m, inputs, 12) == p);
    // Each task, run once more on the final store, changes nothing.
    assert forall|k: int| 0 <= k < 12 implies run_task_spec(p, #[trigger] es[k], inputs[k]) == p by {
        let e = es[k];
        let rows = inputs[k];
        let y = pipeline_prefix(m, inputs, k + 1);
        lemma_prefix_step(m, inputs, k);
        lemma_task_idempotent(pipeline_prefix(m, inputs, k), e, rows);
        assert(run_task_spec(y, e, rows) == y);
        assert forall|f: Entity| launch_index(f) < k + 1 implies #[trigger] agree_on(p, y, f) by {
            lemma_later_tasks_keep(m, inputs, k + 1, 12, f);
        }
        assert(agree_on(p, y, e));
        assert(agree_on_parents(p, y, e));
        lemma_task_frame(p, y, e, rows);
        let q = run_task_spec(p, e, rows);
        assert forall|f: Entity| #[trigger] agree_on(q, p, f) by {
            if f == e {
                assert(agree_on(q, y, e));
            }
        }
        lemma_agree_everywhere(q, p);
    }
    // Hence the whole second run changes nothing.
    assert forall|n: int| 0 <= n <= 12 implies #[trigger] pipeline_prefix(p, inputs, n) == p by {
        lemma_second_run_prefix(m, inputs, p, n);
    }
    assert(pipeline_prefix(p, inputs, 12) == pipeline_spec(p, inputs));
}

proof fn lemma_second_run_prefix(m: StoreModel, inputs: Seq<Seq<Row>>, p: StoreModel, n: int)
    requires
        pipeline_inputs(inputs),
        0 <= n <= 12,
        forall|k: int| 0 <= k < 12 ==> run_task_spec(p, #[trigger] all_entities_spec()[k], inputs[k])
            == p,
    ensures
        pipeline_prefix(p, inputs, n) == p,
    decreases n,
{
    if n == 0 {
        assert(all_entities_spec().take(0).len() == 0);
    } else {
        lemma_second_run_prefix(m, inputs, p, n - 1);
        lemma_prefix_step(p, inputs, n - 1);
    }
}

/// A book-author row whose book or author is absent leaves the store as it
/// is: no relation row, and no failure.
pub proof fn lemma_relation_safe_skip(m: StoreModel, x: crate::types::BookAuthor)
    requires
        !m.books.contains_key(x.book_id) || !m.authors.contains_key(x.author_id),
    ensures
        apply_row(m, Row::BookAuthor(x)) == m,
{
}

/// After the book task, every book in a language other than `ru`, `be` and
/// `uk` is marked deleted.
pub proof fn lemma_language_filter(m: StoreModel, rows: Seq<Row>, k: u64)
    requires
        run_task_spec(m, Entity::Book, rows).books.contains_key(k),
        !target_lang(run_task_spec(m, Entity::Book, rows).books[k].lang@),
    ensures
        run_task_spec(m, Entity::Book, rows).books[k].is_deleted,
{
}

/// A stored series position is the magnitude of the row's position, so it
/// is never negative.
pub proof fn lemma_position_non_negative(m: StoreModel, x: crate::types::SequenceInfo)
    requires
        m.books.contains_key(x.book_id),
        m.sequences.contains_key(x.sequence_id),
    ensures
        apply_row(m, Row::SequenceInfo(x)).book_sequences[pair_key(x.book_id, x.sequence_id)]
            == abs_of(x.position),
        abs_of(x.position) as int == if x.position < 0 { -x.position } else { x.position as int },
        abs_of(x.position) >= 0,
{
}

/// The rows of one source. `book_ids` lists the stored books, each once,
/// so that the post-pass can visit them.
pub struct Store {
    authors: HashMap<u64, Author>,
    books: HashMap<u64, Book>,
    book_ids: Vec<u64>,
    sequences: HashMap<u64, Sequence>,
    genres: HashMap<u64, Genre>,
    book_authors: HashSet<u128>,
    translations: HashMap<u128, u64>,
    book_sequences: HashMap<u128, u64>,
    book_genres: HashSet<u128>,
    book_annotations: HashMap<u64, Annotation>,
    book_annotation_files: HashMap<u64, String>,
    author_annotations: HashMap<u64, Annotation>,
    author_annotation_files: HashMap<u64, String>,
}

impl View for Store {
    type V = StoreModel;

    closed spec fn view(&self) -> StoreModel {
        StoreModel {
            authors: self.authors@,
            books: self.books@,
            sequences: self.sequences@,
            genres: self.genres@,
            book_authors: self.book_authors@,
            translations: self.translations@,
            book_sequences: self.book_sequences@,
            book_genres: self.book_genres@,
            book_annotations: self.book_annotations@,
            book_annotation_files: self.book_annotation_files@,
            author_annotations: self.author_annotations@,
            author_annotation_files: self.author_annotation_files@,
        }
    }
}

fn key_of_pair(a: u64, b: u64) -> (r: u128)
    ensures
        r == pair_key(a, b),
{
    assert(a * 0x1_0000_0000_0000_0000 + b <= u128::MAX) by (nonlinear_arith)
        requires
            a <= u64::MAX,
            b <= u64::MAX,
    ;
    (a as u128) * 0x1_0000_0000_0000_0000u128 + (b as u128)
}

fn abs_position(p: i64) -> (r: u64)
    ensures
        r == abs_of(p),
{
    if p < 0 {
        (-(p as i128)) as u64
    } else {
        p as u64
    }
}

fn is_target_lang(l: &str) -> (r: bool)
    ensures
        r == target_lang(l@),
{
    if l.unicode_len() != 2 {
        return false;
    }
    let (c0, c1) = (l.get_char(0), l.get_char(1));
    let r = (c0 == 'r' && c1 == 'u') || (c0 == 'b' && c1 == 'e') || (c0 == 'u' && c1 == 'k');
    if r {
        assert(l@ =~= seq![c0, c1]);
    }
    r
}

impl Store {
    pub closed spec fn wf(&self) -> bool {
        &&& self.book_ids@.no_duplicates()
        &&& forall|k: u64| self.books@.contains_key(k) <==> self.book_ids@.contains(k)
    }

    /// An empty store.
    pub fn new() -> (r: Store)
        ensures
            r.wf(),
            r@.authors.is_empty() && r@.books.is_empty() && r@.sequences.is_empty(),
            r@.genres.is_empty() && r@.book_authors.is_empty() && r@.translations.is_empty(),
            r@.book_sequences.is_empty() && r@.book_genres.is_empty(),
            r@.book_annotations.is_empty() && r@.book_annotation_files.is_empty(),
            r@.author_annotations.is_empty() && r@.author_annotation_files.is_empty(),
    {
        Store {
            authors: HashMap::new(),
            books: HashMap::new(),
            book_ids: Vec::new(),
            sequences: HashMap::new(),
            genres: HashMap::new(),
            book_authors: HashSet::new(),
            translations: HashMap::new(),
            book_sequences: HashMap::new(),
            book_genres: HashSet::new(),
            book_annotations: HashMap::new(),
            book_annotation_files: HashMap::new(),
            author_annotations: HashMap::new(),
            author_annotation_files: HashMap::new(),
        }
    }

    /// Upserts one row.
    pub fn upsert(&mut self, row: Row)
        requires
            old(self).wf(),
        ensures
            final(self).wf(),
            final(self)@ == apply_row(old(self)@, row),
    {
        match row {
            Row::Author(a) => {
                self.authors.insert(a.id, a);
            },
            Row::Book(b) => {
                let id = b.id;
                let ghost ids0 = self.book_ids@;
                if !self.books.contains_key(&id) {
                    self.book_ids.push(id);
                    assert forall|i: int, j: int|
                        0 <= i < j < self.book_ids@.len() implies self.book_ids@[i]
                        != self.book_ids@[j] by {
                        if j == ids0.len() {
                            assert(ids0.contains(ids0[i]));
                        }
                    }
                    assert forall|k: u64| #[trigger] self.book_ids@.contains(k) <==> (ids0.contains(k) || k == id) by {
                        if self.book_ids@.contains(k) && k != id {
                            let i = choose|i: int| 0 <= i < self.book_ids@.len() && self.book_ids@[i] == k;
                            assert(ids0[i] == k);
                        }
                        if k == id {
                            assert(self.book_ids@[ids0.len() as int] == id);
                        }
                        if ids0.contains(k) {
                            let i = choose|i: int| 0 <= i < ids0.len() && ids0[i] == k;
                            assert(self.book_ids@[i] == k);
                        }
                    }
                }
                self.books.insert(id, b);
            },
            Row::Sequence(s) => {
                self.sequences.insert(s.id, s);
            },
            Row::Genre(g) => {
                self.genres.insert(g.id, g);
            },
            Row::BookAuthor(x) => {
                if self.books.contains_key(&x.book_id) && self.authors.contains_key(&x.author_id) {
                    self.book_authors.insert(key_of_pair(x.book_id, x.author_id));
                }
            },
            Row::Translator(x) => {
                if self.books.contains_key(&x.book_id) && self.authors.contains_key(&x.author_id) {
                    self.translations.insert(key_of_pair(x.book_id, x.author_id), x.position);
                }
            },
            Row::SequenceInfo(x) => {
                if self.books.contains_key(&x.book_id) && self.sequences.contains_key(
                    &x.sequence_id,
                ) {
                    self.book_sequences.insert(
                        key_of_pair(x.book_id, x.sequence_id),
                        abs_position(x.position),
                    );
                }
            },
            Row::BookGenre(x) => {
                if self.books.contains_key(&x.book_id) && self.genres.contains_key(&x.genre_id) {
                    self.book_genres.insert(key_of_pair(x.book_id, x.genre_id));
                }
            },
            Row::BookAnnotation(x) => {
                if self.books.contains_key(&x.book_id) {
                    self.book_annotations.insert(
                        x.book_id,
                        Annotation { title: x.title, body: x.body },
                    );
                }
            },
            Row::BookAnnotationPic(x) => {
                if self.book_annotations.contains_key(&x.book_id) {
                    self.book_annotation_files.insert(x.book_id, x.file);
                }
            },
            Row::AuthorAnnotation(x) => {
                if self.authors.contains_key(&x.author_id) {
                    self.author_annotations.insert(
                        x.author_id,
                        Annotation { title: x.title, body: x.body },
                    );
                }
            },
            Row::AuthorAnnotationPic(x) => {
                if self.author_annotations.contains_key(&x.author_id) {
                    self.author_annotation_files.insert(x.author_id, x.file);
                }
            },
        }
        assert(self@ =~= apply_row(old(self)@, row));
    }

    /// The author stored under a remote id.
    pub fn author(&self, id: u64) -> (r: Option<&Author>)
        ensures
            match r {
                Some(a) => self@.authors.contains_key(id) && *a == self@.authors[id],
                None => !self@.authors.contains_key(id),
            },
    {
        self.authors.get(&id)
    }

    /// The number of stored authors.
    pub fn author_count(&self) -> (r: usize)
        ensures
            r == self@.authors.len(),
    {
        self.authors.len()
    }

    /// The book stored under a remote id.
    pub fn book(&self, id: u64) -> (r: Option<&Book>)
        ensures
            match r {
                Some(b) => self@.books.contains_key(id) && *b == self@.books[id],
                None => !self@.books.contains_key(id),
            },
    {
        self.books.get(&id)
    }

    /// Whether the store relates a book to an author.
    pub fn has_book_author(&self, book_id: u64, author_id: u64) -> (r: bool)
        ensures
            r == self@.book_authors.contains(pair_key(book_id, author_id)),
    {
        self.book_authors.contains(&key_of_pair(book_id, author_id))
    }

    /// The number of stored book-author relations.
    pub fn book_author_count(&self) -> (r: usize)
        ensures
            r == self@.book_authors.len(),
    {
        self.book_authors.len()
    }

    /// The position of a book within a series, when the store relates them.
    pub fn book_sequence_position(&self, book_id: u64, sequence_id: u64) -> (r: Option<u64>)
        ensures
            match r {
                Some(p) => self@.book_sequences.contains_key(pair_key(book_id, sequence_id))
                    && p == self@.book_sequences[pair_key(book_id, sequence_id)],
                None => !self@.book_sequences.contains_key(pair_key(book_id, sequence_id)),
            },
    {
        match self.book_sequences.get(&key_of_pair(book_id, sequence_id)) {
            Some(p) => Some(*p),
            None => None,
        }
    }

    /// The annotation stored for a book.
    pub fn book_annotation(&self, book_id: u64) -> (r: Option<&Annotation>)
        ensures
            match r {
                Some(a) => self@.book_annotations.contains_key(book_id) && *a
                    == self@.book_annotations[book_id],
                None => !self@.book_annotations.contains_key(book_id),
            },
    {
        self.book_annotations.get(&book_id)
    }

    /// Runs the post-pass of a task: after the book task, every book whose
    /// language is not one of `ru`, `be`, `uk` is marked deleted.
    pub fn after_update(&mut self, e: Entity)
        requires
            old(self).wf(),
        ensures
            final(self).wf(),
            final(self)@ == after_task(old(self)@, e),
    {
        if e != Entity::Book {
            return;
        }
        let ghost ids0 = self.book_ids@;
        let ghost m0 = self@;
        let mut i: usize = 0;
        while i < self.book_ids.len()
            invariant
                self.wf(),
                self.book_ids@ == ids0,
                i <= ids0.len(),
                self@ == (StoreModel { books: self.books@, ..m0 }),
                forall|k: u64| self.books@.contains_key(k) <==> m0.books.contains_key(k),
                forall|k: u64| #[trigger] m0.books.contains_key(k) ==> self.books@[k] == if ids0.take(
                    i as int,
                ).contains(k) {
                    language_filtered(m0.books[k])
                } else {
                    m0.books[k]
                },
            decreases ids0.len() - i,
        {
            let k = self.book_ids[i];
            assert(ids0.contains(k));
            assert(!ids0.take(i as int).contains(k)) by {
                if ids0.take(i as int).contains(k) {
                    let j = choose|j: int| 0 <= j < i && #[trigger] ids0.take(i as int)[j] == k;
                    assert(ids0[j] == ids0[i as int]);
                }
            }
            if let Some(mut b) = self.books.remove(&k) {
                if !is_target_lang(b.lang.as_str()) {
                    b.is_deleted = true;
                }
                self.books.insert(k, b);
            }
            assert forall|k2: u64| #[trigger] ids0.take(i + 1).contains(k2) <==> (ids0.take(
                i as int,
            ).contains(k2) || k2 == k) by {
                if ids0.take(i + 1).contains(k2) && k2 != k {
                    let j = choose|j: int| 0 <= j < i + 1 && #[trigger] ids0.take(i + 1)[j] == k2;
                    assert(ids0.take(i as int)[j] == k2);
                }
                if ids0.take(i as int).contains(k2) {
                    let j = choose|j: int| 0 <= j < i && #[trigger] ids0.take(i as int)[j] == k2;
                    assert(ids0.take(i + 1)[j] == k2);
                }
                if k2 == k {
                    assert(ids0.take(i + 1)[i as int] == k);
                }
            }
            i = i + 1;
        }
        assert(ids0.take(ids0.len() as int) =~= ids0);
        assert forall|k: u64| #[trigger] m0.books.contains_key(k) implies self.books@[k]
            == language_filtered(m0.books[k]) by {
            assert(ids0.contains(k));
        }
        assert(self.books@ =~= after_task(m0, e).books);
        assert(self@ =~= after_task(m0, e));
    }

    /// Runs a whole task over the store: its rows upserted in order, then
    /// its post-pass.
    pub fn run_task(&mut self, e: Entity, rows: Vec<Row>)
        requires
            old(self).wf(),
        ensures
            final(self).wf(),
            final(self)@ == run_task_spec(old(self)@, e, rows@),
    {
        let ghost m0 = self@;
        for r in it: rows
            invariant
                self.wf(),
                self@ == apply_rows(m0, it.seq().take(it.index() as int)),
        {
            let ghost done = it.seq().take(it.index() as int);
            self.upsert(r);
            proof {
                let next = it.seq().take(it.index() + 1);
                assert(next.drop_last() =~= done);
            }
        }
        proof {
            assert(rows@.take(rows@.len() as int) =~= rows@);
        }
        self.after_update(e);
    }
}

} // verus!
