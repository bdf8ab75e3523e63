//! From a dump line to the entity rows that a task upserts.
use vstd::prelude::*;
use crate::pipeline::Entity;
use crate::sql::{extract_rows, is_readable_insert, line_tuples, tuples_view, Literal};
use crate::types::{
    annotation_fits, author_annotation_maps, author_annotation_pic_maps, author_fits, author_maps,
    book_annotation_maps, book_annotation_pic_maps, book_author_maps, book_fits, book_genre_maps,
    book_maps, genre_fits, genre_maps, pair_fits, pic_fits, sequence_fits, sequence_info_fits,
    sequence_info_maps, sequence_maps, translator_fits, translator_maps, Author, AuthorAnnotation,
    AuthorAnnotationPic, Book, BookAnnotation, BookAnnotationPic, BookAuthor, BookGenre, Genre,
    MapperMismatch, Sequence, SequenceInfo, Translator,
};

verus! {

/// One mapped row, of any entity.
#[derive(Debug, Clone, PartialEq, Eq)]
pub enum Row {
    Author(Author),
    Book(Book),
    BookAuthor(BookAuthor),
    Translator(Translator),
    Sequence(Sequence),
    SequenceInfo(SequenceInfo),
    BookAnnotation(BookAnnotation),
    BookAnnotationPic(BookAnnotationPic),
    AuthorAnnotation(AuthorAnnotation),
    AuthorAnnotationPic(AuthorAnnotationPic),
    Genre(Genre),
    BookGenre(BookGenre),
}

/// The entity that a row belongs to.
pub open spec fn row_entity(r: Row) -> Entity {
    match r {
        Row::Author(_) => Entity::Author,
        Row::Book(_) => Entity::Book,
        Row::BookAuthor(_) => Entity::BookAuthor,
        Row::Translator(_) => Entity::Translator,
        Row::Sequence(_) => Entity::Sequence,
        Row::SequenceInfo(_) => Entity::SequenceInfo,
        Row::BookAnnotation(_) => Entity::BookAnnotation,
        Row::BookAnnotationPic(_) => Entity::BookAnnotationPic,
        Row::AuthorAnnotation(_) => Entity::AuthorAnnotation,
        Row::AuthorAnnotationPic(_) => Entity::AuthorAnnotationPic,
        Row::Genre(_) => Entity::Genre,
        Row::BookGenre(_) => Entity::BookGenre,
    }
}

/// Whether a value tuple has the cells that the entity's mapper reads.
pub open spec fn row_fits(e: Entity, v: Seq<Literal>) -> bool {
    match e {
        Entity::Author => author_fits(v),
        Entity::Book => book_fits(v),
        Entity::BookAuthor => pair_fits(v, 0, 1),
        Entity::Translator => translator_fits(v),
        Entity::Sequence => sequence_fits(v),
        Entity::SequenceInfo => sequence_info_fits(v),
        Entity::BookAnnotation => annotation_fits(v),
        Entity::BookAnnotationPic => pic_fits(v),
        Entity::AuthorAnnotation => annotation_fits(v),
        Entity::AuthorAnnotationPic => pic_fits(v),
        Entity::Genre => genre_fits(v),
        Entity::BookGenre => pair_fits(v, 1, 2),
    }
}

/// Whether `r` is the row of entity `e` that the tuple `v` gives.
pub open spec fn row_maps(e: Entity, v: Seq<Literal>, r: Row) -> bool {
    match (e, r) {
        (Entity::Author, Row::Author(x)) => author_maps(v, x),
        (Entity::Book, Row::Book(x)) => book_maps(v, x),
        (Entity::BookAuthor, Row::BookAuthor(x)) => book_author_maps(v, x),
        (Entity::Translator, Row::Translator(x)) => translator_maps(v, x),
        (Entity::Sequence, Row::Sequence(x)) => sequence_maps(v, x),
        (Entity::SequenceInfo, Row::SequenceInfo(x)) => sequence_info_maps(v, x),
        (Entity::BookAnnotation, Row::BookAnnotation(x)) => book_annotation_maps(v, x),
        (Entity::BookAnnotationPic, Row::BookAnnotationPic(x)) => book_annotation_pic_maps(v, x),
        (Entity::AuthorAnnotation, Row::AuthorAnnotation(x)) => author_annotation_maps(v, x),
        (Entity::AuthorAnnotationPic, Row::AuthorAnnotationPic(x)) => author_annotation_pic_maps(
            v,
            x,
        ),
        (Entity::Genre, Row::Genre(x)) => genre_maps(v, x),
        (Entity::BookGenre, Row::BookGenre(x)) => book_genre_maps(v, x),
        _ => false,
    }
}

/// Maps a value tuple with the mapper of entity `e`.
pub fn map_row(e: Entity, value: &[Literal]) -> (r: Result<Row, MapperMismatch>)
    ensures
        match r {
            Ok(x) => row_fits(e, value@) && row_maps(e, value@, x),
            Err(_) => !row_fits(e, value@),
        },
{
    match e {
        Entity::Author => Ok(Row::Author(Author::from_vec_expression(value)?)),
        Entity::Book => Ok(Row::Book(Book::from_vec_expression(value)?)),
        Entity::BookAuthor => Ok(Row::BookAuthor(BookAuthor::from_vec_expression(value)?)),
        Entity::Translator => Ok(Row::Translator(Translator::from_vec_expression(value)?)),
        Entity::Sequence => Ok(Row::Sequence(Sequence::from_vec_expression(value)?)),
        Entity::SequenceInfo => Ok(Row::SequenceInfo(SequenceInfo::from_vec_expression(value)?)),
        Entity::BookAnnotation => Ok(
            Row::BookAnnotation(BookAnnotation::from_vec_expression(value)?),
        ),
        Entity::BookAnnotationPic => Ok(
            Row::BookAnnotationPic(BookAnnotationPic::from_vec_expression(value)?),
        ),
        Entity::AuthorAnnotation => Ok(
            Row::AuthorAnnotation(AuthorAnnotation::from_vec_expression(value)?),
        ),
        Entity::AuthorAnnotationPic => Ok(
            Row::AuthorAnnotationPic(AuthorAnnotationPic::from_vec_expression(value)?),
        ),
        Entity::Genre => Ok(Row::Genre(Genre::from_vec_expression(value)?)),
        Entity::BookGenre => Ok(Row::BookGenre(BookGenre::from_vec_expression(value)?)),
    }
}

/// Maps every tuple, in order, and stops at the first one that does not fit.
pub fn rows_of_tuples(e: Entity, tuples: &Vec<Vec<Literal>>) -> (r: Result<Vec<Row>, MapperMismatch>)
    ensures
        match r {
            Ok(rows) => {
                &&& rows@.len() == tuples@.len()
                &&& forall|i: int| 0 <= i < tuples@.len() ==> #[trigger] row_fits(e, tuples@[i]@)
                    && row_maps(e, tuples@[i]@, rows@[i])
            },
            Err(_) => exists|i: int| 0 <= i < tuples@.len() && !#[trigger] row_fits(e, tuples@[i]@),
        },
{
    let mut rows: Vec<Row> = Vec::new();
    let mut i: usize = 0;
    while i < tuples.len()
        invariant
            i <= tuples@.len(),
            rows@.len() == i,
            forall|j: int| 0 <= j < i ==> #[trigger] row_fits(e, tuples@[j]@) && row_maps(e, tuples@[j]@, rows@[j]),
        decreases tuples@.len() - i,
    {
        match map_row(e, tuples[i].as_slice()) {
            Ok(x) => rows.push(x),
            Err(err) => {
                assert(!row_fits(e, tuples@[i as int]@));
                return Err(err);
            },
        }
        i = i + 1;
    }
    Ok(rows)
}

/// The rows that one dump line gives to the task of entity `e`: none for a
/// line that is not read as an `INSERT` statement, else the mapped value
/// tuples in order, or a mismatch when a tuple does not fit.
pub fn rows_of_line(e: Entity, line: &str) -> (r: Result<Vec<Row>, MapperMismatch>)
    ensures
        !is_readable_insert(line@) ==> (r matches Ok(rows) && rows@.len() == 0),
        is_readable_insert(line@) ==> match r {
            Ok(rows) => {
                &&& rows@.len() == line_tuples(line@).len()
                &&& forall|i: int| 0 <= i < rows@.len() ==> #[trigger] row_fits(e, line_tuples(line@)[i])
                    && row_maps(e, line_tuples(line@)[i], rows@[i])
            },
            Err(_) => exists|i: int| 0 <= i < line_tuples(line@).len() && !#[trigger] row_fits(
                e,
                line_tuples(line@)[i],
            ),
        },
{
    match extract_rows(line) {
        None => Ok(Vec::new()),
        Some(tuples) => {
            let r = rows_of_tuples(e, &tuples);
            proof {
                let t = line_tuples(line@);
                assert(tuples_view(tuples@) == t);
                assert forall|i: int| 0 <= i < tuples@.len() implies tuples@[i]@ == t[i] by {
                    assert(tuples_view(tuples@)[i] == tuples@[i]@);
                }
                match &r {
                    Ok(rows) => {
                        assert forall|i: int| 0 <= i < rows@.len() implies #[trigger] row_fits(e, t[i])
                            && row_maps(e, t[i], rows@[i]) by {
                            assert(row_fits(e, tuples@[i]@));
                        }
                    },
                    Err(_) => {
                        let i = choose|i: int| 0 <= i < tuples@.len() && !#[trigger] row_fits(e, tuples@[i]@);
                        assert(!row_fits(e, t[i]));
                    },
                }
            }
            r
        },
    }
}

} // verus!
