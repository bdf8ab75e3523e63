//! The entities of the dump and the mapping of a value tuple onto each of
//! them. Column positions are fixed by the dump schemas; a cell of the wrong
//! kind (or a missing cell) is a mismatch.
use vstd::prelude::*;
use chrono::Datelike;
use crate::sanitize::{
    annotation_prepared, fix_annotation_text, html_cleaned, kept_tag, lang_stripped,
    lowercase_of, parse_lang, remove_wrong_chars, wrong_chars_removed,
};
use crate::sql::Literal;

verus! {

/// A cell that did not hold what the mapper expects at that column.
#[derive(Debug, Clone, Copy, PartialEq, Eq)]
pub struct MapperMismatch {
    pub column: usize,
}

/// A calendar date.
#[derive(Debug, Clone, Copy, PartialEq, Eq)]
pub struct Date {
    pub year: i32,
    pub month: u32,
    pub day: u32,
}

pub open spec fn int_at(row: Seq<Literal>, i: int) -> bool {
    0 <= i < row.len() && row[i] is Integer
}

pub open spec fn str_at(row: Seq<Literal>, i: int) -> bool {
    0 <= i < row.len() && row[i] is Str
}

pub open spec fn int_of(row: Seq<Literal>, i: int) -> u64 {
    row[i]->Integer_0
}

pub open spec fn str_of(row: Seq<Literal>, i: int) -> Seq<char> {
    row[i]->Str_0@
}

/// The date part of what chrono reads from `s` with the format `format`,
/// as (year, month, day), or `None` when `s` does not fit the format.
pub uninterp spec fn datetime_date(s: Seq<char>, format: Seq<char>) -> Option<(i32, u32, u32)>;

/// Relies on chrono's `NaiveDateTime::parse_from_str`, and on `year`,
/// `month` and `day` of the parsed value's date.
#[verifier::external_body]
fn parse_datetime_date(s: &str, format: &str) -> (r: Option<Date>)
    ensures
        match r {
            Some(d) => datetime_date(s@, format@) == Some((d.year, d.month, d.day)),
            None => datetime_date(s@, format@) is None,
        },
{
    chrono::NaiveDateTime::parse_from_str(s, format).ok().map(
        |t| Date { year: t.date().year(), month: t.date().month(), day: t.date().day() },
    )
}

/// The format of the upload time column of books.
pub open spec fn upload_format() -> Seq<char> {
    seq!['%', 'Y', '-', '%', 'm', '-', '%', 'd', ' ', '%', 'H', ':', '%', 'M', ':', '%', 'S']
}

fn int_column(row: &[Literal], i: usize) -> (r: Result<u64, MapperMismatch>)
    ensures
        match r {
            Ok(v) => int_at(row@, i as int) && v == int_of(row@, i as int),
            Err(e) => !int_at(row@, i as int) && e.column == i,
        },
{
    if i < row.len() {
        if let Literal::Integer(v) = &row[i] {
            return Ok(*v);
        }
    }
    Err(MapperMismatch { column: i })
}

fn str_column(row: &[Literal], i: usize) -> (r: Result<&String, MapperMismatch>)
    ensures
        match r {
            Ok(s) => str_at(row@, i as int) && s@ == str_of(row@, i as int),
            Err(e) => !str_at(row@, i as int) && e.column == i,
        },
{
    if i < row.len() {
        if let Literal::Str(s) = &row[i] {
            return Ok(s);
        }
    }
    Err(MapperMismatch { column: i })
}

#[derive(Debug, Clone, PartialEq, Eq)]
pub struct Author {
    pub id: u64,
    pub last_name: String,
    pub first_name: String,
    pub middle_name: String,
}

pub open spec fn author_fits(row: Seq<Literal>) -> bool {
    int_at(row, 0) && str_at(row, 1) && str_at(row, 2) && str_at(row, 3)
}

/// How a fitting row gives an `Author`.
pub open spec fn author_maps(row: Seq<Literal>, a: Author) -> bool {
    &&& a.id == int_of(row, 0)
    &&& a.first_name@ == wrong_chars_removed(str_of(row, 1))
    &&& a.middle_name@ == wrong_chars_removed(str_of(row, 2))
    &&& a.last_name@ == wrong_chars_removed(str_of(row, 3))
}

impl Author {
    /// Maps `(id, first_name, middle_name, last_name, ...)`; the names are
    /// cleaned with `remove_wrong_chars`.
    pub fn from_vec_expression(value: &[Literal]) -> (r: Result<Author, MapperMismatch>)
        ensures
            match r {
                Ok(a) => author_fits(value@) && author_maps(value@, a),
                Err(_) => !author_fits(value@),
            },
    {
        let id = int_column(value, 0)?;
        let last_name = remove_wrong_chars(str_column(value, 3)?.as_str());
        let first_name = remove_wrong_chars(str_column(value, 1)?.as_str());
        let middle_name = remove_wrong_chars(str_column(value, 2)?.as_str());
        Ok(Author { id, last_name, first_name, middle_name })
    }
}

/// Whether `s` is the one-character string `1`.
fn is_one(s: &str) -> (r: bool)
    ensures
        r == (s@ == seq!['1']),
{
    if s.unicode_len() == 1 {
        let c = s.get_char(0);
        if c == '1' {
            assert(s@ =~= seq!['1']);
        }
        c == '1'
    } else {
        false
    }
}

#[derive(Debug, Clone, PartialEq, Eq)]
pub struct Book {
    pub id: u64,
    pub title: String,
    pub lang: String,
    pub file_type: String,
    pub uploaded: Date,
    pub is_deleted: bool,
    pub pages: u64,
    pub year: u64,
}

pub open spec fn book_fits(row: Seq<Literal>) -> bool {
    &&& int_at(row, 0)
    &&& str_at(row, 2)
    &&& datetime_date(str_of(row, 2), upload_format()) is Some
    &&& str_at(row, 3)
    &&& str_at(row, 5)
    &&& str_at(row, 8)
    &&& int_at(row, 10)
    &&& str_at(row, 11)
    &&& int_at(row, 20)
}

/// How a fitting row gives a `Book`.
pub open spec fn book_maps(row: Seq<Literal>, b: Book) -> bool {
    &&& b.id == int_of(row, 0)
    &&& Some((b.uploaded.year, b.uploaded.month, b.uploaded.day)) == datetime_date(str_of(row, 2), upload_format())
    &&& b.title@ == wrong_chars_removed(str_of(row, 3))
    &&& b.lang@ == lowercase_of(lang_stripped(str_of(row, 5)))
    &&& b.file_type@ == str_of(row, 8)
    &&& b.year == int_of(row, 10)
    &&& b.is_deleted == (str_of(row, 11) == seq!['1'])
    &&& b.pages == int_of(row, 20)
}

impl Book {
    /// Maps the book columns: id (0), upload time (2, its date is kept),
    /// title (3, cleaned), language (5, normalised with `parse_lang`), file
    /// type (8), year (10), deletion flag (11, the string `1` means deleted)
    /// and page count (20).
    pub fn from_vec_expression(value: &[Literal]) -> (r: Result<Book, MapperMismatch>)
        ensures
            match r {
                Ok(b) => book_fits(value@) && book_maps(value@, b),
                Err(_) => !book_fits(value@),
            },
    {
        let id = int_column(value, 0)?;
        let title = remove_wrong_chars(str_column(value, 3)?.as_str());
        let lang = parse_lang(str_column(value, 5)?.as_str());
        let file_type = str_column(value, 8)?.clone();
        let uploaded_text = str_column(value, 2)?;
        let format = "%Y-%m-%d %H:%M:%S";
        proof {
            reveal_strlit("%Y-%m-%d %H:%M:%S");
        }
        assert(format@ =~= upload_format());
        let uploaded = match parse_datetime_date(uploaded_text.as_str(), format) {
            Some(d) => d,
            None => return Err(MapperMismatch { column: 2 }),
        };
        let is_deleted = is_one(str_column(value, 11)?.as_str());
        let pages = int_column(value, 20)?;
        let year = int_column(value, 10)?;
        Ok(Book { id, title, lang, file_type, uploaded, is_deleted, pages, year })
    }
}

#[derive(Debug, Clone, Copy, PartialEq, Eq)]
pub struct BookAuthor {
    pub book_id: u64,
    pub author_id: u64,
}

pub open spec fn pair_fits(row: Seq<Literal>, i: int, j: int) -> bool {
    int_at(row, i) && int_at(row, j)
}

/// How a fitting row gives a `BookAuthor`.
pub open spec fn book_author_maps(row: Seq<Literal>, x: BookAuthor) -> bool {
    &&& x.book_id == int_of(row, 0)
    &&& x.author_id == int_of(row, 1)
}

impl BookAuthor {
    /// Maps `(book_id, author_id, ...)`.
    pub fn from_vec_expression(value: &[Literal]) -> (r: Result<BookAuthor, MapperMismatch>)
        ensures
            match r {
                Ok(x) => pair_fits(value@, 0, 1) && book_author_maps(value@, x),
                Err(_) => !pair_fits(value@, 0, 1),
            },
    {
        let book_id = int_column(value, 0)?;
        let author_id = int_column(value, 1)?;
        Ok(BookAuthor { book_id, author_id })
    }
}

#[derive(Debug, Clone, Copy, PartialEq, Eq)]
pub struct Translator {
    pub book_id: u64,
    pub author_id: u64,
    pub position: u64,
}

pub open spec fn translator_fits(row: Seq<Literal>) -> bool {
    pair_fits(row, 0, 1) && int_at(row, 2)
}

/// How a fitting row gives a `Translator`.
pub open spec fn translator_maps(row: Seq<Literal>, x: Translator) -> bool {
    &&& x.book_id == int_of(row, 0)
    &&& x.author_id == int_of(row, 1)
    &&& x.position == int_of(row, 2)
}

impl Translator {
    /// Maps `(book_id, author_id, position, ...)`.
    pub fn from_vec_expression(value: &[Literal]) -> (r: Result<Translator, MapperMismatch>)
        ensures
            match r {
                Ok(x) => translator_fits(value@) && translator_maps(value@, x),
                Err(_) => !translator_fits(value@),
            },
    {
        let book_id = int_column(value, 0)?;
        let author_id = int_column(value, 1)?;
        let position = int_column(value, 2)?;
        Ok(Translator { book_id, author_id, position })
    }
}

#[derive(Debug, Clone, PartialEq, Eq)]
pub struct Sequence {
    pub id: u64,
    pub name: String,
}

pub open spec fn sequence_fits(row: Seq<Literal>) -> bool {
    int_at(row, 0) && str_at(row, 1)
}

/// How a fitting row gives a `Sequence`.
pub open spec fn sequence_maps(row: Seq<Literal>, x: Sequence) -> bool {
    &&& x.id == int_of(row, 0)
    &&& x.name@ == wrong_chars_removed(str_of(row, 1))
}

impl Sequence {
    /// Maps `(id, name, ...)`; the name is cleaned with `remove_wrong_chars`.
    pub fn from_vec_expression(value: &[Literal]) -> (r: Result<Sequence, MapperMismatch>)
        ensures
            match r {
                Ok(x) => sequence_fits(value@) && sequence_maps(value@, x),
                Err(_) => !sequence_fits(value@),
            },
    {
        let id = int_column(value, 0)?;
        let name = remove_wrong_chars(str_column(value, 1)?.as_str());
        Ok(Sequence { id, name })
    }
}

/// Whether a cell is a signed integer that fits in `i64`: a plain integer
/// or a minus sign before one.
pub open spec fn signed_fits(l: Literal) -> bool {
    match l {
        Literal::Integer(v) => v <= i64::MAX,
        Literal::NegInteger(v) => v <= i64::MAX + 1,
        _ => false,
    }
}

/// The value of a signed integer cell.
pub open spec fn signed_of(l: Literal) -> int {
    match l {
        Literal::Integer(v) => v as int,
        Literal::NegInteger(v) => -(v as int),
        _ => 0,
    }
}

fn signed_column(row: &[Literal], i: usize) -> (r: Result<i64, MapperMismatch>)
    ensures
        match r {
            Ok(v) => i < row@.len() && signed_fits(row@[i as int]) && v == signed_of(row@[i as int]),
            Err(e) => !(i < row@.len() && signed_fits(row@[i as int])) && e.column == i,
        },
{
    if i < row.len() {
        match &row[i] {
            Literal::Integer(v) => {
                if *v <= i64::MAX as u64 {
                    return Ok(*v as i64);
                }
            },
            Literal::NegInteger(v) => {
                if *v <= i64::MAX as u64 {
                    return Ok(-(*v as i64));
                } else if *v == i64::MAX as u64 + 1 {
                    return Ok(i64::MIN);
                }
            },
            _ => {},
        }
    }
    Err(MapperMismatch { column: i })
}

#[derive(Debug, Clone, Copy, PartialEq, Eq)]
pub struct SequenceInfo {
    pub book_id: u64,
    pub sequence_id: u64,
    pub position: i64,
}

pub open spec fn sequence_info_fits(row: Seq<Literal>) -> bool {
    pair_fits(row, 0, 1) && 2 < row.len() && signed_fits(row[2])
}

/// How a fitting row gives a `SequenceInfo`.
pub open spec fn sequence_info_maps(row: Seq<Literal>, x: SequenceInfo) -> bool {
    &&& x.book_id == int_of(row, 0)
    &&& x.sequence_id == int_of(row, 1)
    &&& x.position == signed_of(row[2])
}

impl SequenceInfo {
    /// Maps `(book_id, sequence_id, position, ...)`; the position may carry a
    /// minus sign, which is kept.
    pub fn from_vec_expression(value: &[Literal]) -> (r: Result<SequenceInfo, MapperMismatch>)
        ensures
            match r {
                Ok(x) => sequence_info_fits(value@) && sequence_info_maps(value@, x),
                Err(_) => !sequence_info_fits(value@),
            },
    {
        let book_id = int_column(value, 0)?;
        let sequence_id = int_column(value, 1)?;
        let position = signed_column(value, 2)?;
        Ok(SequenceInfo { book_id, sequence_id, position })
    }
}

/// Whether a cell can be an annotation body: a string or `NULL`.
pub open spec fn body_fits(row: Seq<Literal>, i: int) -> bool {
    0 <= i < row.len() && (row[i] is Str || row[i] is Null)
}

/// The cleaned body that a fitting body cell gives.
pub open spec fn body_of(row: Seq<Literal>, i: int) -> Option<Seq<char>> {
    match row[i] {
        Literal::Str(s) => Some(html_cleaned(annotation_prepared(s@), kept_tag())),
        _ => None,
    }
}

pub open spec fn opt_view(o: Option<String>) -> Option<Seq<char>> {
    match o {
        Some(s) => Some(s@),
        None => None,
    }
}

fn body_column(row: &[Literal], i: usize) -> (r: Result<Option<String>, MapperMismatch>)
    ensures
        match r {
            Ok(b) => body_fits(row@, i as int) && opt_view(b) == body_of(row@, i as int),
            Err(e) => !body_fits(row@, i as int) && e.column == i,
        },
{
    if i < row.len() {
        match &row[i] {
            Literal::Str(s) => return Ok(Some(fix_annotation_text(s.as_str()))),
            Literal::Null => return Ok(None),
            _ => {},
        }
    }
    Err(MapperMismatch { column: i })
}

pub open spec fn annotation_fits(row: Seq<Literal>) -> bool {
    int_at(row, 0) && str_at(row, 2) && body_fits(row, 3)
}

#[derive(Debug, Clone, PartialEq, Eq)]
pub struct BookAnnotation {
    pub book_id: u64,
    pub title: String,
    pub body: Option<String>,
}

/// How a fitting row gives a `BookAnnotation`.
pub open spec fn book_annotation_maps(row: Seq<Literal>, x: BookAnnotation) -> bool {
    &&& x.book_id == int_of(row, 0)
    &&& x.title@ == str_of(row, 2)
    &&& opt_view(x.body) == body_of(row, 3)
}

impl BookAnnotation {
    /// Maps `(book_id, _, title, body, ...)`; a string body is cleaned with
    /// `fix_annotation_text`, a `NULL` body is absent.
    pub fn from_vec_expression(value: &[Literal]) -> (r: Result<BookAnnotation, MapperMismatch>)
        ensures
            match r {
                Ok(x) => annotation_fits(value@) && book_annotation_maps(value@, x),
                Err(_) => !annotation_fits(value@),
            },
    {
        let book_id = int_column(value, 0)?;
        let title = str_column(value, 2)?.clone();
        let body = body_column(value, 3)?;
        Ok(BookAnnotation { book_id, title, body })
    }
}

pub open spec fn pic_fits(row: Seq<Literal>) -> bool {
    int_at(row, 0) && str_at(row, 2)
}

#[derive(Debug, Clone, PartialEq, Eq)]
pub struct BookAnnotationPic {
    pub book_id: u64,
    pub file: String,
}

/// How a fitting row gives a `BookAnnotationPic`.
pub open spec fn book_annotation_pic_maps(row: Seq<Literal>, x: BookAnnotationPic) -> bool {
    &&& pic_fits(row)
    &&& x.book_id == int_of(row, 0)
    &&& x.file@ == str_of(row, 2)
}

impl BookAnnotationPic {
    /// Maps `(book_id, _, file, ...)`.
    pub fn from_vec_expression(value: &[Literal]) -> (r: Result<BookAnnotationPic, MapperMismatch>)
        ensures
            match r {
                Ok(x) => pic_fits(value@) && book_annotation_pic_maps(value@, x),
                Err(_) => !pic_fits(value@),
            },
    {
        let book_id = int_column(value, 0)?;
        let file = str_column(value, 2)?.clone();
        Ok(BookAnnotationPic { book_id, file })
    }
}

#[derive(Debug, Clone, PartialEq, Eq)]
pub struct AuthorAnnotation {
    pub author_id: u64,
    pub title: String,
    pub body: Option<String>,
}

/// How a fitting row gives an `AuthorAnnotation`.
pub open spec fn author_annotation_maps(row: Seq<Literal>, x: AuthorAnnotation) -> bool {
    &&& x.author_id == int_of(row, 0)
    &&& x.title@ == str_of(row, 2)
    &&& opt_view(x.body) == body_of(row, 3)
}

impl AuthorAnnotation {
    /// Maps `(author_id, _, title, body, ...)`; a string body is cleaned with
    /// `fix_annotation_text`, a `NULL` body is absent.
    pub fn from_vec_expression(value: &[Literal]) -> (r: Result<AuthorAnnotation, MapperMismatch>)
        ensures
            match r {
                Ok(x) => annotation_fits(value@) && author_annotation_maps(value@, x),
                Err(_) => !annotation_fits(value@),
            },
    {
        let author_id = int_column(value, 0)?;
        let title = str_column(value, 2)?.clone();
        let body = body_column(value, 3)?;
        Ok(AuthorAnnotation { author_id, title, body })
    }
}

#[derive(Debug, Clone, PartialEq, Eq)]
pub struct AuthorAnnotationPic {
    pub author_id: u64,
    pub file: String,
}

/// How a fitting row gives an `AuthorAnnotationPic`.
pub open spec fn author_annotation_pic_maps(row: Seq<Literal>, x: AuthorAnnotationPic) -> bool {
    &&& pic_fits(row)
    &&& x.author_id == int_of(row, 0)
    &&& x.file@ == str_of(row, 2)
}

impl AuthorAnnotationPic {
    /// Maps `(author_id, _, file, ...)`.
    pub fn from_vec_expression(value: &[Literal]) -> (r: Result<AuthorAnnotationPic, MapperMismatch>)
        ensures
            match r {
                Ok(x) => pic_fits(value@) && author_annotation_pic_maps(value@, x),
                Err(_) => !pic_fits(value@),
            },
    {
        let author_id = int_column(value, 0)?;
        let file = str_column(value, 2)?.clone();
        Ok(AuthorAnnotationPic { author_id, file })
    }
}

#[derive(Debug, Clone, PartialEq, Eq)]
pub struct Genre {
    pub id: u64,
    pub code: String,
    pub description: String,
    pub meta: String,
}

pub open spec fn genre_fits(row: Seq<Literal>) -> bool {
    int_at(row, 0) && str_at(row, 1) && str_at(row, 2) && str_at(row, 3)
}

/// How a fitting row gives a `Genre`.
pub open spec fn genre_maps(row: Seq<Literal>, x: Genre) -> bool {
    &&& x.id == int_of(row, 0)
    &&& x.code@ == str_of(row, 1)
    &&& x.description@ == str_of(row, 2)
    &&& x.meta@ == str_of(row, 3)
}

impl Genre {
    /// Maps `(id, code, description, meta, ...)`.
    pub fn from_vec_expression(value: &[Literal]) -> (r: Result<Genre, MapperMismatch>)
        ensures
            match r {
                Ok(x) => genre_fits(value@) && genre_maps(value@, x),
                Err(_) => !genre_fits(value@),
            },
    {
        let id = int_column(value, 0)?;
        let code = str_column(value, 1)?.clone();
        let description = str_column(value, 2)?.clone();
        let meta = str_column(value, 3)?.clone();
        Ok(Genre { id, code, description, meta })
    }
}

#[derive(Debug, Clone, Copy, PartialEq, Eq)]
pub struct BookGenre {
    pub book_id: u64,
    pub genre_id: u64,
}

/// How a fitting row gives a `BookGenre`.
pub open spec fn book_genre_maps(row: Seq<Literal>, x: BookGenre) -> bool {
    &&& x.book_id == int_of(row, 1)
    &&& x.genre_id == int_of(row, 2)
}

impl BookGenre {
    /// Maps `(_, book_id, genre_id, ...)`.
    pub fn from_vec_expression(value: &[Literal]) -> (r: Result<BookGenre, MapperMismatch>)
        ensures
            match r {
                Ok(x) => pair_fits(value@, 1, 2) && book_genre_maps(value@, x),
                Err(_) => !pair_fits(value@, 1, 2),
            },
    {
        let book_id = int_column(value, 1)?;
        let genre_id = int_column(value, 2)?;
        Ok(BookGenre { book_id, genre_id })
    }
}

} // verus!
