use book_library_updater::pipeline::Entity;
use book_library_updater::rows::{map_row, rows_of_line, rows_of_tuples, Row};
use book_library_updater::sql::{extract_rows, statement_of, unsupported_token, Literal};
use book_library_updater::types::{
    Author, AuthorAnnotation, AuthorAnnotationPic, Book, BookAnnotation, BookAnnotationPic,
    BookAuthor, BookGenre, Date, Genre, MapperMismatch, Sequence, SequenceInfo, Translator,
};

fn s(v: &str) -> Literal {
    Literal::Str(v.to_string())
}

fn book_tuple(lang: &str, deleted: &str) -> Vec<Literal> {
    let mut row = vec![
        Literal::Integer(7),
        Literal::Integer(0),
        s("2009-03-15 18:30:00"),
        s("War;\nand Peace"),
        s(""),
        s(lang),
        Literal::Integer(0),
        Literal::Integer(0),
        s("fb2"),
        Literal::Integer(0),
        Literal::Integer(1869),
        s(deleted),
    ];
    while row.len() < 20 {
        row.push(Literal::Integer(0));
    }
    row.push(Literal::Integer(1225));
    row
}

#[test]
fn extract_rows_reads_insert_values() {
    let rows = extract_rows("INSERT INTO `libavtorname` VALUES (1,'Lev','N','Tolstoy'),(2,'A','B',NULL);")
        .unwrap();
    assert_eq!(rows.len(), 2);
    assert_eq!(rows[0], vec![Literal::Integer(1), s("Lev"), s("N"), s("Tolstoy")]);
    assert_eq!(rows[1][3], Literal::Null);
}

#[test]
fn extract_rows_reads_negative_integer() {
    let rows = extract_rows("INSERT INTO `libseq` VALUES (1,2,-3,'x');").unwrap();
    assert_eq!(rows[0][2], Literal::NegInteger(3));
    assert_eq!(rows[0][3], s("x"));
}

#[test]
fn extract_rows_other_expression() {
    let rows = extract_rows("INSERT INTO `t` VALUES (1+2);").unwrap();
    assert_eq!(rows[0][0], Literal::Other);
}

#[test]
fn extract_rows_ignores_other_statements() {
    assert_eq!(extract_rows("CREATE TABLE `t` (`a` int);"), None);
    assert_eq!(extract_rows("REPLACE INTO `t` VALUES (1);"), None);
    assert_eq!(extract_rows("-- a comment"), None);
    assert_eq!(extract_rows(""), None);
}

#[test]
fn rows_of_line_non_insert_yields_nothing() {
    assert_eq!(rows_of_line(Entity::Author, "DROP TABLE IF EXISTS `libavtorname`;"), Ok(vec![]));
    assert_eq!(rows_of_line(Entity::Book, "not sql at all"), Ok(vec![]));
}

#[test]
fn rows_of_line_maps_each_tuple() {
    let rows = rows_of_line(Entity::BookAuthor, "INSERT INTO `libavtor` VALUES (1,2,0),(3,4,0);").unwrap();
    assert_eq!(
        rows,
        vec![
            Row::BookAuthor(BookAuthor { book_id: 1, author_id: 2 }),
            Row::BookAuthor(BookAuthor { book_id: 3, author_id: 4 }),
        ]
    );
}

#[test]
fn rows_of_line_reports_mismatch() {
    let r = rows_of_line(Entity::BookAuthor, "INSERT INTO `libavtor` VALUES (1,2),(3,'x');");
    assert_eq!(r, Err(MapperMismatch { column: 1 }));
}

#[test]
fn rows_of_tuples_stops_at_first_mismatch() {
    let tuples = vec![vec![Literal::Integer(1), s("a")], vec![Literal::Null, s("b")]];
    assert_eq!(rows_of_tuples(Entity::Sequence, &tuples), Err(MapperMismatch { column: 0 }));
}

#[test]
fn author_mapper_cleans_names() {
    let a = Author::from_vec_expression(&[Literal::Integer(5), s("Fy\u{451}dor"), s("M;"), s("Dosto\\\"evsky")])
        .unwrap();
    assert_eq!(a.id, 5);
    assert_eq!(a.first_name, "Fy\u{435}dor");
    assert_eq!(a.middle_name, "M");
    assert_eq!(a.last_name, "Dosto\"evsky");
}

#[test]
fn author_mapper_mismatch() {
    assert_eq!(
        Author::from_vec_expression(&[s("5"), s("a"), s("b"), s("c")]),
        Err(MapperMismatch { column: 0 })
    );
    assert_eq!(
        Author::from_vec_expression(&[Literal::Integer(5), s("a"), s("b")]),
        Err(MapperMismatch { column: 3 })
    );
}

#[test]
fn book_mapper_reads_columns() {
    let b = Book::from_vec_expression(&book_tuple("RU-", "1")).unwrap();
    assert_eq!(b.id, 7);
    assert_eq!(b.title, "War and Peace");
    assert_eq!(b.lang, "ru");
    assert_eq!(b.file_type, "fb2");
    assert_eq!(b.uploaded, Date { year: 2009, month: 3, day: 15 });
    assert!(b.is_deleted);
    assert_eq!(b.pages, 1225);
    assert_eq!(b.year, 1869);
}

#[test]
fn book_mapper_not_deleted_flag() {
    let b = Book::from_vec_expression(&book_tuple("en", "0")).unwrap();
    assert!(!b.is_deleted);
    assert_eq!(b.lang, "en");
}

#[test]
fn book_mapper_bad_date() {
    let mut row = book_tuple("ru", "0");
    row[2] = s("2009-03-15");
    assert_eq!(Book::from_vec_expression(&row), Err(MapperMismatch { column: 2 }));
}

#[test]
fn book_mapper_short_row() {
    let mut row = book_tuple("ru", "0");
    row.truncate(20);
    assert_eq!(Book::from_vec_expression(&row), Err(MapperMismatch { column: 20 }));
}

#[test]
fn translator_mapper() {
    let t = Translator::from_vec_expression(&[Literal::Integer(1), Literal::Integer(2), Literal::Integer(3)])
        .unwrap();
    assert_eq!(t, Translator { book_id: 1, author_id: 2, position: 3 });
}

#[test]
fn sequence_mapper() {
    let x = Sequence::from_vec_expression(&[Literal::Integer(9), s("Saga;\nOne")]).unwrap();
    assert_eq!(x, Sequence { id: 9, name: "Saga One".to_string() });
}

#[test]
fn sequence_info_mapper_applies_sign() {
    let neg = SequenceInfo::from_vec_expression(&[Literal::Integer(1), Literal::Integer(2), Literal::NegInteger(3)])
        .unwrap();
    assert_eq!(neg.position, -3);
    let pos = SequenceInfo::from_vec_expression(&[Literal::Integer(1), Literal::Integer(2), Literal::Integer(4)])
        .unwrap();
    assert_eq!(pos.position, 4);
    let min = SequenceInfo::from_vec_expression(&[
        Literal::Integer(1),
        Literal::Integer(2),
        Literal::NegInteger(9223372036854775808),
    ])
    .unwrap();
    assert_eq!(min.position, i64::MIN);
}

#[test]
fn sequence_info_mapper_rejects_other_cells() {
    let r = SequenceInfo::from_vec_expression(&[Literal::Integer(1), Literal::Integer(2), Literal::Other]);
    assert_eq!(r, Err(MapperMismatch { column: 2 }));
    let big = SequenceInfo::from_vec_expression(&[
        Literal::Integer(1),
        Literal::Integer(2),
        Literal::Integer(9223372036854775808),
    ]);
    assert_eq!(big, Err(MapperMismatch { column: 2 }));
}

#[test]
fn book_annotation_mapper() {
    let a = BookAnnotation::from_vec_expression(&[
        Literal::Integer(1),
        Literal::Integer(0),
        s("About"),
        s("\\nHello<br>World  there"),
    ])
    .unwrap();
    assert_eq!(a.book_id, 1);
    assert_eq!(a.title, "About");
    assert_eq!(a.body, Some("\nHello\nWorld there".to_string()));
}

#[test]
fn author_annotation_mapper_null_body() {
    let a = AuthorAnnotation::from_vec_expression(&[Literal::Integer(4), Literal::Integer(0), s("Bio"), Literal::Null])
        .unwrap();
    assert_eq!(a, AuthorAnnotation { author_id: 4, title: "Bio".to_string(), body: None });
    let bad = AuthorAnnotation::from_vec_expression(&[Literal::Integer(4), Literal::Integer(0), s("Bio"), Literal::Integer(1)]);
    assert_eq!(bad, Err(MapperMismatch { column: 3 }));
}

#[test]
fn picture_mappers() {
    let row = [Literal::Integer(3), Literal::Integer(0), s("pic.jpg")];
    assert_eq!(
        BookAnnotationPic::from_vec_expression(&row),
        Ok(BookAnnotationPic { book_id: 3, file: "pic.jpg".to_string() })
    );
    assert_eq!(
        AuthorAnnotationPic::from_vec_expression(&row),
        Ok(AuthorAnnotationPic { author_id: 3, file: "pic.jpg".to_string() })
    );
}

#[test]
fn genre_mappers() {
    let g = Genre::from_vec_expression(&[Literal::Integer(1), s("sf"), s("Science fiction"), s("Fiction")])
        .unwrap();
    assert_eq!(g.code, "sf");
    assert_eq!(g.description, "Science fiction");
    assert_eq!(g.meta, "Fiction");
    let bg = BookGenre::from_vec_expression(&[Literal::Integer(100), Literal::Integer(7), Literal::Integer(1)])
        .unwrap();
    assert_eq!(bg, BookGenre { book_id: 7, genre_id: 1 });
}

#[test]
fn map_row_dispatches_by_entity() {
    let row = [Literal::Integer(1), s("x")];
    assert_eq!(
        map_row(Entity::Sequence, &row),
        Ok(Row::Sequence(Sequence { id: 1, name: "x".to_string() }))
    );
    assert!(map_row(Entity::Author, &row).is_err());
}

#[test]
fn hex_literal_line_is_skipped() {
    let line = "INSERT INTO `t` VALUES (1,x'41');";
    assert!(unsupported_token(line));
    assert_eq!(extract_rows(line), None);
    assert_eq!(rows_of_line(Entity::BookAuthor, line), Ok(vec![]));
    assert!(unsupported_token("x'41'"));
    assert!(unsupported_token("SELECT 1x'41'"));
    assert!(unsupported_token("SELECT @@sessionx'41'"));
    assert!(unsupported_token("SELECT $1"));
}

#[test]
fn quoted_and_commented_x_quote_is_fine() {
    assert!(!unsupported_token("INSERT INTO `t` VALUES ('Malcolm X','Alex');"));
    assert!(!unsupported_token("INSERT INTO `t` VALUES (\"it's X'\");"));
    assert!(!unsupported_token("-- x'41'"));
    assert!(!unsupported_token("/* x'41' */ SELECT 1"));
    assert!(!unsupported_token("SELECT max'a'"));
    let rows = extract_rows("INSERT INTO `t` VALUES ('Malcolm X');").unwrap();
    assert_eq!(rows, vec![vec![s("Malcolm X")]]);
}

#[test]
fn insert_with_parse_error_is_skipped() {
    assert_eq!(extract_rows("INSERT INTO `t` VALUES (1,2"), None);
    assert_eq!(rows_of_line(Entity::BookAuthor, "INSERT INTO `t` VALUES (1,2),(3"), Ok(vec![]));
}

#[test]
fn statement_of_drops_final_semicolon_and_blanks() {
    assert_eq!(statement_of("SELECT 1; \r\n"), "SELECT 1");
    assert_eq!(statement_of("SELECT 1;;"), "SELECT 1;");
    assert_eq!(statement_of("   "), "");
    assert_eq!(statement_of("a ; b"), "a ; b");
}
