use book_library_updater::sanitize::{
    fix_annotation_text, parse_lang, prepare_annotation_text, remove_wrong_chars,
};

#[test]
fn test_fix_annnotation_text_remove_extra_spaces() {
    let input = "    ";
    let expected_result = " ";

    let result = fix_annotation_text(input);

    assert_eq!(result, expected_result);
}

#[test]
fn test_fix_annotation_text_replace_br() {
    let input = "a<br>b";
    let expected_result = "a\nb";

    let result = fix_annotation_text(input);

    assert_eq!(result, expected_result);
}

#[test]
fn test_fix_annotation_text_extra_slashes() {
    let input = "a \\n b \\\"";
    let expected_result = "a \n b \"";

    let result = fix_annotation_text(input);

    assert_eq!(result, expected_result);
}

#[test]
fn test_fix_annotation_text_large() {
    let input = "\n    <p class=book>Этот роман уже стал культовым.\n    <p class=book>Это — одна из самых читаемых книг русскоязычного Интернета, по количеству скачивании соперничающая с «Метро 2033» Глуховского и «Мародером» Беркема аль Атоми.\n    <p class=book>Это — лучшая антиутопия о надвигающейся гражданской войне.\n    <p class=book>Ближайшее будущее. Русофобская политика «оранжевых» разрывает Украину надвое. «Западенцы» при поддержке НАТО пытаются силой усмирить Левобережье. Восточная Малороссия отвечает оккупантам партизанской войной. Наступает беспощадная «эпоха мертворожденных»…\n   ";
    let expected_result = "\n Этот роман уже стал культовым.\n Это — одна из самых читаемых книг русскоязычного Интернета, по количеству скачивании соперничающая с «Метро 2033» Глуховского и «Мародером» Беркема аль Атоми.\n Это — лучшая антиутопия о надвигающейся гражданской войне.\n Ближайшее будущее. Русофобская политика «оранжевых» разрывает Украину надвое. «Западенцы» при поддержке НАТО пытаются силой усмирить Левобережье. Восточная Малороссия отвечает оккупантам партизанской войной. Наступает беспощадная «эпоха мертворожденных»…\n ";

    let result = fix_annotation_text(input);

    assert_eq!(result, expected_result);
}

#[test]
fn fix_annotation_text_single_br() {
    assert_eq!(fix_annotation_text("<br>"), "\n");
}

#[test]
fn fix_annotation_text_escaped_quote() {
    assert_eq!(fix_annotation_text("\\\""), "\"");
}

#[test]
fn fix_annotation_text_strips_script_tags() {
    let result = fix_annotation_text("<script>alert(1)</script>text");
    assert!(!result.contains("<script"));
    assert!(result.contains("text"));
}

#[test]
fn fix_annotation_text_strips_other_tags_keeps_text() {
    assert_eq!(fix_annotation_text("<p>para</p> <b>bold</b>"), "para bold");
}

#[test]
fn fix_annotation_text_keeps_links() {
    let result = fix_annotation_text("<a href=\"x\">y</a>");
    assert!(result.starts_with("<a href=\"x\""));
    assert!(result.ends_with(">y</a>"));
}

#[test]
fn fix_annotation_text_annotation_body() {
    assert_eq!(fix_annotation_text("\\nHello<br>World  there"), "\nHello\nWorld there");
}

#[test]
fn prepare_annotation_text_keeps_tags() {
    assert_eq!(prepare_annotation_text("<p>a   b</p>"), "<p>a b</p>");
}

#[test]
fn prepare_annotation_text_empty() {
    assert_eq!(prepare_annotation_text(""), "");
}

#[test]
fn remove_wrong_chars_mixed() {
    assert_eq!(remove_wrong_chars("a;b\nc\\\"d"), "ab c\"d");
}

#[test]
fn remove_wrong_chars_each_rule() {
    assert_eq!(remove_wrong_chars(";;"), "");
    assert_eq!(remove_wrong_chars("x\ny"), "x y");
    assert_eq!(remove_wrong_chars("\u{451}ж"), "\u{435}ж");
    assert_eq!(remove_wrong_chars("it\\'s"), "it's");
    assert_eq!(remove_wrong_chars("plain"), "plain");
}

#[test]
fn parse_lang_strips_and_lowercases() {
    assert_eq!(parse_lang("RU-~RU"), "ruru");
    assert_eq!(parse_lang("En"), "en");
    assert_eq!(parse_lang("-~"), "");
}
