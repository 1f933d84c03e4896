use lyric_slides::document::{
    build_document, slide_lines, split_slides, DOCUMENT_END, FRAME_CLOSE, FRAME_OPEN, PREAMBLE,
};

fn count(hay: &str, needle: &str) -> usize {
    hay.matches(needle).count()
}

#[test]
fn empty_source_gives_one_blank_frame() {
    let doc = build_document("");
    let expected = format!("{}{}{}{}", PREAMBLE, FRAME_OPEN, FRAME_CLOSE, DOCUMENT_END);
    assert_eq!(doc, expected);
    assert_eq!(count(&doc, "\\begin{frame}"), 1);
    assert_eq!(count(&doc, "\\end{frame}"), 1);
    assert!(doc.starts_with("\\documentclass[aspectratio=169]{beamer}\n"));
    assert!(doc.ends_with("\\end{document}\n"));
}

#[test]
fn two_slides_with_preview_on_first_only() {
    let source = "Hello\n\nWorld";
    assert_eq!(split_slides(source), vec!["Hello".to_string(), "World".to_string()]);
    let doc = build_document(source);
    let expected = format!(
        "{}{}{}{}{}{}{}",
        PREAMBLE,
        "\\begin{frame}\n\\centering\n\\color{white}\n\\huge{Hello} \\\\\n",
        "\n\\begin{textblock}{1.0}(0.00001,0.8)\\color{gray}\\normalsize{World}\\end{textblock}\n",
        "\\end{frame}\n\n",
        "\\begin{frame}\n\\centering\n\\color{white}\n\\huge{World} \\\\\n",
        "\\end{frame}\n\n",
        "\\end{document}\n"
    );
    assert_eq!(doc, expected);
    assert_eq!(count(&doc, "\\begin{textblock}"), 1);
}

#[test]
fn separator_is_matched_literally() {
    let source = "A\n\n\n\nB";
    assert_eq!(
        split_slides(source),
        vec!["A".to_string(), String::new(), "B".to_string()]
    );
    let doc = build_document(source);
    let expected = format!(
        "{}{}{}{}{}{}{}{}{}",
        PREAMBLE,
        "\\begin{frame}\n\\centering\n\\color{white}\n\\huge{A} \\\\\n",
        "\\end{frame}\n\n",
        "\\begin{frame}\n\\centering\n\\color{white}\n",
        "\n\\begin{textblock}{1.0}(0.00001,0.8)\\color{gray}\\normalsize{B}\\end{textblock}\n",
        "\\end{frame}\n\n",
        "\\begin{frame}\n\\centering\n\\color{white}\n\\huge{B} \\\\\n",
        "\\end{frame}\n\n",
        "\\end{document}\n"
    );
    assert_eq!(doc, expected);
    assert_eq!(count(&doc, "\\begin{frame}"), 3);
}

#[test]
fn building_twice_is_identical() {
    let source = "Amazing grace\nhow sweet\n\n& the sound_ {50%}";
    assert_eq!(build_document(source), build_document(source));
}

#[test]
fn no_separator_gives_one_slide() {
    assert_eq!(split_slides("one\ntwo"), vec!["one\ntwo".to_string()]);
    let doc = build_document("one\ntwo");
    assert_eq!(count(&doc, "\\begin{frame}"), 1);
    assert!(doc.contains("\\huge{one} \\\\\n\\huge{two} \\\\\n"));
    assert_eq!(count(&doc, "textblock"), 0);
}

#[test]
fn trailing_separator_gives_blank_last_frame() {
    assert_eq!(split_slides("x\n\n"), vec!["x".to_string(), String::new()]);
    let doc = build_document("x\n\n");
    assert_eq!(count(&doc, "\\begin{frame}"), 2);
    assert!(doc.ends_with(&format!("{}{}{}", FRAME_OPEN, FRAME_CLOSE, DOCUMENT_END)));
    assert_eq!(count(&doc, "textblock"), 0);
}

#[test]
fn preview_uses_first_line_of_next_slide_escaped() {
    let doc = build_document("a\n\nb_1\nb2\n\nc");
    assert!(doc.contains("\\normalsize{b\\_1}\\end{textblock}"));
    assert!(doc.contains("\\normalsize{c}\\end{textblock}"));
    assert!(!doc.contains("\\normalsize{b2}"));
    assert_eq!(count(&doc, "\\begin{textblock}"), 2);
}

#[test]
fn preview_of_next_block_starting_with_newline_is_empty() {
    assert_eq!(split_slides("a\n\n\nb"), vec!["a".to_string(), "\nb".to_string()]);
    let doc = build_document("a\n\n\nb");
    assert!(doc.contains("\\normalsize{}\\end{textblock}"));
}

#[test]
fn blank_lines_inside_slide_emit_nothing() {
    assert_eq!(split_slides("\n\n\n"), vec![String::new(), "\n".to_string()]);
    let doc = build_document("\n\n\n");
    assert_eq!(count(&doc, "\\huge"), 0);
}

#[test]
fn lines_drop_carriage_return_before_newline() {
    assert_eq!(slide_lines("a\r\nb\r"), vec!["a".to_string(), "b\r".to_string()]);
    assert_eq!(slide_lines("a\n"), vec!["a".to_string()]);
    assert_eq!(slide_lines(""), Vec::<String>::new());
    assert_eq!(slide_lines("\n"), vec![String::new()]);
    assert_eq!(slide_lines("a\n\nb"), vec!["a".to_string(), String::new(), "b".to_string()]);
}

#[test]
fn special_characters_in_slides_are_escaped() {
    let doc = build_document("Tom & Jerry");
    assert!(doc.contains("\\huge{Tom \\& Jerry} \\\\\n"));
}

#[test]
fn slides_joined_with_blank_lines_give_back_text() {
    for s in ["", "a", "a\n\nb", "\n\n\n", "x\n\n", "A\n\n\n\nB", "one\ntwo\r\n\r\nthree"] {
        let slides = split_slides(s);
        assert!(!slides.is_empty());
        assert_eq!(slides.join("\n\n"), s);
    }
}
