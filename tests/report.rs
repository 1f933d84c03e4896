use lyric_slides::report::{byproduct_file_names, join_names, tex_file_name, Summary};

#[test]
fn document_file_name_uses_tex_extension() {
    assert_eq!(tex_file_name("song"), "song.tex");
}

#[test]
fn byproduct_names_cover_each_extension() {
    assert_eq!(
        byproduct_file_names("song"),
        vec!["song.aux", "song.log", "song.nav", "song.out", "song.snm", "song.toc"]
    );
}

#[test]
fn join_names_separates_with_comma() {
    let names = vec!["a".to_string(), "b".to_string(), "c".to_string()];
    assert_eq!(join_names(&names, ", "), "a, b, c");
    assert_eq!(join_names(&Vec::new(), ", "), "");
}

#[test]
fn one_failure_does_not_affect_the_other_input() {
    let mut summary = Summary::new();
    summary.record("broken".to_string(), false);
    summary.record("hymn".to_string(), true);
    assert_eq!(summary.succeeded, vec!["hymn".to_string()]);
    assert_eq!(summary.failed, vec!["broken".to_string()]);
    assert_eq!(
        summary.report_lines(),
        vec![
            "Processing Summary:".to_string(),
            "Successfully processed and compiled: hymn".to_string(),
            "Failed to process or compile: broken".to_string(),
        ]
    );
}

#[test]
fn report_omits_empty_groups() {
    let mut summary = Summary::new();
    assert_eq!(summary.report_lines(), vec!["Processing Summary:".to_string()]);
    summary.record("a".to_string(), true);
    summary.record("b".to_string(), true);
    assert_eq!(
        summary.report_lines(),
        vec![
            "Processing Summary:".to_string(),
            "Successfully processed and compiled: a, b".to_string(),
        ]
    );
}
