use git_bot_feedback::{AnnotationLevel, FileAnnotation};

#[test]
fn generic_message() {
    let annotation = FileAnnotation {
        severity: AnnotationLevel::Debug,
        message: "This is a debug message".to_string(),
        ..Default::default()
    };
    assert_eq!(annotation.to_string(), "::debug::This is a debug message");
}

#[test]
fn annotate_file() {
    let annotation = FileAnnotation {
        severity: AnnotationLevel::Warning,
        message: "This is a warning message".to_string(),
        path: "src/main.rs".to_string(),
        title: Some("Warning Title".to_string()),
        ..Default::default()
    };
    assert_eq!(
        annotation.to_string(),
        "::warning file=src/main.rs,title=Warning Title::This is a warning message"
    );
}

#[test]
fn annotate_file_with_start_line() {
    let annotation = FileAnnotation {
        severity: AnnotationLevel::Error,
        path: "src/lib.rs".to_string(),
        message: "This is an error message".to_string(),
        start_line: Some(10),
        ..Default::default()
    };
    assert_eq!(
        annotation.to_string(),
        "::error file=src/lib.rs,line=10::This is an error message"
    );
}

#[test]
fn annotate_file_with_start_line_col() {
    let annotation = FileAnnotation {
        severity: AnnotationLevel::Error,
        path: "src/lib.rs".to_string(),
        message: "This is an error message".to_string(),
        start_line: Some(10),
        start_column: Some(5),
        ..Default::default()
    };
    assert_eq!(
        annotation.to_string(),
        "::error file=src/lib.rs,line=10,col=5::This is an error message"
    );
}

#[test]
fn annotate_file_with_line_span() {
    let annotation = FileAnnotation {
        severity: AnnotationLevel::Notice,
        path: "src/lib.rs".to_string(),
        message: "This is a notice message".to_string(),
        start_line: Some(10),
        end_line: Some(20),
        ..Default::default()
    };
    assert_eq!(
        annotation.to_string(),
        "::notice file=src/lib.rs,line=10,endline=20::This is a notice message"
    );
}

#[test]
fn annotate_file_with_line_col_span() {
    let annotation = FileAnnotation {
        severity: AnnotationLevel::Notice,
        path: "src/lib.rs".to_string(),
        message: "This is a notice message".to_string(),
        start_line: Some(10),
        start_column: Some(5),
        end_line: Some(20),
        end_column: Some(15),
        ..Default::default()
    };
    assert_eq!(
        annotation.to_string(),
        "::notice file=src/lib.rs,line=10,col=5,endline=20,endColumn=15::This is a notice message"
    );
}

#[test]
fn annotation_parts_that_do_not_count() {
    let annotation = FileAnnotation {
        severity: AnnotationLevel::Notice,
        message: "m".to_string(),
        start_line: Some(3),
        title: Some("t".to_string()),
        ..Default::default()
    };
    // Without a path there is no place.
    assert_eq!(annotation.to_string(), "::notice,title=t::m");
    let annotation = FileAnnotation {
        path: "a".to_string(),
        message: "m".to_string(),
        start_line: Some(0),
        start_column: Some(0),
        end_line: Some(0),
        end_column: Some(9),
        ..Default::default()
    };
    // Columns and the end line are at least one; the start line is as given.
    assert_eq!(annotation.to_string(), "::notice file=a,line=0,col=1,endline=1,endColumn=9::m");
    let annotation = FileAnnotation {
        path: "a".to_string(),
        message: "m".to_string(),
        start_line: Some(7),
        start_column: Some(9),
        end_line: Some(7),
        end_column: Some(12),
        ..Default::default()
    };
    assert_eq!(annotation.to_string(), "::notice file=a,line=7,col=9::m");
    let annotation = FileAnnotation {
        path: "a".to_string(),
        message: "m".to_string(),
        start_line: Some(7),
        start_column: Some(9),
        end_line: Some(18446744073709551615),
        end_column: Some(9),
        ..Default::default()
    };
    assert_eq!(annotation.to_string(), "::notice file=a,line=7,col=9,endline=18446744073709551615::m");
}
