use capture::bookmark::{get_bookmark, setup};
use capture::error::CaptureError;
use capture::language::Language;
use capture::rules::Rule;
use capture::utils::merkle_tree_hash;
use capture::Capture;

fn lines(text: &[&str]) -> Vec<String> {
    text.iter().map(|line| line.to_string()).collect()
}

fn source() -> Vec<String> {
    lines(&[
        "struct Calc;",
        "impl Calc {",
        "    fn add(a: i32, b: i32) -> i32 {",
        "        // the sum, unless a is negative",
        "        if a > 0 { return a + b; }",
        "    }",
        "    fn sub(a: i32, b: i32) -> i32 {",
        "        a - b",
        "    }",
        "}",
    ])
}

#[test]
fn session_starts_without_a_result() {
    let session = Capture::new("src/calc.rs").unwrap();
    assert_eq!(session.rule.language, Language::Rust);
    assert_eq!(session.rule.delimiter, ('{', '}'));
    assert_eq!(session.path_str, "src/calc.rs");
    assert!(session.result.is_empty());
}

#[test]
fn session_for_an_unknown_extension_starts() {
    let session = Capture::new("notes.txt").unwrap();
    assert_eq!(session.rule.language, Language::Unknown);
}

#[test]
fn session_needs_an_extension() {
    assert_eq!(Capture::new("Makefile").err(), Some(CaptureError::ConfigurationError));
    assert_eq!(Capture::new("").err(), Some(CaptureError::ConfigurationError));
    assert_eq!(Capture::with_rule(None, "a.rs").err(), Some(CaptureError::ConfigurationError));
}

#[test]
fn session_with_a_given_rule() {
    let rule = Rule { language: Language::Golang, delimiter: ('(', ')') };
    let session = Capture::with_rule(Some(rule), "x").unwrap();
    assert_eq!(session.rule.language, Language::Golang);
    assert_eq!(session.rule.delimiter, ('(', ')'));
    assert_eq!(session.path_str, "x");
    assert!(session.result.is_empty());
}

#[test]
fn extracts_a_function_with_its_comments() {
    let mut session = Capture::new("calc.rs").unwrap();
    assert_eq!(session.from_function(&source(), &"add".to_string(), true), Ok(()));
    assert_eq!(
        session.result,
        lines(&[
            "fn add(a: i32, b: i32) -> i32 {",
            "    // the sum, unless a is negative",
            "    if a > 0 { return a + b; }",
            "}",
        ])
    );
}

#[test]
fn extracts_a_function_without_its_comments() {
    let mut session = Capture::new("calc.rs").unwrap();
    assert_eq!(session.from_function(&source(), &"add".to_string(), false), Ok(()));
    assert_eq!(
        session.result,
        lines(&["fn add(a: i32, b: i32) -> i32 {", "    if a > 0 { return a + b; }", "}"])
    );
}

#[test]
fn extracts_the_second_function() {
    let mut session = Capture::new("calc.rs").unwrap();
    assert_eq!(session.from_function(&source(), &"sub".to_string(), false), Ok(()));
    assert_eq!(session.result, lines(&["fn sub(a: i32, b: i32) -> i32 {", "    a - b", "}"]));
}

#[test]
fn function_that_is_not_there_is_not_found() {
    let mut session = Capture::new("calc.rs").unwrap();
    assert_eq!(
        session.from_function(&source(), &"mul".to_string(), true),
        Err(CaptureError::NotFound)
    );
    assert!(session.result.is_empty());
    assert_eq!(
        session.from_function(&Vec::new(), &"add".to_string(), true),
        Err(CaptureError::NotFound)
    );
    assert_eq!(session.from_function(&source(), &"add".to_string(), true), Ok(()));
}

#[test]
fn function_whose_block_stays_open_is_not_found() {
    let mut session = Capture::new("calc.rs").unwrap();
    let open = lines(&["fn add(a: i32) {", "    if a > 0 {", "    }"]);
    assert_eq!(session.from_function(&open, &"add".to_string(), true), Err(CaptureError::NotFound));
    assert!(session.result.is_empty());
}

#[test]
fn unknown_language_finds_no_function() {
    let mut session = Capture::new("calc.txt").unwrap();
    assert_eq!(
        session.from_function(&source(), &"add".to_string(), true),
        Err(CaptureError::NotFound)
    );
}

#[test]
fn extracts_an_interval() {
    let mut session = Capture::new("calc.rs").unwrap();
    assert_eq!(session.from_interval(&source(), 3, 6, false), Ok(()));
    assert_eq!(
        session.result,
        lines(&["fn add(a: i32, b: i32) -> i32 {", "    if a > 0 { return a + b; }", "}"])
    );
    let mut session = Capture::new("calc.rs").unwrap();
    assert_eq!(session.from_interval(&source(), 8, 8, true), Ok(()));
    assert_eq!(session.result, lines(&["a - b"]));
}

#[test]
fn interval_must_start_at_one_and_not_end_before() {
    let mut session = Capture::new("calc.rs").unwrap();
    assert_eq!(session.from_interval(&source(), 0, 3, true), Err(CaptureError::InvalidInput));
    assert_eq!(session.from_interval(&source(), 0, 0, true), Err(CaptureError::InvalidInput));
    assert_eq!(session.from_interval(&source(), 4, 3, true), Err(CaptureError::InvalidInput));
    assert!(session.result.is_empty());
    assert_eq!(session.from_interval(&source(), 3, 3, true), Ok(()));
}

#[test]
fn second_extraction_fails_and_keeps_the_result() {
    let mut session = Capture::new("calc.rs").unwrap();
    assert_eq!(session.from_function(&source(), &"add".to_string(), false), Ok(()));
    let first = session.result.clone();
    assert_eq!(
        session.from_function(&source(), &"sub".to_string(), false),
        Err(CaptureError::AlreadyProduced)
    );
    assert_eq!(session.result, first);
    assert_eq!(session.from_interval(&source(), 1, 2, true), Err(CaptureError::AlreadyProduced));
    assert_eq!(session.result, first);
    assert_eq!(
        session.from_function(&source(), &"mul".to_string(), false),
        Err(CaptureError::AlreadyProduced)
    );
    assert_eq!(session.from_interval(&source(), 0, 0, true), Err(CaptureError::AlreadyProduced));
    assert_eq!(session.result, first);
    assert_eq!(session.path_str, "calc.rs");
}

#[test]
fn extraction_that_gave_no_line_can_be_followed_by_another() {
    let mut session = Capture::new("calc.rs").unwrap();
    assert_eq!(session.from_interval(&source(), 20, 30, true), Ok(()));
    assert!(session.result.is_empty());
    assert_eq!(session.from_interval(&source(), 10, 30, true), Ok(()));
    assert_eq!(session.result, lines(&["}"]));
}

#[test]
fn snippet_is_stored_under_a_name() {
    let mut session = Capture::new("calc.rs").unwrap();
    session.from_function(&source(), &"sub".to_string(), false).unwrap();
    let mut store = setup();
    assert_eq!(session.bookmark(&mut store, &"minus".to_string()), Ok(()));
    let stored = get_bookmark(&store, &"minus".to_string()).unwrap();
    assert_eq!(stored.name, "minus");
    assert_eq!(stored.lang, Language::Rust);
    assert_eq!(stored.content, session.result);
    assert_eq!(stored.id, merkle_tree_hash(&session.result));
    assert_eq!(
        session.bookmark(&mut store, &"minus".to_string()),
        Err(CaptureError::AlreadyExists)
    );
    assert_eq!(
        session.bookmark(&mut store, &"again".to_string()),
        Err(CaptureError::AlreadyExists)
    );
}
