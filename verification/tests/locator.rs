use capture::language::Language;
use capture::locate::locate_marked;
use capture::rules::Rule;

fn lines(text: &[&str]) -> Vec<String> {
    text.iter().map(|line| line.to_string()).collect()
}

fn marks_at(count: usize, marked: &[usize]) -> Vec<bool> {
    (0..count).map(|i| marked.contains(&i)).collect()
}

const BRACES: (char, char) = ('{', '}');

#[test]
fn function_on_one_line_ends_where_it_starts() {
    let source = lines(&["package main", "func one() int { return 1 }", "func two() int {", "}"]);
    assert_eq!(locate_marked(&source, &marks_at(4, &[1]), BRACES), Some((2, 2)));
    let go = Rule { language: Language::Golang, delimiter: BRACES };
    assert_eq!(go.locate_function(&source, &"one".to_string()), Some((2, 2)));
    assert_eq!(go.locate_function(&source, &"two".to_string()), Some((3, 4)));
}

#[test]
fn nested_blocks_of_depth_three_are_skipped() {
    let source = lines(&[
        "fn outer() {",
        "    if a {",
        "        while b {",
        "            match c {",
        "                _ => {}",
        "            }",
        "        }",
        "    }",
        "}",
        "fn next() {",
        "}",
    ]);
    assert_eq!(locate_marked(&source, &marks_at(11, &[0]), BRACES), Some((1, 9)));
    let rust = Rule { language: Language::Rust, delimiter: BRACES };
    assert_eq!(rust.locate_function(&source, &"outer".to_string()), Some((1, 9)));
    assert_eq!(rust.locate_function(&source, &"next".to_string()), Some((10, 11)));
}

#[test]
fn every_delimiter_of_a_line_counts() {
    let source = lines(&["f {", "  } else {", "  {{ }}", "}", "}"]);
    assert_eq!(locate_marked(&source, &marks_at(5, &[0]), BRACES), Some((1, 2)));
    let source = lines(&["f {", "  {} {} {}", "}"]);
    assert_eq!(locate_marked(&source, &marks_at(3, &[0]), BRACES), Some((1, 3)));
    let source = lines(&["f {{", "}", "}"]);
    assert_eq!(locate_marked(&source, &marks_at(3, &[0]), BRACES), Some((1, 3)));
}

#[test]
fn delimiters_before_the_declaration_do_not_count() {
    let source = lines(&["impl A {", "{{{", "    fn f() {", "    }", "}"]);
    assert_eq!(locate_marked(&source, &marks_at(5, &[2]), BRACES), Some((3, 4)));
}

#[test]
fn later_declaration_wins_while_the_scan_goes_on() {
    let source = lines(&["fn f()", "fn f() {", "}", "fn f() {", "}"]);
    assert_eq!(locate_marked(&source, &marks_at(5, &[0, 1, 3]), BRACES), Some((2, 3)));
    let source = lines(&["fn f() {", "  fn f() {", "  }", "}"]);
    assert_eq!(locate_marked(&source, &marks_at(4, &[0, 1]), BRACES), Some((2, 4)));
}

#[test]
fn block_may_open_below_the_declaration() {
    let source = lines(&["void f()", "{", "    g();", "}", "int x;"]);
    assert_eq!(locate_marked(&source, &marks_at(5, &[0]), BRACES), Some((1, 4)));
    let c = Rule { language: Language::C, delimiter: BRACES };
    assert_eq!(c.locate_function(&source, &"f".to_string()), Some((1, 4)));
}

#[test]
fn nothing_is_located_without_a_declaration() {
    let source = lines(&["{", "}", "fn g() {", "}"]);
    assert_eq!(locate_marked(&source, &marks_at(4, &[]), BRACES), None);
    assert_eq!(locate_marked(&source, &Vec::new(), BRACES), None);
    assert_eq!(locate_marked(&Vec::new(), &Vec::new(), BRACES), None);
    assert_eq!(locate_marked(&Vec::new(), &vec![true], BRACES), None);
    let rust = Rule { language: Language::Rust, delimiter: BRACES };
    assert_eq!(rust.locate_function(&source, &"f".to_string()), None);
}

#[test]
fn nothing_is_located_where_the_block_stays_open() {
    let source = lines(&["fn f() {", "    {", "    }"]);
    assert_eq!(locate_marked(&source, &marks_at(3, &[0]), BRACES), None);
    let source = lines(&["fn f()", "    g();"]);
    assert_eq!(locate_marked(&source, &marks_at(2, &[0]), BRACES), None);
    let source = lines(&["fn f() }", "x"]);
    assert_eq!(locate_marked(&source, &marks_at(2, &[0]), BRACES), None);
}

#[test]
fn depth_may_come_back_to_zero_from_below() {
    let source = lines(&["fn f()", "}", "x", "{", "y"]);
    assert_eq!(locate_marked(&source, &marks_at(5, &[0]), BRACES), Some((1, 4)));
}

#[test]
fn marks_beyond_the_lines_and_missing_marks() {
    let source = lines(&["a", "f {", "}"]);
    assert_eq!(locate_marked(&source, &vec![false, true], BRACES), Some((2, 3)));
    assert_eq!(locate_marked(&source, &vec![false, true, false, true], BRACES), Some((2, 3)));
}

#[test]
fn other_delimiters_can_be_given() {
    let source = lines(&["f (", "{ }", ")"]);
    assert_eq!(locate_marked(&source, &marks_at(3, &[0]), ('(', ')')), Some((1, 3)));
    assert_eq!(locate_marked(&source, &marks_at(3, &[0]), BRACES), Some((1, 2)));
    assert_eq!(locate_marked(&source, &marks_at(3, &[0]), ('|', '|')), None);
}

#[test]
fn marks_the_lines_that_declare_the_function() {
    let source = lines(&["fn a() {", "}", "    pub fn b() -> u8 {", "fn a2() {", "fn a()"]);
    let rust = Rule { language: Language::Rust, delimiter: BRACES };
    assert_eq!(
        rust.mark_declarations(&source, &"a".to_string()),
        vec![true, false, false, false, true]
    );
    assert_eq!(
        rust.mark_declarations(&source, &"b".to_string()),
        vec![false, false, true, false, false]
    );
    assert_eq!(rust.mark_declarations(&Vec::new(), &"b".to_string()), Vec::<bool>::new());
}
