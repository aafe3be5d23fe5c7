use capture::extract::extract;
use capture::language::Language;
use capture::rules::Rule;

fn lines(text: &[&str]) -> Vec<String> {
    text.iter().map(|line| line.to_string()).collect()
}

fn rust() -> Rule {
    Rule { language: Language::Rust, delimiter: ('{', '}') }
}

#[test]
fn blank_line_does_not_lower_the_indentation() {
    let source = lines(&["    a", "    b", "", "    c"]);
    assert_eq!(extract(&rust(), &source, 1, 4, true), lines(&["a", "b", "", "c"]));
}

#[test]
fn least_indentation_is_removed_from_every_line() {
    let source = lines(&["        a", "    b", "      c", "", "            d"]);
    assert_eq!(
        extract(&rust(), &source, 1, 5, true),
        lines(&["    a", "b", "  c", "", "        d"])
    );
    let source = lines(&["a", "    b"]);
    assert_eq!(extract(&rust(), &source, 1, 2, true), lines(&["a", "    b"]));
}

#[test]
fn line_of_spaces_counts_for_the_indentation() {
    let source = lines(&["  ", "    x"]);
    assert_eq!(extract(&rust(), &source, 1, 2, true), lines(&["", "  x"]));
}

#[test]
fn tabs_are_no_indentation() {
    let source = lines(&["\t  a", "    b"]);
    assert_eq!(extract(&rust(), &source, 1, 2, true), lines(&["\t  a", "    b"]));
    let source = lines(&["  \ta", "    b"]);
    assert_eq!(extract(&rust(), &source, 1, 2, true), lines(&["\ta", "  b"]));
}

#[test]
fn only_empty_lines_stay_as_they_are() {
    let source = lines(&["", "", ""]);
    assert_eq!(extract(&rust(), &source, 1, 3, true), lines(&["", "", ""]));
}

#[test]
fn interval_is_counted_from_one_and_includes_both_ends() {
    let source = lines(&["a", "b", "c", "d", "e"]);
    assert_eq!(extract(&rust(), &source, 2, 4, true), lines(&["b", "c", "d"]));
    assert_eq!(extract(&rust(), &source, 1, 1, true), lines(&["a"]));
    assert_eq!(extract(&rust(), &source, 5, 5, true), lines(&["e"]));
    assert_eq!(extract(&rust(), &source, 1, 5, true), source);
}

#[test]
fn interval_beyond_the_source_ends_with_it() {
    let source = lines(&["a", "b", "c"]);
    assert_eq!(extract(&rust(), &source, 2, 100, true), lines(&["b", "c"]));
    assert_eq!(extract(&rust(), &source, 4, 100, true), Vec::<String>::new());
    assert_eq!(extract(&rust(), &source, 3, usize::MAX, true), lines(&["c"]));
    assert_eq!(extract(&rust(), &Vec::new(), 1, 1, true), Vec::<String>::new());
}

#[test]
fn interval_that_is_no_interval_gives_nothing() {
    let source = lines(&["a", "b", "c"]);
    assert_eq!(extract(&rust(), &source, 3, 2, true), Vec::<String>::new());
    assert_eq!(extract(&rust(), &source, 0, 0, true), Vec::<String>::new());
    assert_eq!(extract(&rust(), &source, 0, 2, true), lines(&["a", "b"]));
}

#[test]
fn comments_are_kept_on_demand() {
    let source = lines(&["// a", "/* b", "c", "*/", "/* d */", "e"]);
    assert_eq!(extract(&rust(), &source, 1, 6, true), source);
}

#[test]
fn comment_lines_are_dropped() {
    let source = lines(&["    // a", "    x", "    /* b */", "    y // z"]);
    assert_eq!(extract(&rust(), &source, 1, 4, false), lines(&["x", "y // z"]));
}

#[test]
fn lines_inside_a_block_comment_are_dropped() {
    let source = lines(&["a", "/* b", "c", "    d", "e */", "f"]);
    assert_eq!(extract(&rust(), &source, 1, 6, false), lines(&["a", "f"]));
}

#[test]
fn block_comments_nest() {
    let source = lines(&["a", "/* b", "/* c", "d", "e */", "f", "g */", "h"]);
    assert_eq!(extract(&rust(), &source, 1, 8, false), lines(&["a", "h"]));
}

#[test]
fn closing_marker_without_an_open_comment_changes_nothing_below() {
    let source = lines(&["a", "b */", "c", "/* d", "e", "f */", "g"]);
    assert_eq!(extract(&rust(), &source, 1, 7, false), lines(&["a", "c", "g"]));
}

#[test]
fn comment_that_opens_before_the_interval_is_not_seen() {
    let source = lines(&["/* a", "b", "c */", "d"]);
    assert_eq!(extract(&rust(), &source, 2, 4, false), lines(&["b", "d"]));
}

#[test]
fn dropped_lines_do_not_count_for_the_indentation() {
    let source = lines(&["// a", "    b", "  /* c */", "      d"]);
    assert_eq!(extract(&rust(), &source, 1, 4, false), lines(&["b", "  d"]));
}

#[test]
fn unknown_language_drops_no_line() {
    let unknown = Rule { language: Language::Unknown, delimiter: ('{', '}') };
    let source = lines(&["  // a", "  /* b", "  c", "  */", "  # d"]);
    assert_eq!(
        extract(&unknown, &source, 1, 5, false),
        lines(&["// a", "/* b", "c", "*/", "# d"])
    );
}

#[test]
fn python_comments_are_dropped() {
    let python = Rule { language: Language::Python, delimiter: ('{', '}') };
    let source = lines(&[
        "def f():",
        "    \"\"\" doc",
        "    more",
        "    and the end \"\"\"",
        "    # x",
        "    return 1",
    ]);
    assert_eq!(extract(&python, &source, 1, 6, false), lines(&["def f():", "    return 1"]));
}

#[test]
fn quotes_alone_on_a_line_do_not_close_a_comment() {
    let python = Rule { language: Language::Python, delimiter: ('{', '}') };
    let source = lines(&["def f():", "    \"\"\" doc", "    \"\"\"", "    return 1"]);
    assert_eq!(extract(&python, &source, 1, 4, false), lines(&["def f():"]));
}
