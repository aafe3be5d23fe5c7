use capture::bookmark::{
    content_blob, create, delete, get_all_bookmarks, get_bookmark, is_stored, setup, Bookmark,
    Store, DEFAULT_PATH, INDEX_FILE_PATH,
};
use capture::error::CaptureError;
use capture::language::Language;
use capture::utils::merkle_tree_hash;

fn lines(text: &[&str]) -> Vec<String> {
    text.iter().map(|line| line.to_string()).collect()
}

fn names(store: &Store) -> Vec<String> {
    get_all_bookmarks(store).iter().map(|bookmark| bookmark.name.clone()).collect()
}

fn bookmark(id: &str, name: &str) -> Bookmark {
    Bookmark {
        id: id.to_string(),
        name: name.to_string(),
        lang: Language::Rust,
        content: lines(&[name]),
    }
}

#[test]
fn new_store_is_empty() {
    let store = setup();
    assert!(get_all_bookmarks(&store).is_empty());
    assert!(!is_stored(&store, &"a".to_string()));
    assert!(get_bookmark(&store, &"a".to_string()).is_none());
}

#[test]
fn created_bookmark_is_stored_with_its_identifier() {
    let mut store = setup();
    let content = lines(&["a", "b"]);
    assert_eq!(create(&mut store, &"first".to_string(), &content, &Language::Python), Ok(()));
    assert!(is_stored(&store, &"first".to_string()));
    let stored = get_bookmark(&store, &"first".to_string()).unwrap();
    assert_eq!(stored.id, "beedb4a7ba34c4ea09727022655dd743d5dda2940f1c8e4ec56ff2904324026c");
    assert_eq!(stored.name, "first");
    assert_eq!(stored.lang, Language::Python);
    assert_eq!(stored.content, content);
    assert_eq!(get_all_bookmarks(&store).len(), 1);
}

#[test]
fn name_that_exists_is_refused_and_nothing_changes() {
    let mut store = setup();
    create(&mut store, &"first".to_string(), &lines(&["a", "b"]), &Language::Rust).unwrap();
    assert_eq!(
        create(&mut store, &"first".to_string(), &lines(&["c"]), &Language::Python),
        Err(CaptureError::AlreadyExists)
    );
    assert_eq!(get_all_bookmarks(&store).len(), 1);
    let stored = get_bookmark(&store, &"first".to_string()).unwrap();
    assert_eq!(stored.id, merkle_tree_hash(&lines(&["a", "b"])));
    assert_eq!(stored.content, lines(&["a", "b"]));
    assert_eq!(stored.lang, Language::Rust);
}

#[test]
fn content_that_exists_is_refused_under_another_name() {
    let mut store = setup();
    create(&mut store, &"first".to_string(), &lines(&["a", "b"]), &Language::Rust).unwrap();
    assert_eq!(
        create(&mut store, &"second".to_string(), &lines(&["a", "b"]), &Language::Rust),
        Err(CaptureError::AlreadyExists)
    );
    assert_eq!(names(&store), lines(&["first"]));
    assert_eq!(create(&mut store, &"second".to_string(), &lines(&["b", "a"]), &Language::Rust), Ok(()));
    assert_eq!(names(&store), lines(&["first", "second"]));
}

#[test]
fn bookmarks_keep_the_order_in_which_they_came() {
    let mut store = setup();
    create(&mut store, &"c".to_string(), &lines(&["1"]), &Language::Rust).unwrap();
    create(&mut store, &"a".to_string(), &lines(&["2"]), &Language::C).unwrap();
    create(&mut store, &"b".to_string(), &lines(&["3"]), &Language::Golang).unwrap();
    assert_eq!(names(&store), lines(&["c", "a", "b"]));
    assert_eq!(delete(&mut store, &"a".to_string()), Ok(()));
    assert_eq!(names(&store), lines(&["c", "b"]));
    assert!(!is_stored(&store, &"a".to_string()));
    assert!(get_bookmark(&store, &"a".to_string()).is_none());
    assert_eq!(get_bookmark(&store, &"b".to_string()).unwrap().lang, Language::Golang);
    assert_eq!(create(&mut store, &"a".to_string(), &lines(&["2"]), &Language::C), Ok(()));
    assert_eq!(names(&store), lines(&["c", "b", "a"]));
}

#[test]
fn deleting_what_is_not_stored_fails_and_nothing_changes() {
    let mut store = setup();
    assert_eq!(delete(&mut store, &"a".to_string()), Err(CaptureError::NotFound));
    create(&mut store, &"a".to_string(), &lines(&["1"]), &Language::Rust).unwrap();
    assert_eq!(delete(&mut store, &"b".to_string()), Err(CaptureError::NotFound));
    assert_eq!(delete(&mut store, &"A".to_string()), Err(CaptureError::NotFound));
    assert_eq!(names(&store), lines(&["a"]));
    assert_eq!(delete(&mut store, &"a".to_string()), Ok(()));
    assert_eq!(delete(&mut store, &"a".to_string()), Err(CaptureError::NotFound));
}

#[test]
fn bookmark_without_lines_has_the_empty_identifier() {
    let mut store = setup();
    assert_eq!(create(&mut store, &"none".to_string(), &Vec::new(), &Language::Unknown), Ok(()));
    assert_eq!(get_bookmark(&store, &"none".to_string()).unwrap().id, "");
    assert_eq!(
        create(&mut store, &"nothing".to_string(), &Vec::new(), &Language::Unknown),
        Err(CaptureError::AlreadyExists)
    );
}

#[test]
fn store_is_built_from_what_was_read() {
    let store = Store::load(vec![bookmark("1", "a"), bookmark("2", "b")]).unwrap();
    assert_eq!(names(&store), lines(&["a", "b"]));
    assert_eq!(get_bookmark(&store, &"b".to_string()).unwrap().id, "2");
    let empty = Store::load(Vec::new()).unwrap();
    assert!(get_all_bookmarks(&empty).is_empty());
}

#[test]
fn store_with_a_name_or_an_identifier_twice_is_broken() {
    assert_eq!(
        Store::load(vec![bookmark("1", "a"), bookmark("2", "b"), bookmark("3", "a")]).err(),
        Some(CaptureError::IoError)
    );
    assert_eq!(
        Store::load(vec![bookmark("1", "a"), bookmark("1", "b")]).err(),
        Some(CaptureError::IoError)
    );
}

#[test]
fn bookmark_is_built_from_a_row_of_the_index() {
    let row = vec![
        ("id".to_string(), Some("abc".to_string())),
        ("name".to_string(), Some("first".to_string())),
        ("lang".to_string(), Some("go".to_string())),
    ];
    let loaded = Bookmark::load(&row, lines(&["x", "y"])).unwrap();
    assert_eq!(loaded.id, "abc");
    assert_eq!(loaded.name, "first");
    assert_eq!(loaded.lang, Language::Golang);
    assert_eq!(loaded.content, lines(&["x", "y"]));
    let unknown = vec![
        ("id".to_string(), Some("abc".to_string())),
        ("name".to_string(), Some("first".to_string())),
        ("lang".to_string(), Some("".to_string())),
        ("more".to_string(), None),
    ];
    assert_eq!(Bookmark::load(&unknown, Vec::new()).unwrap().lang, Language::Unknown);
}

#[test]
fn row_that_lacks_a_value_gives_no_bookmark() {
    let short = vec![
        ("id".to_string(), Some("abc".to_string())),
        ("name".to_string(), Some("first".to_string())),
    ];
    assert!(Bookmark::load(&short, Vec::new()).is_none());
    assert!(Bookmark::load(&Vec::new(), Vec::new()).is_none());
    for missing in 0..3 {
        let mut row = vec![
            ("id".to_string(), Some("abc".to_string())),
            ("name".to_string(), Some("first".to_string())),
            ("lang".to_string(), Some("go".to_string())),
        ];
        row[missing].1 = None;
        assert!(Bookmark::load(&row, Vec::new()).is_none());
    }
}

#[test]
fn content_is_kept_under_the_identifier() {
    assert_eq!(bookmark("abc", "a").get_path(), ".capture/abc");
    assert_eq!(bookmark("", "a").get_path(), ".capture/");
    assert_eq!(DEFAULT_PATH, ".capture");
    assert_eq!(INDEX_FILE_PATH, ".capture/index.sql");
}

#[test]
fn content_is_written_line_by_line() {
    assert_eq!(content_blob(&lines(&["a", "  b", ""])), "a\n  b\n\n");
    assert_eq!(content_blob(&lines(&["a"])), "a\n");
    assert_eq!(content_blob(&Vec::new()), "");
}
