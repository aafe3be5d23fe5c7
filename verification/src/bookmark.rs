//! Bookmarks and the index that keeps them: a bookmark is a snippet under a
//! name, with the identifier that its content gives it. In the index no name
//! and no identifier occurs twice.

use crate::error::CaptureError;
use crate::language::Language;
use crate::utils::{content_id, merkle_tree_hash};
use vstd::prelude::*;
use vstd::string::*;

verus! {

/// The directory in which the contents of the bookmarks are kept.
pub const DEFAULT_PATH: &'static str = ".capture";

/// The file that holds the index of the bookmarks.
pub const INDEX_FILE_PATH: &'static str = ".capture/index.sql";

/// A snippet stored under a name.
#[derive(Clone, Debug)]
pub struct Bookmark {
    pub id: String,
    pub name: String,
    pub lang: Language,
    pub content: Vec<String>,
}

/// What a bookmark holds, as plain text.
pub ghost struct Record {
    pub id: Seq<char>,
    pub name: Seq<char>,
    pub lang: Language,
    pub content: Seq<Seq<char>>,
}

impl View for Bookmark {
    type V = Record;

    open spec fn view(&self) -> Record {
        Record {
            id: self.id@,
            name: self.name@,
            lang: self.lang,
            content: self.content.deep_view(),
        }
    }
}

/// The records of a list of bookmarks, in their order.
pub open spec fn records(bookmarks: Seq<Bookmark>) -> Seq<Record> {
    Seq::new(bookmarks.len(), |i: int| bookmarks[i]@)
}

/// Some record has the name `name`.
pub open spec fn has_name(index: Seq<Record>, name: Seq<char>) -> bool {
    exists|i: int| 0 <= i < index.len() && (#[trigger] index[i]).name == name
}

/// Some record has the identifier `id`.
pub open spec fn has_id(index: Seq<Record>, id: Seq<char>) -> bool {
    exists|i: int| 0 <= i < index.len() && (#[trigger] index[i]).id == id
}

/// No two records share a name, and no two share an identifier.
pub open spec fn distinct(index: Seq<Record>) -> bool {
    forall|i: int, j: int|
        0 <= i < j < index.len() ==> (#[trigger] index[i]).name != (#[trigger] index[j]).name
            && index[i].id != index[j].id
}

/// The text under which a content is kept: every line, each followed by a
/// line feed.
pub open spec fn blob_text(lines: Seq<Seq<char>>) -> Seq<char>
    decreases lines.len(),
{
    if lines.len() == 0 {
        Seq::empty()
    } else {
        blob_text(lines.drop_last()) + lines.last() + seq!['\n']
    }
}

/// The path at which the content with the identifier `id` is kept.
pub open spec fn blob_path(id: Seq<char>) -> Seq<char> {
    DEFAULT_PATH@ + seq!['/'] + id
}

/// A copy of `lines`.
fn copy_lines(lines: &Vec<String>) -> (copy: Vec<String>)
    ensures
        copy@ == lines@,
{
    let mut copy: Vec<String> = Vec::new();
    let mut at: usize = 0;
    while at < lines.len()
        invariant
            at <= lines.len(),
            copy@ == lines@.take(at as int),
        decreases lines.len() - at,
    {
        copy.push(lines[at].clone());
        assert(lines@.take(at + 1) == lines@.take(at as int).push(lines@[at as int]));
        at = at + 1;
    }
    assert(lines@.take(at as int) == lines@);
    copy
}

/// The text under which `lines` are kept.
pub fn content_blob(lines: &Vec<String>) -> (blob: String)
    ensures
        blob@ == blob_text(lines.deep_view()),
{
    let ghost text = lines.deep_view();
    let mut blob = String::new();
    let mut at: usize = 0;
    while at < lines.len()
        invariant
            text == lines.deep_view(),
            at <= lines.len(),
            blob@ == blob_text(text.take(at as int)),
        decreases lines.len() - at,
    {
        proof {
            reveal_strlit("\n");
            assert("\n"@ == seq!['\n']);
            assert(text.take(at + 1).drop_last() == text.take(at as int));
        }
        blob.append(lines[at].as_str());
        blob.append("\n");
        at = at + 1;
    }
    assert(text.take(at as int) == text);
    blob
}

impl Bookmark {
    /// Builds a bookmark from a row of the index and the lines of its
    /// content. The row holds, in this order, the identifier, the name and
    /// the extension of the language, each as a pair of the column's name
    /// and its value. A row with fewer than three columns, or without one
    /// of the three values, gives no bookmark.
    pub fn load(row: &Vec<(String, Option<String>)>, content: Vec<String>) -> (loaded: Option<
        Bookmark,
    >)
        ensures
            match loaded {
                Some(bookmark) => {
                    &&& row@.len() >= 3
                    &&& row@[0].1 == Some(bookmark.id)
                    &&& row@[1].1 == Some(bookmark.name)
                    &&& row@[2].1 matches Some(extension) && bookmark.lang == Language::resolve(
                        extension@,
                    )
                    &&& bookmark.content == content
                },
                None => row@.len() < 3 || row@[0].1 is None || row@[1].1 is None
                    || row@[2].1 is None,
            },
    {
        if row.len() < 3 {
            return None;
        }
        match (&row[0].1, &row[1].1, &row[2].1) {
            (Some(id), Some(name), Some(extension)) => Some(
                Bookmark {
                    id: id.clone(),
                    name: name.clone(),
                    lang: Language::from_extension(extension.as_str()),
                    content,
                },
            ),
            _ => None,
        }
    }

    /// The path at which the content of the bookmark is kept.
    pub fn get_path(&self) -> (path: String)
        ensures
            path@ == blob_path(self.id@),
    {
        proof {
            reveal_strlit("/");
            assert("/"@ == seq!['/']);
        }
        let mut path = String::from_str(DEFAULT_PATH);
        path.append("/");
        path.append(self.id.as_str());
        path
    }
}

/// The index of the bookmarks.
pub struct Store {
    bookmarks: Vec<Bookmark>,
}

impl View for Store {
    type V = Seq<Record>;

    closed spec fn view(&self) -> Seq<Record> {
        records(self.bookmarks@)
    }
}

impl Store {
    #[verifier::type_invariant]
    spec fn well_formed(self) -> bool {
        distinct(records(self.bookmarks@))
    }

    /// The position of the bookmark with the name `name`, if there is one.
    fn position(&self, name: &String) -> (found: Option<usize>)
        ensures
            match found {
                Some(at) => at < self@.len() && self@[at as int].name == name@,
                None => !has_name(self@, name@),
            },
    {
        let mut at: usize = 0;
        while at < self.bookmarks.len()
            invariant
                at <= self.bookmarks.len(),
                forall|i: int| 0 <= i < at ==> (#[trigger] self@[i]).name != name@,
            decreases self.bookmarks.len() - at,
        {
            if self.bookmarks[at].name == *name {
                return Some(at);
            }
            at = at + 1;
        }
        None
    }

    /// Whether some bookmark has the identifier `id`.
    fn holds_id(&self, id: &String) -> (found: bool)
        ensures
            found == has_id(self@, id@),
    {
        let mut at: usize = 0;
        while at < self.bookmarks.len()
            invariant
                at <= self.bookmarks.len(),
                forall|i: int| 0 <= i < at ==> (#[trigger] self@[i]).id != id@,
            decreases self.bookmarks.len() - at,
        {
            if self.bookmarks[at].id == *id {
                assert(self@[at as int].id == id@);
                return true;
            }
            at = at + 1;
        }
        false
    }

    /// Builds the index from the bookmarks that were read from storage, in
    /// their order. Bookmarks of which two share a name or an identifier are
    /// no index: storage is broken.
    pub fn load(bookmarks: Vec<Bookmark>) -> (r: Result<Store, CaptureError>)
        ensures
            match r {
                Ok(store) => distinct(store@) && store@ == records(bookmarks@),
                Err(e) => e == CaptureError::IoError && !distinct(records(bookmarks@)),
            },
    {
        let ghost index = records(bookmarks@);
        let mut upper: usize = 0;
        while upper < bookmarks.len()
            invariant
                upper <= bookmarks.len(),
                index == records(bookmarks@),
                forall|i: int, j: int|
                    0 <= i < j < upper ==> (#[trigger] index[i]).name != (#[trigger] index[j]).name
                        && index[i].id != index[j].id,
            decreases bookmarks.len() - upper,
        {
            let mut lower: usize = 0;
            while lower < upper
                invariant
                    lower <= upper < bookmarks.len(),
                    index == records(bookmarks@),
                    forall|i: int|
                        0 <= i < lower ==> (#[trigger] index[i]).name != index[upper as int].name
                            && index[i].id != index[upper as int].id,
                decreases upper - lower,
            {
                if bookmarks[lower].name == bookmarks[upper].name || bookmarks[lower].id
                    == bookmarks[upper].id {
                    assert(index[lower as int].name == index[upper as int].name
                        || index[lower as int].id == index[upper as int].id);
                    return Err(CaptureError::IoError);
                }
                lower = lower + 1;
            }
            upper = upper + 1;
        }
        Ok(Store { bookmarks })
    }
}

/// An index without bookmarks.
pub fn setup() -> (store: Store)
    ensures
        store@ == Seq::<Record>::empty(),
        distinct(store@),
{
    let store = Store { bookmarks: Vec::new() };
    assert(store@ =~= Seq::<Record>::empty());
    store
}

/// Whether a bookmark with the name `name` is stored.
pub fn is_stored(store: &Store, name: &String) -> (found: bool)
    ensures
        found == has_name(store@, name@),
        distinct(store@),
{
    proof {
        use_type_invariant(store);
    }
    store.position(name).is_some()
}

/// Stores `lines` under `name`. The identifier of the new bookmark is the
/// one that its content gives it.
///
/// Fails with `AlreadyExists`, and leaves the index as it was, where the
/// name is taken or a bookmark with the same content is stored.
pub fn create(store: &mut Store, name: &String, lines: &Vec<String>, lang: &Language) -> (r: Result<
    (),
    CaptureError,
>)
    ensures
        distinct(old(store)@),
        distinct(final(store)@),
        match r {
            Ok(()) => {
                &&& !has_name(old(store)@, name@)
                &&& !has_id(old(store)@, content_id(lines.deep_view()))
                &&& final(store)@ == old(store)@.push(
                    Record {
                        id: content_id(lines.deep_view()),
                        name: name@,
                        lang: *lang,
                        content: lines.deep_view(),
                    },
                )
            },
            Err(e) => {
                &&& e == CaptureError::AlreadyExists
                &&& has_name(old(store)@, name@) || has_id(
                    old(store)@,
                    content_id(lines.deep_view()),
                )
                &&& final(store)@ == old(store)@
            },
        },
{
    proof {
        use_type_invariant(&*store);
    }
    let id = merkle_tree_hash(lines);
    if store.position(name).is_some() || store.holds_id(&id) {
        return Err(CaptureError::AlreadyExists);
    }
    let bookmark = Bookmark { id, name: name.clone(), lang: *lang, content: copy_lines(lines) };
    let ghost before = store@;
    let mut bookmarks: Vec<Bookmark> = Vec::new();
    std::mem::swap(&mut store.bookmarks, &mut bookmarks);
    bookmarks.push(bookmark);
    let ghost after = records(bookmarks@);
    assert(after =~= before.push(bookmark@));
    assert forall|i: int, j: int| 0 <= i < j < after.len() implies (#[trigger] after[i]).name != (
    #[trigger] after[j]).name && after[i].id != after[j].id by {
        assert(after[i] == before[i]);
        if j < before.len() {
            assert(after[j] == before[j]);
        }
    }
    std::mem::swap(&mut store.bookmarks, &mut bookmarks);
    Ok(())
}

/// Removes the bookmark with the name `name`; the others keep their order.
///
/// Fails with `NotFound`, and leaves the index as it was, where no bookmark
/// has that name.
pub fn delete(store: &mut Store, name: &String) -> (r: Result<(), CaptureError>)
    ensures
        distinct(old(store)@),
        distinct(final(store)@),
        match r {
            Ok(()) => exists|at: int|
                0 <= at < old(store)@.len() && (#[trigger] old(store)@[at]).name == name@
                    && final(store)@ == old(store)@.remove(at),
            Err(e) => {
                &&& e == CaptureError::NotFound
                &&& !has_name(old(store)@, name@)
                &&& final(store)@ == old(store)@
            },
        },
{
    proof {
        use_type_invariant(&*store);
    }
    match store.position(name) {
        Some(at) => {
            let ghost before = store@;
            let mut bookmarks: Vec<Bookmark> = Vec::new();
            std::mem::swap(&mut store.bookmarks, &mut bookmarks);
            bookmarks.remove(at);
            let ghost after = records(bookmarks@);
            assert(after =~= before.remove(at as int));
            assert forall|i: int, j: int| 0 <= i < j < after.len() implies (#[trigger] after[i]).name
                != (#[trigger] after[j]).name && after[i].id != after[j].id by {
                let from_i = if i < at { i } else { i + 1 };
                let from_j = if j < at { j } else { j + 1 };
                assert(after[i] == before[from_i]);
                assert(after[j] == before[from_j]);
            }
            std::mem::swap(&mut store.bookmarks, &mut bookmarks);
            Ok(())
        },
        None => Err(CaptureError::NotFound),
    }
}

/// The bookmark with the name `name`, if one is stored.
pub fn get_bookmark<'a>(store: &'a Store, name: &String) -> (found: Option<&'a Bookmark>)
    ensures
        distinct(store@),
        match found {
            Some(bookmark) => bookmark.name@ == name@ && store@.contains(bookmark@),
            None => !has_name(store@, name@),
        },
{
    proof {
        use_type_invariant(store);
    }
    match store.position(name) {
        Some(at) => {
            assert(store@[at as int] == store.bookmarks@[at as int]@);
            Some(&store.bookmarks[at])
        },
        None => None,
    }
}

/// All bookmarks, in the order in which they were stored.
pub fn get_all_bookmarks(store: &Store) -> (all: &Vec<Bookmark>)
    ensures
        records(all@) == store@,
        distinct(store@),
{
    proof {
        use_type_invariant(store);
    }
    &store.bookmarks
}

} // verus!
