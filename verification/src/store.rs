//! An image of the attribute store: the directories and files that the
//! program can see, each under the path of its parent and its own name, and
//! the journal of the writes made to it. Reading and writing go by path,
//! and the first entry under a path is the one that the path names.

use crate::text::{append_chars, chars_of, same_chars, slice_of, string_of};
use vstd::prelude::*;

verus! {

/// What an entry of the store is.
#[derive(Clone, Copy, Debug, PartialEq, Eq, Structural)]
pub enum EntryKind {
    Directory,
    File,
    /// Neither a directory nor a regular file.
    Other,
}

/// An entry of the store as contracts speak of it.
pub struct EntryView {
    pub parent: Seq<char>,
    pub name: Seq<char>,
    pub kind: EntryKind,
    pub readable: bool,
    pub text: Seq<char>,
}

/// The path of the entry `name` in the directory `parent`.
pub open spec fn join(parent: Seq<char>, name: Seq<char>) -> Seq<char> {
    parent + seq!['/'] + name
}

impl EntryView {
    /// The path of the entry.
    pub open spec fn path(self) -> Seq<char> {
        join(self.parent, self.name)
    }

    /// Whether the entry is a regular file.
    pub open spec fn is_file(self) -> bool {
        self.kind == EntryKind::File
    }

    /// Whether the entry is a directory.
    pub open spec fn is_directory(self) -> bool {
        self.kind == EntryKind::Directory
    }
}

/// One write: the path of the file and the text that replaced its content.
pub struct WriteView {
    pub path: Seq<char>,
    pub text: Seq<char>,
}

/// The index of the first entry under `path`, or the number of entries if
/// there is none.
pub open spec fn first_entry(entries: Seq<EntryView>, path: Seq<char>) -> int
    decreases entries.len(),
{
    if entries.len() == 0 || entries[0].path() == path {
        0
    } else {
        1 + first_entry(entries.drop_first(), path)
    }
}

/// The store as contracts speak of it: its entries in the order in which
/// they are listed, and the writes made so far, oldest first.
pub struct StoreView {
    pub entries: Seq<EntryView>,
    pub journal: Seq<WriteView>,
}

impl StoreView {
    /// The index of the entry that `path` names, or the number of entries.
    pub open spec fn index_of(self, path: Seq<char>) -> int {
        first_entry(self.entries, path)
    }

    /// Whether `path` names an entry.
    pub open spec fn holds(self, path: Seq<char>) -> bool {
        self.index_of(path) < self.entries.len()
    }

    /// The entry that `path` names.
    pub open spec fn entry(self, path: Seq<char>) -> EntryView
        recommends
            self.holds(path),
    {
        self.entries[self.index_of(path)]
    }

    /// Whether `path` names a regular file.
    pub open spec fn holds_file(self, path: Seq<char>) -> bool {
        self.holds(path) && self.entry(path).is_file()
    }

    /// The store after `text` has replaced the content of the file that
    /// `path` names: the entry holds the new text, and the journal has one
    /// more write.
    pub open spec fn written(self, path: Seq<char>, text: Seq<char>) -> StoreView
        recommends
            self.holds_file(path),
    {
        StoreView {
            entries: self.entries.update(
                self.index_of(path),
                EntryView { text, ..self.entry(path) },
            ),
            journal: self.journal.push(WriteView { path, text }),
        }
    }
}

/// `first_entry` is an index or the number of entries, points at an entry
/// under the path where it is an index, and passes over no such entry.
pub proof fn lemma_first_entry(entries: Seq<EntryView>, path: Seq<char>)
    ensures
        0 <= first_entry(entries, path) <= entries.len(),
        first_entry(entries, path) < entries.len() ==> entries[first_entry(entries, path)].path()
            == path,
        forall|j: int| 0 <= j < first_entry(entries, path) ==> entries[j].path() != path,
    decreases entries.len(),
{
    if entries.len() == 0 || entries[0].path() == path {
    } else {
        let rest = entries.drop_first();
        lemma_first_entry(rest, path);
        assert forall|j: int| 0 <= j < first_entry(entries, path) implies entries[j].path()
            != path by {
            if j > 0 {
                assert(entries[j] == rest[j - 1]);
            }
        }
        if first_entry(entries, path) < entries.len() {
            assert(entries[first_entry(entries, path)] == rest[first_entry(rest, path)]);
        }
    }
}

/// An index that points at an entry under the path, and that no entry
/// under the path comes before, is the one that `first_entry` gives.
pub proof fn lemma_first_entry_is(entries: Seq<EntryView>, path: Seq<char>, i: int)
    requires
        0 <= i <= entries.len(),
        i < entries.len() ==> entries[i].path() == path,
        forall|j: int| 0 <= j < i ==> entries[j].path() != path,
    ensures
        first_entry(entries, path) == i,
{
    lemma_first_entry(entries, path);
    let f = first_entry(entries, path);
    if f < i {
        assert(entries[f].path() != path);
    }
}

/// Two lists of entries with the same paths, place by place, name the same
/// entry under every path.
pub proof fn lemma_same_paths(a: Seq<EntryView>, b: Seq<EntryView>, path: Seq<char>)
    requires
        a.len() == b.len(),
        forall|j: int| 0 <= j < a.len() ==> a[j].path() == b[j].path(),
    ensures
        first_entry(a, path) == first_entry(b, path),
{
    lemma_first_entry(a, path);
    lemma_first_entry_is(b, path, first_entry(a, path));
}

/// A write changes neither which entry a path names nor any entry but the
/// one written to, of which it changes the text alone.
pub proof fn lemma_written(store: StoreView, path: Seq<char>, text: Seq<char>, other: Seq<char>)
    requires
        store.holds_file(path),
    ensures
        store.written(path, text).index_of(other) == store.index_of(other),
        store.written(path, text).holds(other) == store.holds(other),
        store.written(path, text).entry(path) == (EntryView { text, ..store.entry(path) }),
        store.holds(other) && other != path ==> store.written(path, text).entry(other)
            == store.entry(other),
        store.written(path, text).entries.len() == store.entries.len(),
{
    lemma_first_entry(store.entries, path);
    lemma_first_entry(store.entries, other);
    let after = store.written(path, text);
    lemma_same_paths(store.entries, after.entries, other);
    lemma_same_paths(store.entries, after.entries, path);
}

/// An entry of the store.
struct Entry {
    parent: Vec<char>,
    name: Vec<char>,
    kind: EntryKind,
    readable: bool,
    text: Vec<char>,
}

impl View for Entry {
    type V = EntryView;

    closed spec fn view(&self) -> EntryView {
        EntryView {
            parent: self.parent@,
            name: self.name@,
            kind: self.kind,
            readable: self.readable,
            text: self.text@,
        }
    }
}

/// One write.
struct Write {
    path: Vec<char>,
    text: Vec<char>,
}

impl View for Write {
    type V = WriteView;

    closed spec fn view(&self) -> WriteView {
        WriteView { path: self.path@, text: self.text@ }
    }
}

/// The image of the attribute store.
pub struct AttributeStore {
    entries: Vec<Entry>,
    journal: Vec<Write>,
}

impl View for AttributeStore {
    type V = StoreView;

    closed spec fn view(&self) -> StoreView {
        StoreView {
            entries: Seq::new(self.entries@.len(), |i: int| self.entries@[i]@),
            journal: Seq::new(self.journal@.len(), |i: int| self.journal@[i]@),
        }
    }
}

/// A copy of the given characters.
fn copy_of(v: &Vec<char>) -> (r: Vec<char>)
    ensures
        r@ == v@,
{
    let r = slice_of(v, 0, v.len());
    assert(v@.subrange(0, v.len() as int) == v@);
    r
}

/// The path of the entry `name` in the directory `parent`.
pub fn join_path(parent: &Vec<char>, name: &Vec<char>) -> (r: Vec<char>)
    ensures
        r@ == join(parent@, name@),
{
    let mut r = copy_of(parent);
    r.push('/');
    append_chars(&mut r, name);
    r
}

impl AttributeStore {
    /// A store without entries, to which nothing has been written.
    pub fn new() -> (store: AttributeStore)
        ensures
            store@.entries.len() == 0,
            store@.journal.len() == 0,
    {
        AttributeStore { entries: Vec::new(), journal: Vec::new() }
    }

    /// The number of entries.
    pub fn len(&self) -> (n: usize)
        ensures
            n == self@.entries.len(),
    {
        self.entries.len()
    }

    fn add(&mut self, parent: &str, name: &str, kind: EntryKind, readable: bool, text: &str)
        ensures
            final(self)@.entries == old(self)@.entries.push(
                EntryView { parent: parent@, name: name@, kind, readable, text: text@ },
            ),
            final(self)@.journal == old(self)@.journal,
    {
        let entry = Entry {
            parent: chars_of(parent),
            name: chars_of(name),
            kind,
            readable,
            text: chars_of(text),
        };
        self.entries.push(entry);
        assert(self@.entries == old(self)@.entries.push(
            EntryView { parent: parent@, name: name@, kind, readable, text: text@ },
        ));
        assert(self@.journal == old(self)@.journal);
    }

    /// Lists the directory `name` in the directory `parent`, after the
    /// entries that are there.
    pub fn add_directory(&mut self, parent: &str, name: &str)
        ensures
            final(self)@.entries == old(self)@.entries.push(
                EntryView {
                    parent: parent@,
                    name: name@,
                    kind: EntryKind::Directory,
                    readable: false,
                    text: seq![],
                },
            ),
            final(self)@.journal == old(self)@.journal,
    {
        let empty = String::new();
        self.add(parent, name, EntryKind::Directory, false, empty.as_str());
    }

    /// Lists the readable file `name` with the content `text` in the
    /// directory `parent`, after the entries that are there.
    pub fn add_file(&mut self, parent: &str, name: &str, text: &str)
        ensures
            final(self)@.entries == old(self)@.entries.push(
                EntryView {
                    parent: parent@,
                    name: name@,
                    kind: EntryKind::File,
                    readable: true,
                    text: text@,
                },
            ),
            final(self)@.journal == old(self)@.journal,
    {
        self.add(parent, name, EntryKind::File, true, text);
    }

    /// Lists the file `name`, whose content cannot be read, in the directory
    /// `parent`, after the entries that are there.
    pub fn add_unreadable_file(&mut self, parent: &str, name: &str)
        ensures
            final(self)@.entries == old(self)@.entries.push(
                EntryView {
                    parent: parent@,
                    name: name@,
                    kind: EntryKind::File,
                    readable: false,
                    text: seq![],
                },
            ),
            final(self)@.journal == old(self)@.journal,
    {
        let empty = String::new();
        self.add(parent, name, EntryKind::File, false, empty.as_str());
    }

    /// Lists the entry `name`, which is neither a directory nor a regular
    /// file, in the directory `parent`, after the entries that are there.
    pub fn add_other(&mut self, parent: &str, name: &str)
        ensures
            final(self)@.entries == old(self)@.entries.push(
                EntryView {
                    parent: parent@,
                    name: name@,
                    kind: EntryKind::Other,
                    readable: false,
                    text: seq![],
                },
            ),
            final(self)@.journal == old(self)@.journal,
    {
        let empty = String::new();
        self.add(parent, name, EntryKind::Other, false, empty.as_str());
    }

    /// The index of the entry that `path` names, if it names one.
    pub fn find(&self, path: &Vec<char>) -> (r: Option<usize>)
        ensures
            r is Some <==> self@.holds(path@),
            r matches Some(i) ==> i == self@.index_of(path@) && i < self@.entries.len(),
    {
        let mut i: usize = 0;
        while i < self.entries.len()
            invariant
                i <= self.entries.len(),
                forall|j: int| 0 <= j < i ==> self@.entries[j].path() != path@,
            decreases self.entries.len() - i,
        {
            let candidate = join_path(&self.entries[i].parent, &self.entries[i].name);
            assert(candidate@ == self@.entries[i as int].path());
            if same_chars(&candidate, path) {
                proof {
                    lemma_first_entry_is(self@.entries, path@, i as int);
                }
                return Some(i);
            }
            i = i + 1;
        }
        proof {
            lemma_first_entry_is(self@.entries, path@, i as int);
        }
        None
    }

    /// What the entry at index `i` is.
    pub fn kind_at(&self, i: usize) -> (kind: EntryKind)
        requires
            i < self@.entries.len(),
        ensures
            kind == self@.entries[i as int].kind,
    {
        self.entries[i].kind
    }

    /// Whether the content of the entry at index `i` can be read.
    pub fn readable_at(&self, i: usize) -> (readable: bool)
        requires
            i < self@.entries.len(),
        ensures
            readable == self@.entries[i as int].readable,
    {
        self.entries[i].readable
    }

    /// The content of the entry at index `i`.
    pub fn text_at(&self, i: usize) -> (text: Vec<char>)
        requires
            i < self@.entries.len(),
        ensures
            text@ == self@.entries[i as int].text,
    {
        copy_of(&self.entries[i].text)
    }

    /// The name of the entry at index `i`.
    pub fn name_at(&self, i: usize) -> (name: Vec<char>)
        requires
            i < self@.entries.len(),
        ensures
            name@ == self@.entries[i as int].name,
    {
        copy_of(&self.entries[i].name)
    }

    /// The path of the directory that holds the entry at index `i`.
    pub fn parent_at(&self, i: usize) -> (parent: Vec<char>)
        requires
            i < self@.entries.len(),
        ensures
            parent@ == self@.entries[i as int].parent,
    {
        copy_of(&self.entries[i].parent)
    }

    /// Replaces the content of the file that `path` names by `text`, and
    /// enters the write in the journal.
    pub fn replace(&mut self, path: &Vec<char>, text: &Vec<char>)
        requires
            old(self)@.holds_file(path@),
        ensures
            final(self)@ == old(self)@.written(path@, text@),
    {
        let i = match self.find(path) {
            Some(i) => i,
            None => {
                return ;
            },
        };
        let entry = Entry {
            parent: copy_of(&self.entries[i].parent),
            name: copy_of(&self.entries[i].name),
            kind: self.entries[i].kind,
            readable: self.entries[i].readable,
            text: copy_of(text),
        };
        self.entries.set(i, entry);
        self.journal.push(Write { path: copy_of(path), text: copy_of(text) });
        assert(self@.entries == old(self)@.written(path@, text@).entries);
        assert(self@.journal == old(self)@.written(path@, text@).journal);
    }

    /// The number of writes in the journal.
    pub fn writes(&self) -> (n: usize)
        ensures
            n == self@.journal.len(),
    {
        self.journal.len()
    }

    /// The path of the write at index `i` of the journal.
    pub fn written_path(&self, i: usize) -> (path: String)
        requires
            i < self@.journal.len(),
        ensures
            path@ == self@.journal[i as int].path,
    {
        string_of(&self.journal[i].path)
    }

    /// The text of the write at index `i` of the journal.
    pub fn written_text(&self, i: usize) -> (text: String)
        requires
            i < self@.journal.len(),
        ensures
            text@ == self@.journal[i as int].text,
    {
        string_of(&self.journal[i].text)
    }
}

} // verus!
