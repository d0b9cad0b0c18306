//! Mapping between asset ids and paths of the virtual filesystem.

use vstd::prelude::*;
use vstd::string::StrSliceExecFns;
use vstd::string::StringExecFns;

verus! {

/// An entry of a directory, as ids see it: a file with its extension, or a
/// directory.
pub enum DirEntry<'a> {
    File(&'a str, &'a str),
    Directory(&'a str),
}

impl<'a> DirEntry<'a> {
    /// The id of the entry.
    pub open spec fn spec_id(&self) -> Seq<char> {
        match *self {
            DirEntry::File(id, _) => id@,
            DirEntry::Directory(id) => id@,
        }
    }

    /// The id of the entry.
    pub fn id(&self) -> (r: &'a str)
        ensures
            r@ == self.spec_id(),
    {
        match *self {
            DirEntry::File(id, _) => id,
            DirEntry::Directory(id) => id,
        }
    }
}

/// `id` with each `.` turned into a `/`.
pub open spec fn dots_to_slashes(id: Seq<char>) -> Seq<char> {
    id.map_values(|c: char| if c == '.' { '/' } else { c })
}

/// The path of the virtual filesystem at which `entry` is found: the segments
/// of the id, each after a `/`, then `.ext` for a file or a final `/` for a
/// directory. The empty id is the root, `/`.
pub open spec fn entry_path(entry: DirEntry) -> Seq<char> {
    let id = entry.spec_id();
    if id.len() == 0 {
        seq!['/']
    } else {
        seq!['/'] + dots_to_slashes(id) + match entry {
            DirEntry::File(_, ext) => seq!['.'] + ext@,
            DirEntry::Directory(_) => seq!['/'],
        }
    }
}

/// Turns an id and the kind of entry into a path of the virtual filesystem.
pub fn id_to_path(entry: DirEntry) -> (r: String)
    ensures
        r@ == entry_path(entry),
{
    let id = entry.id();
    let n = id.unicode_len();
    proof {
        reveal_strlit("/");
        reveal_strlit(".");
    }
    if n == 0 {
        return String::from_str("/");
    }
    let mut path = String::from_str("/");
    let mut i: usize = 0;
    while i < n
        invariant
            n == id@.len(),
            i <= n,
            path@ == seq!['/'] + dots_to_slashes(id@.take(i as int)),
        decreases n - i,
    {
        let c = id.get_char(i);
        if c == '.' {
            proof {
                reveal_strlit("/");
            }
            path.append("/");
        } else {
            let one = id.substring_char(i, i + 1);
            assert(one@ =~= seq![c]);
            path.append(one);
        }
        assert(path@ =~= seq!['/'] + dots_to_slashes(id@.take(i as int)).push(
            if c == '.' { '/' } else { c },
        ));
        assert(id@.take(i + 1) == id@.take(i as int).push(c));
        assert(dots_to_slashes(id@.take(i + 1)) == dots_to_slashes(id@.take(i as int)).push(
            if c == '.' { '/' } else { c },
        ));
        i = i + 1;
    }
    assert(id@.take(n as int) == id@);
    proof {
        reveal_strlit("/");
        reveal_strlit(".");
    }
    match entry {
        DirEntry::File(_, ext) => {
            path.append(".");
            path.append(ext);
        },
        DirEntry::Directory(_) => {
            path.append("/");
        },
    }
    path
}

/// `i` is the position of the first `.` of `s`.
pub open spec fn is_first_dot(s: Seq<char>, i: int) -> bool {
    &&& 0 <= i < s.len()
    &&& s[i] == '.'
    &&& forall|j: int| 0 <= j < i ==> s[j] != '.'
}

/// The position of the first `.` of `s`, if it has one.
pub open spec fn first_dot(s: Seq<char>) -> Option<int> {
    if exists|i: int| is_first_dot(s, i) {
        Some(choose|i: int| is_first_dot(s, i))
    } else {
        None
    }
}

/// A file name cut at its first `.` into a stem and an extension (empty
/// when there is no `.`). A name that starts with `.` (a hidden file) has no
/// stem and is skipped.
pub open spec fn split_name(s: Seq<char>) -> Option<(Seq<char>, Seq<char>)> {
    match first_dot(s) {
        None => Some((s, Seq::empty())),
        Some(i) => if i == 0 {
            None
        } else {
            Some((s.take(i), s.skip(i + 1)))
        },
    }
}

proof fn lemma_first_dot_unique(s: Seq<char>, i: int)
    requires
        is_first_dot(s, i),
    ensures
        first_dot(s) == Some(i),
{
    let k = choose|k: int| is_first_dot(s, k);
    assert(is_first_dot(s, k));
    if k < i {
        assert(s[k] != '.');
    } else if i < k {
        assert(s[i] != '.');
    }
}

/// Splits a file name (the last component of a path) into its stem and its
/// extension.
pub fn split_file_name<'a>(name: &'a str) -> (r: Option<(&'a str, &'a str)>)
    ensures
        match r {
            None => split_name(name@) is None,
            Some((stem, ext)) => split_name(name@) == Some((stem@, ext@)),
        },
{
    let n = name.unicode_len();
    let mut i: usize = 0;
    while i < n
        invariant
            n == name@.len(),
            i <= n,
            forall|j: int| 0 <= j < i ==> name@[j] != '.',
        decreases n - i,
    {
        if name.get_char(i) == '.' {
            proof {
                lemma_first_dot_unique(name@, i as int);
            }
            if i == 0 {
                return None;
            }
            return Some((name.substring_char(0, i), name.substring_char(i + 1, n)));
        }
        i = i + 1;
    }
    assert(!exists|k: int| is_first_dot(name@, k));
    proof {
        reveal_strlit("");
    }
    Some((name, ""))
}

/// The id of the entry named `name` in the directory `dir`: `dir.name`, or
/// `name` alone in the root directory.
pub open spec fn child_id_of(dir: Seq<char>, name: Seq<char>) -> Seq<char> {
    if dir.len() == 0 {
        name
    } else {
        dir + seq!['.'] + name
    }
}

/// Builds the id of the entry named `name` in the directory `dir`.
pub fn child_id(dir: &str, name: &str) -> (r: String)
    ensures
        r@ == child_id_of(dir@, name@),
{
    if dir.unicode_len() == 0 {
        String::from_str(name)
    } else {
        proof {
            reveal_strlit(".");
        }
        let mut id = String::from_str(dir);
        id.append(".");
        id.append(name);
        id
    }
}

/// An entry found by listing a directory, with the id it has for the cache.
pub struct ListedEntry {
    /// The id of the entry.
    pub id: String,
    /// The extension of a file; empty for a directory.
    pub ext: String,
    /// Whether the entry is a directory.
    pub is_dir: bool,
}

impl ListedEntry {
    /// The entry as a [`DirEntry`].
    pub fn as_entry(&self) -> (r: DirEntry<'_>)
        ensures
            self.is_dir ==> (r matches DirEntry::Directory(id) && id@ == self.id@),
            !self.is_dir ==> (r matches DirEntry::File(id, ext) && id@ == self.id@ && ext@
                == self.ext@),
    {
        if self.is_dir {
            DirEntry::Directory(self.id.as_str())
        } else {
            DirEntry::File(self.id.as_str(), self.ext.as_str())
        }
    }

    /// The id, extension and kind of the entry.
    pub open spec fn spec_parts(&self) -> (Seq<char>, Seq<char>, bool) {
        (self.id@, self.ext@, self.is_dir)
    }
}

/// The entries of the directory `dir` whose files are `files` (each a file
/// name and whether it is a directory): each name is split at its first
/// `.` into a stem, which makes the id, and an extension; hidden names are
/// skipped.
pub open spec fn listed_entries(dir: Seq<char>, files: Seq<(Seq<char>, bool)>) -> Seq<
    (Seq<char>, Seq<char>, bool),
>
    decreases files.len(),
{
    if files.len() == 0 {
        Seq::empty()
    } else {
        let last = files.last();
        let rest = listed_entries(dir, files.drop_last());
        match split_name(last.0) {
            Some((stem, ext)) => rest.push((child_id_of(dir, stem), ext, last.1)),
            None => rest,
        }
    }
}

/// Lists the entries of the directory `dir` from the names of its files and
/// whether each is a directory.
pub fn list_dir(dir: &str, files: &Vec<(String, bool)>) -> (r: Vec<ListedEntry>)
    ensures
        r@.map_values(|e: ListedEntry| e.spec_parts()) == listed_entries(
            dir@,
            files@.map_values(|f: (String, bool)| (f.0@, f.1)),
        ),
{
    let mut out: Vec<ListedEntry> = Vec::new();
    let mut i: usize = 0;
    while i < files.len()
        invariant
            i <= files@.len(),
            out@.map_values(|e: ListedEntry| e.spec_parts()) == listed_entries(
                dir@,
                files@.take(i as int).map_values(|f: (String, bool)| (f.0@, f.1)),
            ),
        decreases files@.len() - i,
    {
        let file = &files[i];
        let name = &file.0;
        let is_dir = &file.1;
        let ghost fs = files@.take(i as int + 1).map_values(|f: (String, bool)| (f.0@, f.1));
        assert(fs.drop_last() =~= files@.take(i as int).map_values(
            |f: (String, bool)| (f.0@, f.1),
        ));
        assert(fs.last() == (name@, *is_dir));
        match split_file_name(name.as_str()) {
            Some((stem, ext)) => {
                let e = ListedEntry { id: child_id(dir, stem), ext: String::from_str(ext), is_dir: *is_dir };
                let ghost before = out@;
                out.push(e);
                assert(out@.map_values(|e: ListedEntry| e.spec_parts()) == before.map_values(
                    |e: ListedEntry| e.spec_parts(),
                ).push(e.spec_parts()));
            },
            None => {},
        }
        i = i + 1;
    }
    assert(files@.take(files@.len() as int) == files@);
    out
}

} // verus!
