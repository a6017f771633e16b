//! Directories of the virtual file system.
//!
//! A directory holds its children by name. An index from the part of a name up to
//! the first dash to the first child with that part makes it fast to find the first
//! file whose name begins with a prefix.
//!
//! Directories and files live in a tree and refer to one another by number. A node that
//! leaves a directory has no parent any more.

use crate::name_map;
use crate::text;
use crate::name_map::NameMap;
use crate::text::{starts_with, text_equal, text_less};
use vstd::prelude::*;
use vstd::string::{StrSliceExecFns, StringExecFns};

verus! {

/// A file of a tree.
#[derive(Clone, Copy, Debug, PartialEq, Eq, Structural)]
pub struct FileRef(pub usize);

/// A directory of a tree.
#[derive(Clone, Copy, Debug, PartialEq, Eq, Structural)]
pub struct DirRef(pub usize);

/// A file or a directory of a tree.
#[derive(Clone, Copy, Debug, PartialEq, Eq, Structural)]
pub enum FileOrDir {
    File(FileRef),
    Dir(DirRef),
}

/// Length of the part of a name up to and with the first dash, or of the whole name
/// without one.
pub open spec fn dash_end(name: Seq<char>, from: int) -> int
    decreases name.len() - from,
{
    if from < 0 || from >= name.len() {
        name.len() as int
    } else if name[from] == '-' {
        from + 1
    } else {
        dash_end(name, from + 1)
    }
}

/// The part of a name up to and with the first dash, or the whole name without one.
pub open spec fn dash_prefix(name: Seq<char>) -> Seq<char> {
    name.take(dash_end(name, 0))
}

/// `n` is the first of the children whose names have the part `p`.
pub open spec fn is_least_with<V>(children: Map<Seq<char>, V>, p: Seq<char>, n: Seq<char>) -> bool {
    &&& children.contains_key(n)
    &&& dash_prefix(n) == p
    &&& forall|m: Seq<char>| #[trigger]
        children.contains_key(m) && dash_prefix(m) == p ==> m == n || text::text_lt(n, m)
}

/// `n` is the first file whose name begins with `prefix`.
pub open spec fn is_first_file(
    children: Map<Seq<char>, FileOrDir>,
    prefix: Seq<char>,
    n: Seq<char>,
) -> bool {
    &&& children.contains_key(n)
    &&& children[n] is File
    &&& text::has_prefix(n, prefix)
    &&& forall|m: Seq<char>| #[trigger]
        children.contains_key(m) && children[m] is File && text::has_prefix(m, prefix) ==> m == n
            || text::text_lt(n, m)
}

/// What a directory holds.
#[verifier::ext_equal]
pub struct DirectoryView {
    /// Name.
    pub name: Seq<char>,
    /// Children by name.
    pub children: Map<Seq<char>, FileOrDir>,
    /// Parent, if there is one.
    pub parent: Option<DirRef>,
}

/// A directory.
pub struct VFSDirectory {
    name: String,
    children: NameMap<FileOrDir>,
    parent: Option<DirRef>,
    prefix_index: NameMap<String>,
}

impl View for VFSDirectory {
    type V = DirectoryView;

    closed spec fn view(&self) -> DirectoryView {
        DirectoryView { name: self.name@, children: self.children@, parent: self.parent }
    }
}

/// The end of the first part is found where the first dash is.
proof fn lemma_dash_end(name: Seq<char>, from: int, i: int)
    requires
        0 <= from <= i <= name.len(),
        forall|k: int| from <= k < i ==> #[trigger] name[k] != '-',
        i == name.len() || name[i] == '-',
    ensures
        dash_end(name, from) == if i == name.len() {
            i
        } else {
            i + 1
        },
    decreases name.len() - from,
{
    if from < i {
        lemma_dash_end(name, from + 1, i);
    }
}

/// The end of the first part lies in the name, and a dash stands only before it.
proof fn lemma_dash_bounds(name: Seq<char>, from: int)
    requires
        0 <= from <= name.len(),
    ensures
        from <= dash_end(name, from) <= name.len(),
        forall|k: int| from <= k < dash_end(name, from) - 1 ==> #[trigger] name[k] != '-',
        dash_end(name, from) < name.len() ==> dash_end(name, from) > from && name[dash_end(
            name,
            from,
        ) - 1] == '-',
        dash_end(name, from) == name.len() && name.len() > from && name[name.len() - 1] != '-'
            ==> forall|k: int| from <= k < name.len() ==> #[trigger] name[k] != '-',
    decreases name.len() - from,
{
    if from < name.len() && name[from] != '-' {
        lemma_dash_bounds(name, from + 1);
    }
}

/// A name that begins with the first part of another one either has the same first
/// part, or begins with that whole other name.
proof fn lemma_shared_part(a: Seq<char>, b: Seq<char>)
    requires
        text::has_prefix(b, dash_prefix(a)),
    ensures
        dash_prefix(b) == dash_prefix(a) || dash_prefix(a) == a,
{
    lemma_dash_bounds(a, 0);
    let e = dash_end(a, 0);
    if e < a.len() {
        assert(dash_prefix(a).len() == e);
        assert forall|k: int| 0 <= k < e implies #[trigger] b[k] == a[k] by {
            assert(b.take(e)[k] == dash_prefix(a)[k]);
        }
        lemma_dash_end(b, 0, e - 1);
        assert(b.take(e) =~= dash_prefix(a));
    } else {
        assert(dash_prefix(a) =~= a);
    }
}

/// A text does not come before a text that it begins with.
proof fn lemma_prefix_comes_first(s: Seq<char>, p: Seq<char>)
    requires
        text::has_prefix(s, p),
    ensures
        s == p || text::text_lt(p, s),
{
    if s.len() == p.len() {
        assert(s.take(p.len() as int) =~= s);
    } else {
        let i = p.len() as int;
        assert forall|k: int| 0 <= k < i implies #[trigger] p[k] == s[k] by {
            assert(s.take(i)[k] == p[k]);
        }
        assert(text::splits_at(p, s, i));
    }
}

/// The part of a name up to and with the first dash.
fn first_part(name: &str) -> (r: String)
    ensures
        r@ == dash_prefix(name@),
{
    let n: usize = name.unicode_len();
    let mut i: usize = 0;
    while i < n && name.get_char(i) != '-'
        invariant
            n == name@.len(),
            i <= n,
            forall|k: int| 0 <= k < i ==> #[trigger] name@[k] != '-',
        decreases n - i,
    {
        i += 1;
    }
    proof {
        lemma_dash_end(name@, 0, i as int);
    }
    let end: usize = if i < n {
        i + 1
    } else {
        i
    };
    let part = name.substring_char(0, end);
    assert(part@ =~= dash_prefix(name@));
    String::from_str(part)
}

impl VFSDirectory {
    /// The index leads to the first child of each part, and knows the part of every
    /// child.
    pub closed spec fn wf(&self) -> bool {
        &&& self.children.wf()
        &&& self.prefix_index.wf()
        &&& forall|p: Seq<char>| #[trigger]
            self.prefix_index@.contains_key(p) ==> is_least_with(
                self.children@,
                p,
                self.prefix_index@[p]@,
            )
        &&& forall|n: Seq<char>| #[trigger]
            self.children@.contains_key(n) ==> self.prefix_index@.contains_key(dash_prefix(n))
    }

    /// An empty directory.
    fn empty(name: String, parent: Option<DirRef>) -> (d: Self)
        ensures
            d.wf(),
            d@ == empty_directory(name@, parent),
    {
        VFSDirectory { name, children: NameMap::new(), parent, prefix_index: NameMap::new() }
    }

    /// Makes a new directory in a parent and inserts it there. A child that had the name
    /// before has no parent any more. A directory accepts every child.
    pub fn create<T>(tree: &mut FileTree<T>, name: String, parent: DirRef) -> (r: Result<
        DirRef,
        &'static str,
    >)
        requires
            old(tree).wf(),
            old(tree)@.has(FileOrDir::Dir(parent)),
        ensures
            final(tree).wf(),
            r == Ok::<DirRef, &'static str>(old(tree)@.next_dir()),
            final(tree)@ == old(tree)@.with_dir(empty_directory(name@, Some(parent))).inserted(
                parent,
                FileOrDir::Dir(old(tree)@.next_dir()),
            ),
    {
        let dir = tree.add_dir(VFSDirectory::empty(name, Some(parent)));
        match tree.insert(parent, FileOrDir::Dir(dir)) {
            Ok(_) => Ok(dir),
            Err(e) => Err(e),
        }
    }

    /// Makes a new directory without a parent.
    pub fn create_root<T>(tree: &mut FileTree<T>, name: String) -> (r: DirRef)
        requires
            old(tree).wf(),
        ensures
            final(tree).wf(),
            r == old(tree)@.next_dir(),
            final(tree)@ == old(tree)@.with_dir(empty_directory(name@, None)),
    {
        tree.add_dir(VFSDirectory::empty(name, None))
    }

    /// Number of children.
    pub fn entry_count(&self) -> (n: usize)
        requires
            self.wf(),
        ensures
            n == self@.children.dom().len(),
    {
        self.children.len()
    }

    /// Whether there are no children.
    pub fn is_empty(&self) -> (b: bool)
        requires
            self.wf(),
        ensures
            b == self@.children.dom().is_empty(),
    {
        self.children.is_empty()
    }

    /// The first file whose name begins with `prefix`.
    pub fn get_file_starting_with(&self, prefix: &str) -> (r: Option<FileRef>)
        requires
            self.wf(),
        ensures
            match r {
                Some(f) => exists|n: Seq<char>| #[trigger]
                    is_first_file(self@.children, prefix@, n) && self@.children[n]
                        == FileOrDir::File(f),
                None => forall|n: Seq<char>| #[trigger]
                    self@.children.contains_key(n) && text::has_prefix(n, prefix@)
                        ==> !(self@.children[n] is File),
            },
    {
        if let Some(full_name) = self.prefix_index.get(prefix) {
            if let Some(FileOrDir::File(f)) = self.children.get(full_name.as_str()) {
                proof {
                    self.lemma_index_finds_first(prefix@, full_name@);
                }
                return Some(*f);
            }
        }
        let n: usize = self.children.len();
        proof {
            self.children.lemma_sorted();
        }
        let ghost s = self.children.sorted();
        let mut i: usize = 0;
        while i < n
            invariant
                i <= n,
                n == s.len(),
                s == self.children.sorted(),
                name_map::names_ascend(s),
                self@.children == self.children@,
                forall|k: int|
                    0 <= k < s.len() ==> self@.children.contains_key((#[trigger] s[k]).name@)
                        && self@.children[s[k].name@] == s[k].value,
                forall|k: int|
                    0 <= k < i ==> !(text::has_prefix((#[trigger] s[k]).name@, prefix@)
                        && s[k].value is File),
                self@.children == crate::name_map::named_map(s),
            decreases n - i,
        {
            if starts_with(self.children.name_at(i).as_str(), prefix) {
                if let FileOrDir::File(f) = self.children.value_at(i) {
                    proof {
                        let name = s[i as int].name@;
                        assert forall|m: Seq<char>| #[trigger]
                            self@.children.contains_key(m) && self@.children[m] is File
                                && text::has_prefix(m, prefix@) implies m == name || text::text_lt(name, m) by {
                            let k = crate::name_map::index_of(s, m);
                            assert(s[k].name@ == m);
                            if k < i {
                                assert(!(text::has_prefix(s[k].name@, prefix@) && s[k].value is File));
                            } else if k > i {
                                assert(text::text_lt(s[i as int].name@, s[k].name@));
                            }
                        }
                        assert(is_first_file(self@.children, prefix@, name));
                    }
                    return Some(*f);
                }
            }
            i += 1;
        }
        proof {
            assert forall|m: Seq<char>| #[trigger]
                self@.children.contains_key(m) && text::has_prefix(m, prefix@) implies !(
            self@.children[m] is File) by {
                let k = crate::name_map::index_of(s, m);
                assert(s[k].name@ == m);
            }
        }
        None
    }

    /// A file that the index leads to is the first one.
    proof fn lemma_index_finds_first(&self, p: Seq<char>, full: Seq<char>)
        requires
            self.wf(),
            self.prefix_index@.contains_key(p),
            full == self.prefix_index@[p]@,
            self.children@.contains_key(full),
            self.children@[full] is File,
        ensures
            is_first_file(self@.children, p, full),
    {
        let c = self.children@;
        assert(is_least_with(c, p, full));
        lemma_dash_bounds(full, 0);
        assert(text::has_prefix(full, p)) by {
            assert(p.len() == dash_end(full, 0));
        }
        assert forall|m: Seq<char>| #[trigger]
            c.contains_key(m) && c[m] is File && text::has_prefix(m, p) implies m == full || text::text_lt(
            full,
            m,
        ) by {
            lemma_shared_part(full, m);
            if dash_prefix(m) != p {
                assert(p == full);
                lemma_prefix_comes_first(m, full);
            }
        }
    }

    /// Takes note of a name that is about to become a child.
    fn index_insert(&mut self, name: &str)
        requires
            old(self).wf(),
        ensures
            final(self).children == old(self).children,
            final(self).name == old(self).name,
            final(self).parent == old(self).parent,
            final(self).prefix_index.wf(),
            ({
                let p = dash_prefix(name@);
                let o = old(self).prefix_index@;
                let n = final(self).prefix_index@;
                &&& forall|q: Seq<char>| #[trigger] n.contains_key(q) <==> o.contains_key(q) || q == p
                &&& forall|q: Seq<char>| #[trigger] o.contains_key(q) && q != p ==> n[q] == o[q]
                &&& n[p]@ == if o.contains_key(p) && !text::text_lt(name@, o[p]@) {
                    o[p]@
                } else {
                    name@
                }
            }),
    {
        let part = first_part(name);
        let should_insert: bool = match self.prefix_index.get(part.as_str()) {
            Some(existing) => text_less(name, existing.as_str()),
            None => true,
        };
        if should_insert {
            self.prefix_index.insert(part, String::from_str(name));
        }
    }

    /// The first child other than `name` that shares its part.
    fn next_with_part(&self, part: &str, name: &str) -> (r: Option<String>)
        requires
            self.children.wf(),
        ensures
            match r {
                Some(n) => is_least_with(self.children@.remove(name@), part@, n@),
                None => forall|m: Seq<char>| #[trigger]
                    self.children@.contains_key(m) && m != name@ ==> dash_prefix(m) != part@,
            },
    {
        let n: usize = self.children.len();
        proof {
            self.children.lemma_sorted();
        }
        let ghost s = self.children.sorted();
        let mut i: usize = 0;
        while i < n
            invariant
                i <= n,
                n == s.len(),
                s == self.children.sorted(),
                name_map::names_ascend(s),
                self.children@ == crate::name_map::named_map(s),
                forall|k: int|
                    0 <= k < s.len() ==> self.children@.contains_key((#[trigger] s[k]).name@),
                forall|k: int|
                    0 <= k < i ==> (#[trigger] s[k]).name@ == name@ || dash_prefix(s[k].name@)
                        != part@,
            decreases n - i,
        {
            let candidate = self.children.name_at(i);
            if !text_equal(candidate.as_str(), name) {
                let p = first_part(candidate.as_str());
                if text_equal(p.as_str(), part) {
                    proof {
                        let c = self.children@.remove(name@);
                        assert forall|m: Seq<char>| #[trigger]
                            c.contains_key(m) && dash_prefix(m) == part@ implies m == candidate@
                            || text::text_lt(candidate@, m) by {
                            assert(self.children@.contains_key(m));
                            let k = crate::name_map::index_of(s, m);
                            assert(s[k].name@ == m);
                            if k > i {
                                assert(text::text_lt(s[i as int].name@, s[k].name@));
                            }
                        }
                    }
                    return Some(candidate.clone());
                }
            }
            i += 1;
        }
        proof {
            assert forall|m: Seq<char>| #[trigger]
                self.children@.contains_key(m) && m != name@ implies dash_prefix(m) != part@ by {
                let k = crate::name_map::index_of(s, m);
                assert(s[k].name@ == m);
            }
        }
        None
    }

    /// Takes note of a name that is about to be no child any more.
    fn index_remove(&mut self, name: &str)
        requires
            old(self).wf(),
        ensures
            final(self).children == old(self).children,
            final(self).name == old(self).name,
            final(self).parent == old(self).parent,
            final(self).prefix_index.wf(),
            ({
                let c = old(self).children@.remove(name@);
                let n = final(self).prefix_index@;
                &&& forall|q: Seq<char>| #[trigger]
                    n.contains_key(q) ==> is_least_with(c, q, n[q]@)
                &&& forall|m: Seq<char>| #[trigger]
                    c.contains_key(m) ==> n.contains_key(dash_prefix(m))
            }),
    {
        let ghost c = self.children@.remove(name@);
        let ghost o = self.prefix_index@;
        let part = first_part(name);
        let ghost p = part@;
        let indexed: bool = match self.prefix_index.get(part.as_str()) {
            Some(n) => text_equal(n.as_str(), name),
            None => false,
        };
        if indexed {
            match self.next_with_part(part.as_str(), name) {
                Some(best) => {
                    self.prefix_index.insert(part, best);
                },
                None => {
                    self.prefix_index.remove(part.as_str());
                },
            }
        }
        proof {
            let n = self.prefix_index@;
            assert forall|q: Seq<char>| #[trigger] n.contains_key(q) implies is_least_with(
                c,
                q,
                n[q]@,
            ) by {
                if q != p || !indexed {
                    assert(o.contains_key(q));
                    assert(is_least_with(self.children@, q, o[q]@));
                    if o[q]@ == name@ {
                        assert(q == p);
                    }
                }
            }
            assert forall|m: Seq<char>| #[trigger] c.contains_key(m) implies n.contains_key(
                dash_prefix(m),
            ) by {
                assert(self.children@.contains_key(m));
                assert(o.contains_key(dash_prefix(m)));
            }
        }
    }

    /// Adds a child; one that had the name before is handed back.
    fn put_child(&mut self, name: String, node: FileOrDir) -> (r: Option<FileOrDir>)
        requires
            old(self).wf(),
        ensures
            final(self).wf(),
            r == if old(self)@.children.contains_key(name@) {
                Some(old(self)@.children[name@])
            } else {
                None
            },
            final(self)@ == (DirectoryView {
                children: old(self)@.children.insert(name@, node),
                ..old(self)@
            }),
    {
        let ghost n = name@;
        let ghost c = self.children@;
        let ghost o = self.prefix_index@;
        self.index_insert(name.as_str());
        let r = self.children.insert(name, node);
        proof {
            let d = self.children@;
            let i = self.prefix_index@;
            let p = dash_prefix(n);
            assert forall|q: Seq<char>| #[trigger] i.contains_key(q) implies is_least_with(
                d,
                q,
                i[q]@,
            ) by {
                if q != p {
                    assert(o.contains_key(q));
                    assert(is_least_with(c, q, o[q]@));
                } else if o.contains_key(p) {
                    assert(is_least_with(c, p, o[p]@));
                    text::text_lt_total(n, o[p]@);
                    assert forall|m: Seq<char>| #[trigger]
                        d.contains_key(m) && dash_prefix(m) == p implies m == i[q]@ || text::text_lt(
                        i[q]@,
                        m,
                    ) by {
                        if m != n {
                            assert(c.contains_key(m));
                            if text::text_lt(n, o[p]@) && m != o[p]@ {
                                text::text_lt_transitive(n, o[p]@, m);
                            }
                        }
                    }
                } else {
                    assert forall|m: Seq<char>| #[trigger]
                        d.contains_key(m) && dash_prefix(m) == p implies m == n by {
                        if m != n {
                            assert(c.contains_key(m));
                        }
                    }
                }
            }
            assert forall|m: Seq<char>| #[trigger] d.contains_key(m) implies i.contains_key(
                dash_prefix(m),
            ) by {
                if m != n {
                    assert(c.contains_key(m));
                }
            }
        }
        r
    }

    /// The child with a name.
    pub fn get(&self, name: &str) -> (r: Option<FileOrDir>)
        requires
            self.wf(),
        ensures
            match r {
                Some(v) => self@.children.contains_key(name@) && v == self@.children[name@],
                None => !self@.children.contains_key(name@),
            },
    {
        match self.children.get(name) {
            Some(v) => Some(*v),
            None => None,
        }
    }

    /// The names of all children, in order.
    pub fn list(&self) -> (r: Vec<String>)
        requires
            self.wf(),
        ensures
            r@.len() == self@.children.dom().len(),
            forall|i: int, j: int|
                0 <= i < j < r@.len() ==> text::text_lt((#[trigger] r@[i])@, (#[trigger] r@[j])@),
            forall|i: int| 0 <= i < r@.len() ==> self@.children.contains_key((#[trigger] r@[i])@),
            forall|n: Seq<char>| #[trigger]
                self@.children.contains_key(n) ==> exists|i: int|
                    0 <= i < r@.len() && (#[trigger] r@[i])@ == n,
    {
        let _n: usize = self.children.len();
        let r = self.children.names();
        proof {
            self.children.lemma_sorted();
            let s = self.children.sorted();
            assert forall|n: Seq<char>| #[trigger]
                self@.children.contains_key(n) implies exists|i: int|
                0 <= i < r@.len() && (#[trigger] r@[i])@ == n by {
                let k = crate::name_map::index_of(s, n);
                assert(s[k].name@ == n);
                assert(r@[k]@ == n);
            }
            assert forall|i: int, j: int| 0 <= i < j < r@.len() implies text::text_lt(
                (#[trigger] r@[i])@,
                (#[trigger] r@[j])@,
            ) by {
                assert(text::text_lt(s[i].name@, s[j].name@));
            }
        }
        r
    }

    /// Takes a child out.
    fn take_child(&mut self, name: &str) -> (r: Option<FileOrDir>)
        requires
            old(self).wf(),
        ensures
            final(self).wf(),
            r == if old(self)@.children.contains_key(name@) {
                Some(old(self)@.children[name@])
            } else {
                None
            },
            final(self)@ == (DirectoryView {
                children: old(self)@.children.remove(name@),
                ..old(self)@
            }),
    {
        self.index_remove(name);
        self.children.remove(name)
    }

    /// Name of the directory.
    pub fn get_name(&self) -> (r: String)
        ensures
            r@ == self@.name,
    {
        self.name.clone()
    }

    /// Parent of the directory.
    pub fn get_parent_dir(&self) -> (r: Option<DirRef>)
        ensures
            r == self@.parent,
    {
        self.parent
    }

    /// Sets the parent of the directory.
    pub fn set_parent_dir(&mut self, new_parent: Option<DirRef>)
        requires
            old(self).wf(),
        ensures
            final(self).wf(),
            final(self)@ == (DirectoryView { parent: new_parent, ..old(self)@ }),
    {
        self.parent = new_parent;
    }
}

/// A file of a tree.
pub struct FileNode<T> {
    name: String,
    parent: Option<DirRef>,
    content: T,
}

/// What a file is.
#[verifier::ext_equal]
pub struct FileView<T> {
    /// Name.
    pub name: Seq<char>,
    /// Parent, if there is one.
    pub parent: Option<DirRef>,
    /// Content.
    pub content: T,
}

impl<T> View for FileNode<T> {
    type V = FileView<T>;

    closed spec fn view(&self) -> FileView<T> {
        FileView { name: self.name@, parent: self.parent, content: self.content }
    }
}

/// All directories and files, each with its own number. A node stays where it is when
/// no directory holds it any more.
pub struct FileTree<T> {
    dirs: Vec<VFSDirectory>,
    files: Vec<FileNode<T>>,
}

/// What a tree holds.
#[verifier::ext_equal]
pub struct TreeView<T> {
    /// Directories.
    pub dirs: Seq<DirectoryView>,
    /// Files.
    pub files: Seq<FileView<T>>,
}

impl<T> TreeView<T> {
    /// The node is one of the tree.
    pub open spec fn has(self, node: FileOrDir) -> bool {
        match node {
            FileOrDir::File(f) => f.0 < self.files.len(),
            FileOrDir::Dir(d) => d.0 < self.dirs.len(),
        }
    }

    /// Name of a node.
    pub open spec fn name_of(self, node: FileOrDir) -> Seq<char> {
        match node {
            FileOrDir::File(f) => self.files[f.0 as int].name,
            FileOrDir::Dir(d) => self.dirs[d.0 as int].name,
        }
    }

    /// Parent of a node.
    pub open spec fn parent_of(self, node: FileOrDir) -> Option<DirRef> {
        match node {
            FileOrDir::File(f) => self.files[f.0 as int].parent,
            FileOrDir::Dir(d) => self.dirs[d.0 as int].parent,
        }
    }

    /// Children of a directory.
    pub open spec fn children_of(self, dir: DirRef) -> Map<Seq<char>, FileOrDir> {
        self.dirs[dir.0 as int].children
    }

    /// The child with a name, if there is one.
    pub open spec fn child(self, dir: DirRef, name: Seq<char>) -> Option<FileOrDir> {
        if self.children_of(dir).contains_key(name) {
            Some(self.children_of(dir)[name])
        } else {
            None
        }
    }

    /// The tree with other children of a directory.
    pub open spec fn with_children(
        self,
        dir: DirRef,
        children: Map<Seq<char>, FileOrDir>,
    ) -> TreeView<T> {
        TreeView {
            dirs: self.dirs.update(
                dir.0 as int,
                DirectoryView { children, ..self.dirs[dir.0 as int] },
            ),
            ..self
        }
    }

    /// The tree with another parent of a node.
    pub open spec fn with_parent(self, node: FileOrDir, parent: Option<DirRef>) -> TreeView<T> {
        match node {
            FileOrDir::File(f) => TreeView {
                files: self.files.update(
                    f.0 as int,
                    FileView { parent, ..self.files[f.0 as int] },
                ),
                ..self
            },
            FileOrDir::Dir(d) => TreeView {
                dirs: self.dirs.update(
                    d.0 as int,
                    DirectoryView { parent, ..self.dirs[d.0 as int] },
                ),
                ..self
            },
        }
    }

    /// The tree with no parent of a node, where there is one.
    pub open spec fn detached(self, node: Option<FileOrDir>) -> TreeView<T> {
        match node {
            Some(n) => self.with_parent(n, None),
            None => self,
        }
    }

    /// Number of the next directory.
    pub open spec fn next_dir(self) -> DirRef {
        DirRef(self.dirs.len() as usize)
    }

    /// The tree with one more directory.
    pub open spec fn with_dir(self, dir: DirectoryView) -> TreeView<T> {
        TreeView { dirs: self.dirs.push(dir), ..self }
    }

    /// The tree with one more file.
    pub open spec fn with_file(self, file: FileView<T>) -> TreeView<T> {
        TreeView { files: self.files.push(file), ..self }
    }

    /// The tree after a node became a child of a directory under its own name. A child
    /// that had the name before has no parent any more.
    pub open spec fn inserted(self, dir: DirRef, node: FileOrDir) -> TreeView<T> {
        let name = self.name_of(node);
        self.with_children(dir, self.children_of(dir).insert(name, node)).detached(
            self.child(dir, name),
        )
    }

    /// The tree after the child with a name was taken out of a directory. It has no
    /// parent any more.
    pub open spec fn removed(self, dir: DirRef, name: Seq<char>) -> TreeView<T> {
        self.with_children(dir, self.children_of(dir).remove(name)).detached(self.child(dir, name))
    }

    /// Parents and children are nodes of the tree, and a child stands under its own name.
    pub open spec fn wf(self) -> bool {
        &&& forall|d: int, n: Seq<char>|
            0 <= d < self.dirs.len() && #[trigger] self.dirs[d].children.contains_key(n)
                ==> self.has(self.dirs[d].children[n]) && self.name_of(self.dirs[d].children[n])
                == n
        &&& forall|d: int|
            0 <= d < self.dirs.len() ==> ((#[trigger] self.dirs[d]).parent matches Some(p)
                ==> p.0 < self.dirs.len())
        &&& forall|f: int|
            0 <= f < self.files.len() ==> ((#[trigger] self.files[f]).parent matches Some(p)
                ==> p.0 < self.dirs.len())
    }
}

/// A directory without children.
pub open spec fn empty_directory(name: Seq<char>, parent: Option<DirRef>) -> DirectoryView {
    DirectoryView { name, children: Map::<Seq<char>, FileOrDir>::empty(), parent }
}

impl<T> View for FileTree<T> {
    type V = TreeView<T>;

    closed spec fn view(&self) -> TreeView<T> {
        TreeView {
            dirs: self.dirs@.map_values(|d: VFSDirectory| d@),
            files: self.files@.map_values(|f: FileNode<T>| f@),
        }
    }
}

impl<T> FileTree<T> {
    /// Every directory is sound, and so is the tree.
    pub closed spec fn wf(&self) -> bool {
        &&& forall|d: int| 0 <= d < self.dirs@.len() ==> (#[trigger] self.dirs@[d]).wf()
        &&& self@.wf()
    }

    /// A tree without nodes.
    pub fn new() -> (t: Self)
        ensures
            t.wf(),
            t@ == (TreeView::<T> { dirs: Seq::empty(), files: Seq::empty() }),
    {
        let t = FileTree { dirs: Vec::new(), files: Vec::new() };
        assert(t@.dirs =~= Seq::empty());
        assert(t@.files =~= Seq::empty());
        t
    }

    /// Adds a directory that no other one holds yet.
    fn add_dir(&mut self, dir: VFSDirectory) -> (r: DirRef)
        requires
            old(self).wf(),
            dir.wf(),
            dir@.children.dom().is_empty(),
            dir@.parent matches Some(p) ==> old(self)@.has(FileOrDir::Dir(p)),
        ensures
            final(self).wf(),
            r == old(self)@.next_dir(),
            final(self)@ == old(self)@.with_dir(dir@),
    {
        let n: usize = self.dirs.len();
        let ghost before = self@;
        self.dirs.push(dir);
        proof {
            assert(self@ =~= before.with_dir(dir@));
            lemma_with_dir(before, dir@);
        }
        DirRef(n)
    }

    /// Adds a file that no directory holds yet.
    pub fn add_file(&mut self, name: String, content: T, parent: Option<DirRef>) -> (r: FileRef)
        requires
            old(self).wf(),
            parent matches Some(p) ==> old(self)@.has(FileOrDir::Dir(p)),
        ensures
            final(self).wf(),
            r.0 == old(self)@.files.len(),
            final(self)@ == old(self)@.with_file(FileView { name: name@, parent, content }),
    {
        let n: usize = self.files.len();
        let ghost before = self@;
        let ghost file = FileView { name: name@, parent, content };
        self.files.push(FileNode { name, parent, content });
        proof {
            assert(self@ =~= before.with_file(file));
            lemma_with_file(before, file);
        }
        FileRef(n)
    }

    /// A directory of the tree.
    pub fn directory(&self, dir: DirRef) -> (r: &VFSDirectory)
        requires
            self.wf(),
            self@.has(FileOrDir::Dir(dir)),
        ensures
            r.wf(),
            r@ == self@.dirs[dir.0 as int],
    {
        &self.dirs[dir.0]
    }

    /// The content of a file.
    pub fn content(&self, file: FileRef) -> (r: &T)
        requires
            self@.has(FileOrDir::File(file)),
        ensures
            *r == self@.files[file.0 as int].content,
    {
        &self.files[file.0].content
    }

    /// Name of a node.
    pub fn get_name(&self, node: FileOrDir) -> (r: String)
        requires
            self@.has(node),
        ensures
            r@ == self@.name_of(node),
    {
        match node {
            FileOrDir::File(f) => self.files[f.0].name.clone(),
            FileOrDir::Dir(d) => self.dirs[d.0].get_name(),
        }
    }

    /// Parent of a node.
    pub fn get_parent_dir(&self, node: FileOrDir) -> (r: Option<DirRef>)
        requires
            self@.has(node),
        ensures
            r == self@.parent_of(node),
    {
        match node {
            FileOrDir::File(f) => self.files[f.0].parent,
            FileOrDir::Dir(d) => self.dirs[d.0].get_parent_dir(),
        }
    }

    /// Sets the parent of a node.
    pub fn set_parent_dir(&mut self, node: FileOrDir, new_parent: Option<DirRef>)
        requires
            old(self).wf(),
            old(self)@.has(node),
            new_parent matches Some(p) ==> old(self)@.has(FileOrDir::Dir(p)),
        ensures
            final(self).wf(),
            final(self)@ == old(self)@.with_parent(node, new_parent),
    {
        let ghost before = self@;
        match node {
            FileOrDir::File(f) => {
                self.files[f.0].parent = new_parent;
            },
            FileOrDir::Dir(d) => {
                self.dirs[d.0].set_parent_dir(new_parent);
            },
        }
        proof {
            assert(self@ =~= before.with_parent(node, new_parent));
            lemma_with_parent(before, node, new_parent);
        }
    }

    /// Makes a node a child of a directory under its own name; a child that had the name
    /// before is handed back, and has no parent any more. A directory accepts every child.
    pub fn insert(&mut self, dir: DirRef, node: FileOrDir) -> (r: Result<
        Option<FileOrDir>,
        &'static str,
    >)
        requires
            old(self).wf(),
            old(self)@.has(FileOrDir::Dir(dir)),
            old(self)@.has(node),
        ensures
            final(self).wf(),
            r == Ok::<Option<FileOrDir>, &'static str>(
                old(self)@.child(dir, old(self)@.name_of(node)),
            ),
            final(self)@ == old(self)@.inserted(dir, node),
    {
        let ghost before = self@;
        let name = self.get_name(node);
        let ghost n = name@;
        let previous = self.dirs[dir.0].put_child(name, node);
        proof {
            assert(self@ =~= before.with_children(dir, before.children_of(dir).insert(n, node)));
            lemma_with_children(before, dir, before.children_of(dir).insert(n, node));
        }
        if let Some(child) = previous {
            self.set_parent_dir(child, None);
        }
        Ok(previous)
    }

    /// Takes the child with the name of a node out of a directory. It has no parent any
    /// more.
    pub fn remove(&mut self, dir: DirRef, node: FileOrDir) -> (r: Option<FileOrDir>)
        requires
            old(self).wf(),
            old(self)@.has(FileOrDir::Dir(dir)),
            old(self)@.has(node),
        ensures
            final(self).wf(),
            r == old(self)@.child(dir, old(self)@.name_of(node)),
            final(self)@ == old(self)@.removed(dir, old(self)@.name_of(node)),
    {
        let ghost before = self@;
        let name = self.get_name(node);
        let previous = self.dirs[dir.0].take_child(name.as_str());
        proof {
            assert(self@ =~= before.with_children(dir, before.children_of(dir).remove(name@)));
            lemma_with_children(before, dir, before.children_of(dir).remove(name@));
        }
        if let Some(child) = previous {
            self.set_parent_dir(child, None);
        }
        previous
    }
}

/// A sound tree stays sound with one more empty directory.
proof fn lemma_with_dir<T>(t: TreeView<T>, dir: DirectoryView)
    requires
        t.wf(),
        dir.children.dom().is_empty(),
        dir.parent matches Some(p) ==> t.has(FileOrDir::Dir(p)),
    ensures
        t.with_dir(dir).wf(),
{
    let u = t.with_dir(dir);
    assert forall|d: int, n: Seq<char>|
        0 <= d < u.dirs.len() && #[trigger] u.dirs[d].children.contains_key(n) implies u.has(
        u.dirs[d].children[n],
    ) && u.name_of(u.dirs[d].children[n]) == n by {
        if d < t.dirs.len() {
            assert(t.dirs[d].children.contains_key(n));
        } else {
            assert(dir.children.dom().contains(n));
        }
    }
}

/// A sound tree stays sound with one more file.
proof fn lemma_with_file<T>(t: TreeView<T>, file: FileView<T>)
    requires
        t.wf(),
        file.parent matches Some(p) ==> t.has(FileOrDir::Dir(p)),
    ensures
        t.with_file(file).wf(),
{
    let u = t.with_file(file);
    assert forall|d: int, n: Seq<char>|
        0 <= d < u.dirs.len() && #[trigger] u.dirs[d].children.contains_key(n) implies u.has(
        u.dirs[d].children[n],
    ) && u.name_of(u.dirs[d].children[n]) == n by {
        assert(t.dirs[d].children.contains_key(n));
    }
}

/// A sound tree stays sound with another parent of a node.
proof fn lemma_with_parent<T>(t: TreeView<T>, node: FileOrDir, parent: Option<DirRef>)
    requires
        t.wf(),
        t.has(node),
        parent matches Some(p) ==> t.has(FileOrDir::Dir(p)),
    ensures
        t.with_parent(node, parent).wf(),
{
    let u = t.with_parent(node, parent);
    assert forall|d: int, n: Seq<char>|
        0 <= d < u.dirs.len() && #[trigger] u.dirs[d].children.contains_key(n) implies u.has(
        u.dirs[d].children[n],
    ) && u.name_of(u.dirs[d].children[n]) == n by {
        assert(t.dirs[d].children.contains_key(n));
    }
}

/// A sound tree stays sound with children of a directory that stand under their names.
proof fn lemma_with_children<T>(t: TreeView<T>, dir: DirRef, children: Map<Seq<char>, FileOrDir>)
    requires
        t.wf(),
        t.has(FileOrDir::Dir(dir)),
        forall|n: Seq<char>| #[trigger]
            children.contains_key(n) ==> t.has(children[n]) && t.name_of(children[n]) == n,
    ensures
        t.with_children(dir, children).wf(),
{
    let u = t.with_children(dir, children);
    assert forall|d: int, n: Seq<char>|
        0 <= d < u.dirs.len() && #[trigger] u.dirs[d].children.contains_key(n) implies u.has(
        u.dirs[d].children[n],
    ) && u.name_of(u.dirs[d].children[n]) == n by {
        if d != dir.0 {
            assert(t.dirs[d].children.contains_key(n));
        } else {
            assert(children.contains_key(n));
        }
    }
}

/// A directory that is made in a parent is found there under its name, and has that
/// parent.
pub proof fn created_directory_is_in_its_parent<T>(t: TreeView<T>, name: Seq<char>, parent: DirRef)
    requires
        t.wf(),
        t.has(FileOrDir::Dir(parent)),
        t.dirs.len() <= usize::MAX,
    ensures
        ({
            let d = t.next_dir();
            let after = t.with_dir(empty_directory(name, Some(parent))).inserted(
                parent,
                FileOrDir::Dir(d),
            );
            &&& after.child(parent, name) == Some(FileOrDir::Dir(d))
            &&& after.parent_of(FileOrDir::Dir(d)) == Some(parent)
            &&& after.children_of(d).dom().is_empty()
        }),
{
    let d = t.next_dir();
    let with = t.with_dir(empty_directory(name, Some(parent)));
    assert(with.name_of(FileOrDir::Dir(d)) == name);
    if with.children_of(parent).contains_key(name) {
        assert(t.dirs[parent.0 as int].children.contains_key(name));
    }
}

/// A child that is taken out is no child any more, and has no parent.
pub proof fn removed_child_is_detached<T>(t: TreeView<T>, dir: DirRef, name: Seq<char>)
    requires
        t.wf(),
        t.has(FileOrDir::Dir(dir)),
        t.children_of(dir).contains_key(name),
    ensures
        t.removed(dir, name).child(dir, name) is None,
        t.removed(dir, name).parent_of(t.children_of(dir)[name]) is None,
{
    assert(t.dirs[dir.0 as int].children.contains_key(name));
}

/// Inserting a node and taking it out again leaves the children as they were, where no
/// child had its name.
pub proof fn insert_then_remove_gives_the_children_back<T>(
    t: TreeView<T>,
    dir: DirRef,
    node: FileOrDir,
)
    requires
        t.wf(),
        t.has(FileOrDir::Dir(dir)),
        t.has(node),
        !t.children_of(dir).contains_key(t.name_of(node)),
    ensures
        t.inserted(dir, node).removed(dir, t.name_of(node)).children_of(dir) == t.children_of(dir),
{
    let n = t.name_of(node);
    assert(t.children_of(dir).insert(n, node).remove(n) =~= t.children_of(dir));
}

/// There is at most one first file with a prefix.
pub proof fn first_file_is_unique(
    children: Map<Seq<char>, FileOrDir>,
    prefix: Seq<char>,
    a: Seq<char>,
    b: Seq<char>,
)
    requires
        is_first_file(children, prefix, a),
        is_first_file(children, prefix, b),
    ensures
        a == b,
{
    if a != b {
        assert(text::text_lt(a, b));
        assert(text::text_lt(b, a));
        text::text_lt_transitive(a, b, a);
        text::text_lt_irreflexive(a);
    }
}

/// An insertion touches one name of one directory: the node stands there, and the one that it
/// takes the place of loses its parent. Nothing else in the tree changes.
pub proof fn insert_touches_one_name<T>(
    t: TreeView<T>,
    dir: DirRef,
    node: FileOrDir,
    other: DirRef,
    name: Seq<char>,
    bystander: FileOrDir,
)
    requires
        t.wf(),
        t.has(FileOrDir::Dir(dir)),
        t.has(FileOrDir::Dir(other)),
        t.has(node),
        t.has(bystander),
    ensures
        ({
            let a = t.inserted(dir, node);
            &&& a.child(dir, t.name_of(node)) == Some(node)
            &&& other != dir || name != t.name_of(node) ==> a.child(other, name) == t.child(
                other,
                name,
            )
            &&& t.child(dir, t.name_of(node)) == Some(bystander) ==> a.parent_of(bystander) is None
            &&& t.child(dir, t.name_of(node)) != Some(bystander) ==> a.parent_of(bystander)
                == t.parent_of(bystander)
            &&& a.name_of(bystander) == t.name_of(bystander)
            &&& a.dirs.len() == t.dirs.len() && a.files.len() == t.files.len()
        }),
{
    let n = t.name_of(node);
    if t.children_of(dir).contains_key(n) {
        assert(t.dirs[dir.0 as int].children.contains_key(n));
    }
}

/// A removal takes one name out of one directory; every other name stays.
pub proof fn remove_touches_one_name<T>(
    t: TreeView<T>,
    dir: DirRef,
    gone: Seq<char>,
    other: DirRef,
    name: Seq<char>,
    bystander: FileOrDir,
)
    requires
        t.wf(),
        t.has(FileOrDir::Dir(dir)),
        t.has(FileOrDir::Dir(other)),
        t.has(bystander),
    ensures
        ({
            let a = t.removed(dir, gone);
            &&& a.child(dir, gone) is None
            &&& other != dir || name != gone ==> a.child(other, name) == t.child(other, name)
            &&& t.child(dir, gone) != Some(bystander) ==> a.parent_of(bystander) == t.parent_of(
                bystander,
            )
            &&& a.name_of(bystander) == t.name_of(bystander)
            &&& a.dirs.len() == t.dirs.len() && a.files.len() == t.files.len()
        }),
{
    if t.children_of(dir).contains_key(gone) {
        assert(t.dirs[dir.0 as int].children.contains_key(gone));
    }
}

/// A change of parent touches one node.
pub proof fn one_node_changes_its_parent<T>(
    t: TreeView<T>,
    node: FileOrDir,
    parent: Option<DirRef>,
    other: FileOrDir,
)
    requires
        t.has(node),
        t.has(other),
    ensures
        ({
            let a = t.with_parent(node, parent);
            &&& a.parent_of(node) == parent
            &&& other != node ==> a.parent_of(other) == t.parent_of(other)
            &&& a.name_of(other) == t.name_of(other)
            &&& other matches FileOrDir::Dir(d) ==> a.children_of(d) == t.children_of(d)
            &&& other matches FileOrDir::File(f) ==> a.files[f.0 as int].content
                == t.files[f.0 as int].content
        }),
{
}

/// A new node is the last of its sort and leaves all that were there.
pub proof fn new_nodes_come_last<T>(
    t: TreeView<T>,
    name: Seq<char>,
    parent: Option<DirRef>,
    content: T,
    other: FileOrDir,
)
    requires
        t.has(other),
        t.dirs.len() < usize::MAX,
    ensures
        ({
            let a = t.with_dir(empty_directory(name, parent));
            let b = t.with_file(FileView { name, parent, content });
            &&& a.dirs.len() == t.dirs.len() + 1 && a.files == t.files
            &&& t.next_dir().0 == t.dirs.len()
            &&& a.name_of(FileOrDir::Dir(t.next_dir())) == name
            &&& a.parent_of(FileOrDir::Dir(t.next_dir())) == parent
            &&& a.children_of(t.next_dir()).dom() == Set::<Seq<char>>::empty()
            &&& b.files.len() == t.files.len() + 1 && b.dirs == t.dirs
            &&& a.name_of(other) == t.name_of(other) && b.name_of(other) == t.name_of(other)
            &&& a.parent_of(other) == t.parent_of(other) && b.parent_of(other) == t.parent_of(other)
        }),
{
}

/// The file that is found by a prefix starts with it, and no other such file of the directory
/// comes before it.
pub proof fn found_file_starts_with_the_prefix(
    children: Map<Seq<char>, FileOrDir>,
    prefix: Seq<char>,
    n: Seq<char>,
    m: Seq<char>,
)
    requires
        is_first_file(children, prefix, n),
    ensures
        children.contains_key(n) && children[n] is File,
        n.len() >= prefix.len(),
        n.subrange(0, prefix.len() as int) == prefix,
        children.contains_key(m) && children[m] is File && m.len() >= prefix.len() && m.subrange(
            0,
            prefix.len() as int,
        ) == prefix && m != n ==> text::text_lt(n, m),
{
    assert(n.subrange(0, prefix.len() as int) =~= n.take(prefix.len() as int));
    if m.len() >= prefix.len() {
        assert(m.subrange(0, prefix.len() as int) =~= m.take(prefix.len() as int));
    }
}

} // verus!
