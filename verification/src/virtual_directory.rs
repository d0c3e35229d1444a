//! A directory tree held in memory: the layout that a run would leave
//! behind, built path by path and printed as a tree.

use vstd::prelude::*;
use vstd::string::*;
use crate::text::{
    has_text, lemma_lex_irreflexive, lemma_lex_total, lemma_lex_transitive, lemma_texts_push,
    less_than, lex_less, same_text, texts,
};

verus! {

broadcast use vstd::string::group_string_axioms;

/// What a directory tree holds: the names of its files, each once and in
/// the order in which they first came, and for each directory name the
/// tree below it.
pub struct TreeView {
    pub files: Seq<Seq<char>>,
    pub dirs: Map<Seq<char>, TreeView>,
}

impl TreeView {
    /// The tree without files or directories.
    pub open spec fn empty() -> TreeView {
        TreeView { files: Seq::empty(), dirs: Map::empty() }
    }

    /// The tree below the directory `name`; the empty tree where there is
    /// no such directory.
    pub open spec fn child(self, name: Seq<char>) -> TreeView {
        if self.dirs.contains_key(name) {
            self.dirs[name]
        } else {
            TreeView::empty()
        }
    }

    /// Whether `path` leads to a file: every segment but the last names a
    /// directory of the tree reached so far, and the last names a file of
    /// the tree reached at the end. The empty path leads nowhere.
    pub open spec fn contains(self, path: Seq<Seq<char>>) -> bool
        decreases path.len(),
    {
        if path.len() == 0 {
            false
        } else if path.len() == 1 {
            self.files.contains(path[0])
        } else {
            self.dirs.contains_key(path[0]) && self.dirs[path[0]].contains(path.drop_first())
        }
    }

    /// The tree with `path` added: the last segment joins the files of the
    /// directory that the segments before it lead to, unless it is one of
    /// them already, and directories that are missing on the way are made.
    /// The empty path changes nothing, and neither does a path that the
    /// tree contains.
    pub open spec fn insert(self, path: Seq<Seq<char>>) -> TreeView
        decreases path.len(),
    {
        if path.len() == 0 {
            self
        } else if path.len() == 1 {
            if self.files.contains(path[0]) {
                self
            } else {
                TreeView { files: self.files.push(path[0]), dirs: self.dirs }
            }
        } else {
            TreeView {
                files: self.files,
                dirs: self.dirs.insert(path[0], self.child(path[0]).insert(path.drop_first())),
            }
        }
    }
}

/// The map that takes each of `names` to the tree at its position.
pub open spec fn directory_map(names: Seq<Seq<char>>, trees: Seq<TreeView>) -> Map<
    Seq<char>,
    TreeView,
> {
    Map::new(|k: Seq<char>| names.contains(k), |k: Seq<char>| trees[names.index_of(k)])
}

/// Whether `names` ascend strictly in lexicographic order.
pub open spec fn ascending(names: Seq<Seq<char>>) -> bool {
    forall|i: int, j: int| 0 <= i < j < names.len() ==> lex_less(names[i], names[j])
}

/// Whether `names` lists `keys` in ascending order: every key once, and
/// nothing else.
pub open spec fn is_sorted_listing(names: Seq<Seq<char>>, keys: Set<Seq<char>>) -> bool {
    ascending(names) && names.to_set() == keys
}

/// The names of `keys` in ascending order.
pub open spec fn sorted_names(keys: Set<Seq<char>>) -> Seq<Seq<char>> {
    choose|names: Seq<Seq<char>>| is_sorted_listing(names, keys)
}

/// The line of one entry: the prefix, the connector (a corner for the last
/// entry of its directory, a branch for the others), the name and a line
/// break.
pub open spec fn entry_line(prefix: Seq<char>, name: Seq<char>, last: bool) -> Seq<char> {
    prefix + (if last {
        "└── "@
    } else {
        "├── "@
    }) + name + seq!['\n']
}

/// The prefix of what stands below an entry: blank below the last entry
/// of its directory, a vertical guide below the others.
pub open spec fn deeper(prefix: Seq<char>, last: bool) -> Seq<char> {
    prefix + (if last {
        "    "@
    } else {
        "│   "@
    })
}

/// The lines of the first `count` of `files`.
pub open spec fn render_files(files: Seq<Seq<char>>, prefix: Seq<char>, count: nat) -> Seq<char>
    decreases count,
{
    if count == 0 || count > files.len() {
        Seq::<char>::empty()
    } else {
        render_files(files, prefix, (count - 1) as nat) + entry_line(
            prefix,
            files[count - 1],
            count == files.len(),
        )
    }
}

impl TreeView {
    /// The tree as text, one line for each entry: the directories in the
    /// order of their names, each followed by what it holds, then the files
    /// in the order in which they first came.
    pub open spec fn render(self, prefix: Seq<char>) -> Seq<char>
        decreases self, sorted_names(self.dirs.dom()).len() + 1,
    {
        self.render_dirs(prefix, sorted_names(self.dirs.dom()).len()) + render_files(
            self.files,
            prefix,
            self.files.len(),
        )
    }

    /// The lines of the first `count` directories and of what they hold.
    pub open spec fn render_dirs(self, prefix: Seq<char>, count: nat) -> Seq<char>
        decreases self, count,
    {
        let names = sorted_names(self.dirs.dom());
        if count == 0 || count > names.len() {
            Seq::<char>::empty()
        } else {
            let name = names[count - 1];
            let last = count == names.len() && self.files.len() == 0;
            let below = if self.dirs.dom().finite() && self.dirs.contains_key(name) {
                self.dirs[name].render(deeper(prefix, last))
            } else {
                Seq::<char>::empty()
            };
            self.render_dirs(prefix, (count - 1) as nat) + entry_line(prefix, name, last) + below
        }
    }
}

/// A directory tree. Directories are kept in the order of their names.
#[derive(Debug)]
pub struct VirtualDirectory {
    files: Vec<String>,
    names: Vec<String>,
    children: Vec<VirtualDirectory>,
}

impl VirtualDirectory {
    /// The trees below this one, in the order of their names.
    pub closed spec fn child_views(&self) -> Seq<TreeView>
        decreases self, 0nat,
    {
        Seq::new(
            self.children@.len(),
            |i: int|
                if 0 <= i < self.children@.len() {
                    self.children@[i].tree()
                } else {
                    TreeView::empty()
                },
        )
    }

    /// What the tree holds.
    pub closed spec fn tree(&self) -> TreeView
        decreases self, 1nat,
    {
        TreeView {
            files: texts(self.files@),
            dirs: directory_map(texts(self.names@), self.child_views()),
        }
    }

    /// The invariant of the representation: no file name twice, one tree
    /// for each directory name, the names in strictly ascending order, and
    /// the same below.
    pub closed spec fn wf(&self) -> bool
        decreases self,
    {
        &&& texts(self.files@).no_duplicates()
        &&& self.names@.len() == self.children@.len()
        &&& ascending(texts(self.names@))
        &&& forall|i: int| 0 <= i < self.children@.len() ==> (#[trigger] self.children@[i]).wf()
    }
}

impl View for VirtualDirectory {
    type V = TreeView;

    open spec fn view(&self) -> TreeView {
        self.tree()
    }
}

/// Names in ascending order are all different.
pub proof fn lemma_ascending_distinct(names: Seq<Seq<char>>)
    requires
        ascending(names),
    ensures
        forall|i: int, j: int|
            0 <= i < names.len() && 0 <= j < names.len() && i != j ==> names[i] != names[j],
{
    assert forall|i: int, j: int|
        0 <= i < names.len() && 0 <= j < names.len() && i != j implies names[i] != names[j] by {
        lemma_lex_irreflexive(names[i]);
    }
}

/// With names in ascending order the map takes each name to the tree at
/// its position, and holds nothing else.
pub proof fn lemma_directory_map(names: Seq<Seq<char>>, trees: Seq<TreeView>)
    requires
        ascending(names),
        names.len() == trees.len(),
    ensures
        directory_map(names, trees).dom() =~= names.to_set(),
        forall|i: int|
            0 <= i < names.len() ==> directory_map(names, trees).contains_key(#[trigger] names[i])
                && directory_map(names, trees)[names[i]] == trees[i],
{
    lemma_ascending_distinct(names);
    assert forall|i: int| 0 <= i < names.len() implies directory_map(names, trees).contains_key(
        #[trigger] names[i],
    ) && directory_map(names, trees)[names[i]] == trees[i] by {
        assert(names.contains(names[i]));
        let k = names.index_of(names[i]);
        assert(0 <= k < names.len() && names[k] == names[i]);
    }
}

/// Replacing the tree at one position replaces what its name maps to.
pub proof fn lemma_directory_map_update(
    names: Seq<Seq<char>>,
    trees: Seq<TreeView>,
    i: int,
    tree: TreeView,
)
    requires
        ascending(names),
        names.len() == trees.len(),
        0 <= i < names.len(),
    ensures
        directory_map(names, trees.update(i, tree)) == directory_map(names, trees).insert(
            names[i],
            tree,
        ),
{
    lemma_directory_map(names, trees);
    lemma_directory_map(names, trees.update(i, tree));
    lemma_ascending_distinct(names);
    let a = directory_map(names, trees.update(i, tree));
    let b = directory_map(names, trees).insert(names[i], tree);
    assert forall|k: Seq<char>| a.contains_key(k) implies #[trigger] a[k] == b[k] by {
        let j = names.index_of(k);
        assert(0 <= j < names.len() && names[j] == k);
    }
    assert(a =~= b);
}

/// A new name with its tree, put where the order asks for it, adds one
/// entry to the map.
pub proof fn lemma_directory_map_insert(
    names: Seq<Seq<char>>,
    trees: Seq<TreeView>,
    i: int,
    name: Seq<char>,
    tree: TreeView,
)
    requires
        ascending(names),
        ascending(names.insert(i, name)),
        names.len() == trees.len(),
        0 <= i <= names.len(),
    ensures
        directory_map(names.insert(i, name), trees.insert(i, tree)) == directory_map(
            names,
            trees,
        ).insert(name, tree),
{
    let more = names.insert(i, name);
    lemma_directory_map(names, trees);
    lemma_directory_map(more, trees.insert(i, tree));
    lemma_ascending_distinct(more);
    let a = directory_map(more, trees.insert(i, tree));
    let b = directory_map(names, trees).insert(name, tree);
    assert(more[i] == name);
    assert forall|k: Seq<char>| a.contains_key(k) <==> b.contains_key(k) by {
        if a.contains_key(k) {
            let j = more.index_of(k);
            assert(0 <= j < more.len() && more[j] == k);
            if j < i {
                assert(names[j] == k);
            } else if j > i {
                assert(names[j - 1] == k);
            }
        }
        if b.contains_key(k) && k != name {
            let j = names.index_of(k);
            assert(0 <= j < names.len() && names[j] == k);
            if j < i {
                assert(more[j] == k);
            } else {
                assert(more[j + 1] == k);
            }
        }
    }
    assert forall|k: Seq<char>| a.contains_key(k) implies #[trigger] a[k] == b[k] by {
        let j = more.index_of(k);
        assert(0 <= j < more.len() && more[j] == k);
        if j < i {
            assert(names[j] == k);
        } else if j > i {
            assert(names[j - 1] == k);
        }
    }
    assert(a =~= b);
}

impl VirtualDirectory {
    /// The tree without files or directories.
    pub fn new() -> (tree: VirtualDirectory)
        ensures
            tree.wf(),
            tree@ == TreeView::empty(),
    {
        let tree = VirtualDirectory { files: Vec::new(), names: Vec::new(), children: Vec::new() };
        assert(tree.tree().files =~= Seq::<Seq<char>>::empty());
        assert(tree.tree().dirs =~= Map::<Seq<char>, TreeView>::empty());
        tree
    }

    /// Adds the path made of the segments `parts[from..]`.
    fn add_from(&mut self, parts: &[String], from: usize)
        requires
            old(self).wf(),
            from <= parts@.len(),
        ensures
            final(self).wf(),
            final(self)@ == old(self)@.insert(texts(parts@).skip(from as int)),
        decreases parts@.len() - from,
    {
        let ghost path = texts(parts@).skip(from as int);
        if from >= parts.len() {
            return ;
        }
        if from + 1 == parts.len() {
            assert(path[0] == parts@[from as int]@);
            if !has_text(&self.files, parts[from].as_str()) {
                proof {
                    lemma_texts_push(self.files@, parts@[from as int]);
                }
                self.files.push(parts[from].clone());
            }
            return ;
        }
        let name = &parts[from];
        assert(path[0] == name@);
        assert(path.drop_first() == texts(parts@).skip(from + 1));
        let ghost names = texts(self.names@);
        let ghost trees = self.child_views();
        let mut i: usize = 0;
        while i < self.names.len() && less_than(self.names[i].as_str(), name.as_str())
            invariant
                i <= self.names.len(),
                names == texts(self.names@),
                forall|j: int| 0 <= j < i ==> lex_less(#[trigger] names[j], name@),
            decreases self.names.len() - i,
        {
            i += 1;
        }
        proof {
            lemma_directory_map(names, trees);
        }
        if i < self.names.len() && same_text(self.names[i].as_str(), name.as_str()) {
            assert(names[i as int] == name@);
            self.children[i].add_from(parts, from + 1);
            proof {
                assert(self.child_views() =~= trees.update(i as int, self.children@[i as int].tree()));
                lemma_directory_map_update(names, trees, i as int, self.children@[i as int].tree());
            }
        } else {
            let mut child = VirtualDirectory::new();
            child.add_from(parts, from + 1);
            proof {
                let more = names.insert(i as int, name@);
                assert forall|a: int, b: int| 0 <= a < b < more.len() implies lex_less(
                    more[a],
                    more[b],
                ) by {
                    if b == i {
                        assert(more[a] == names[a]);
                    } else if a == i {
                        assert(more[b] == names[b - 1]);
                        lemma_lex_total(names[i as int], name@);
                        if b - 1 > i {
                            lemma_lex_transitive(name@, names[i as int], names[b - 1]);
                        }
                    } else {
                        assert(more[a] == names[if a < i { a } else { a - 1 }]);
                        assert(more[b] == names[if b < i { b } else { b - 1 }]);
                    }
                }
                assert forall|k: Seq<char>| names.contains(k) implies k != name@ by {
                    let j = choose|j: int| 0 <= j < names.len() && names[j] == k;
                    lemma_lex_irreflexive(name@);
                    if j >= i {
                        assert(more[j + 1] == k);
                        assert(more[i as int] == name@);
                    }
                }
                lemma_directory_map_insert(names, trees, i as int, name@, child.tree());
            }
            self.names.insert(i, name.clone());
            self.children.insert(i, child);
            proof {
                assert(texts(self.names@) =~= names.insert(i as int, name@));
                assert(self.child_views() =~= trees.insert(i as int, child.tree()));
            }
        }
    }

    /// Adds the file that `parts` leads to, making the directories on the
    /// way. With no segments nothing changes.
    pub fn add_path(&mut self, parts: &[String])
        requires
            old(self).wf(),
        ensures
            final(self).wf(),
            final(self)@ == old(self)@.insert(texts(parts@)),
    {
        assert(texts(parts@).skip(0) == texts(parts@));
        self.add_from(parts, 0);
    }
}

/// Two ascending lists of the same names are the same list.
pub proof fn lemma_sorted_listing_unique(a: Seq<Seq<char>>, b: Seq<Seq<char>>)
    requires
        ascending(a),
        ascending(b),
        forall|x: Seq<char>| a.contains(x) <==> b.contains(x),
    ensures
        a == b,
    decreases a.len(),
{
    if a.len() == 0 {
        if b.len() > 0 {
            assert(b.contains(b[0]));
        }
        assert(a =~= b);
    } else {
        assert(a.contains(a[0]));
        assert(b.contains(a[0]));
        let j = choose|j: int| 0 <= j < b.len() && b[j] == a[0];
        assert(b.contains(b[0]));
        let k = choose|k: int| 0 <= k < a.len() && a[k] == b[0];
        if j > 0 {
            if k > 0 {
                lemma_lex_transitive(b[0], b[j], a[k]);
            }
            lemma_lex_irreflexive(b[0]);
        }
        assert(a[0] == b[0]);
        let ra = a.drop_first();
        let rb = b.drop_first();
        lemma_ascending_distinct(a);
        lemma_ascending_distinct(b);
        assert forall|x: Seq<char>| ra.contains(x) <==> rb.contains(x) by {
            if ra.contains(x) {
                let i = choose|i: int| 0 <= i < ra.len() && ra[i] == x;
                assert(a[i + 1] == x);
                assert(a.contains(x));
                let m = choose|m: int| 0 <= m < b.len() && b[m] == x;
                assert(m != 0);
                assert(rb[m - 1] == x);
            }
            if rb.contains(x) {
                let i = choose|i: int| 0 <= i < rb.len() && rb[i] == x;
                assert(b[i + 1] == x);
                assert(b.contains(x));
                let m = choose|m: int| 0 <= m < a.len() && a[m] == x;
                assert(m != 0);
                assert(ra[m - 1] == x);
            }
        }
        assert forall|i: int, j: int| 0 <= i < j < ra.len() implies lex_less(ra[i], ra[j]) by {
            assert(ra[i] == a[i + 1] && ra[j] == a[j + 1]);
        }
        assert forall|i: int, j: int| 0 <= i < j < rb.len() implies lex_less(rb[i], rb[j]) by {
            assert(rb[i] == b[i + 1] && rb[j] == b[j + 1]);
        }
        lemma_sorted_listing_unique(ra, rb);
        assert(a =~= seq![a[0]] + ra);
        assert(b =~= seq![b[0]] + rb);
    }
}

/// Names in ascending order are the sorted names of their set.
pub proof fn lemma_sorted_names(names: Seq<Seq<char>>)
    requires
        ascending(names),
    ensures
        sorted_names(names.to_set()) == names,
{
    assert(is_sorted_listing(names, names.to_set()));
    let chosen = sorted_names(names.to_set());
    assert(is_sorted_listing(chosen, names.to_set()));
    assert forall|x: Seq<char>| chosen.contains(x) <==> names.contains(x) by {
        assert(chosen.to_set().contains(x) <==> names.to_set().contains(x));
    }
    lemma_sorted_listing_unique(chosen, names);
}

/// A path that was added is in the tree, and stays in it whatever is added
/// afterwards.
pub proof fn lemma_added_path_stays(tree: TreeView, path: Seq<Seq<char>>, other: Seq<Seq<char>>)
    requires
        path.len() > 0,
    ensures
        tree.insert(path).contains(path),
        tree.insert(path).insert(other).contains(path),
{
    lemma_insert_contains(tree, path);
    lemma_insert_keeps(tree.insert(path), path, other);
}

/// Adding a path that the tree contains leaves the tree as it is.
pub proof fn lemma_insert_contained(tree: TreeView, path: Seq<Seq<char>>)
    requires
        tree.contains(path),
    ensures
        tree.insert(path) == tree,
    decreases path.len(),
{
    if path.len() > 1 {
        lemma_insert_contained(tree.dirs[path[0]], path.drop_first());
        assert(tree.dirs.insert(path[0], tree.dirs[path[0]]) =~= tree.dirs);
    }
}

/// After a path is added the tree contains it.
pub proof fn lemma_insert_contains(tree: TreeView, path: Seq<Seq<char>>)
    requires
        path.len() > 0,
    ensures
        tree.insert(path).contains(path),
    decreases path.len(),
{
    if path.len() == 1 {
        if !tree.files.contains(path[0]) {
            assert(tree.files.push(path[0])[tree.files.len() as int] == path[0]);
        }
    } else {
        lemma_insert_contains(tree.child(path[0]), path.drop_first());
    }
}

/// Adding a path removes none: what the tree contains it still contains.
pub proof fn lemma_insert_keeps(tree: TreeView, path: Seq<Seq<char>>, other: Seq<Seq<char>>)
    requires
        tree.contains(path),
    ensures
        tree.insert(other).contains(path),
    decreases path.len(),
{
    if other.len() == 0 {
    } else if other.len() == 1 {
        if path.len() == 1 && !tree.files.contains(other[0]) {
            let i = choose|i: int| 0 <= i < tree.files.len() && tree.files[i] == path[0];
            assert(tree.files.push(other[0])[i] == path[0]);
        }
    } else if path.len() > 1 {
        if path[0] == other[0] {
            lemma_insert_keeps(tree.dirs[path[0]], path.drop_first(), other.drop_first());
        }
    }
}

impl VirtualDirectory {
    /// Whether the path made of the segments `path[from..]` leads to a file.
    #[verifier::loop_isolation(false)]
    fn contains_from(&self, path: &[String], from: usize) -> (found: bool)
        requires
            self.wf(),
            from <= path@.len(),
        ensures
            found == self@.contains(texts(path@).skip(from as int)),
        decreases path@.len() - from,
    {
        let ghost rest = texts(path@).skip(from as int);
        if from >= path.len() {
            return false;
        }
        let name = &path[from];
        assert(rest[0] == name@);
        if from + 1 == path.len() {
            let mut i: usize = 0;
            while i < self.files.len()
                invariant
                    i <= self.files.len(),
                    forall|j: int| 0 <= j < i ==> #[trigger] texts(self.files@)[j] != name@,
                decreases self.files.len() - i,
            {
                if same_text(self.files[i].as_str(), name.as_str()) {
                    assert(texts(self.files@)[i as int] == name@);
                    return true;
                }
                i += 1;
            }
            return false;
        }
        assert(rest.drop_first() == texts(path@).skip(from + 1));
        let ghost names = texts(self.names@);
        proof {
            lemma_directory_map(names, self.child_views());
        }
        let mut i: usize = 0;
        while i < self.names.len()
            invariant
                i <= self.names.len(),
                names == texts(self.names@),
                forall|j: int| 0 <= j < i ==> #[trigger] names[j] != name@,
            decreases self.names.len() - i,
        {
            if same_text(self.names[i].as_str(), name.as_str()) {
                assert(names[i as int] == name@);
                return self.children[i].contains_from(path, from + 1);
            }
            i += 1;
        }
        assert(!names.to_set().contains(name@));
        false
    }

    /// Whether `path` leads to a file of the tree.
    pub fn contains_file(&self, path: &[String]) -> (found: bool)
        requires
            self.wf(),
        ensures
            found == self@.contains(texts(path@)),
    {
        assert(texts(path@).skip(0) == texts(path@));
        self.contains_from(path, 0)
    }

    /// The names of the directories at the top of the tree, in ascending
    /// order.
    pub fn directory_names(&self) -> (names: Vec<String>)
        requires
            self.wf(),
        ensures
            texts(names@) == sorted_names(self@.dirs.dom()),
    {
        let mut names: Vec<String> = Vec::new();
        let mut i: usize = 0;
        while i < self.names.len()
            invariant
                i <= self.names.len(),
                texts(names@) == texts(self.names@).take(i as int),
            decreases self.names.len() - i,
        {
            proof {
                lemma_texts_push(names@, self.names@[i as int]);
                assert(texts(self.names@).take(i + 1) == texts(self.names@).take(i as int).push(
                    self.names@[i as int]@,
                ));
            }
            names.push(self.names[i].clone());
            i += 1;
        }
        proof {
            assert(texts(self.names@).take(self.names@.len() as int) == texts(self.names@));
            lemma_directory_map(texts(self.names@), self.child_views());
            lemma_sorted_names(texts(self.names@));
        }
        names
    }

    /// The tree as text, every line behind `prefix`.
    pub fn print(&self, prefix: &str) -> (text: String)
        requires
            self.wf(),
        ensures
            text@ == self@.render(prefix@),
        decreases self,
    {
        let ghost names = texts(self.names@);
        let ghost files = texts(self.files@);
        proof {
            lemma_directory_map(names, self.child_views());
            lemma_sorted_names(names);
            vstd::seq_lib::seq_to_set_is_finite(names);
        }
        let mut text = String::new();
        let mut i: usize = 0;
        while i < self.names.len()
            invariant
                i <= self.names.len(),
                self.wf(),
                names == texts(self.names@),
                files == texts(self.files@),
                sorted_names(self@.dirs.dom()) == names,
                self@.dirs.dom().finite(),
                forall|j: int|
                    0 <= j < names.len() ==> self@.dirs.contains_key(#[trigger] names[j])
                        && self@.dirs[names[j]] == self.children@[j]@,
                text@ == self@.render_dirs(prefix@, i as nat),
            decreases self.names.len() - i,
        {
            let last = i + 1 == self.names.len() && self.files.len() == 0;
            let ghost before = text@;
            text.append(prefix);
            text.append(
                if last {
                    "└── "
                } else {
                    "├── "
                },
            );
            text.append(self.names[i].as_str());
            text.push('\n');
            let mut below = String::from_str(prefix);
            below.append(
                if last {
                    "    "
                } else {
                    "│   "
                },
            );
            let inner = self.children[i].print(below.as_str());
            text.append(inner.as_str());
            proof {
                assert(names[i as int] == self.names@[i as int]@);
                assert(below@ == deeper(prefix@, last));
                assert(text@ == before + entry_line(prefix@, names[i as int], last) + inner@);
            }
            i += 1;
        }
        let ghost dirs_text = text@;
        let mut k: usize = 0;
        while k < self.files.len()
            invariant
                k <= self.files.len(),
                files == texts(self.files@),
                text@ == dirs_text + render_files(files, prefix@, k as nat),
            decreases self.files.len() - k,
        {
            let last = k + 1 == self.files.len();
            let ghost before = text@;
            text.append(prefix);
            text.append(
                if last {
                    "└── "
                } else {
                    "├── "
                },
            );
            text.append(self.files[k].as_str());
            text.push('\n');
            proof {
                assert(files[k as int] == self.files@[k as int]@);
                assert(text@ == before + entry_line(prefix@, files[k as int], last));
                assert(dirs_text + (render_files(files, prefix@, k as nat) + entry_line(
                    prefix@,
                    files[k as int],
                    last,
                )) == dirs_text + render_files(files, prefix@, k as nat) + entry_line(
                    prefix@,
                    files[k as int],
                    last,
                ));
            }
            k += 1;
        }
        text
    }

    /// The tree as text, from the left margin.
    pub fn print_tree(&self) -> (text: String)
        requires
            self.wf(),
        ensures
            text@ == self@.render(Seq::<char>::empty()),
    {
        proof {
            reveal_strlit("");
            assert(""@ == Seq::<char>::empty());
        }
        self.print("")
    }
}

impl Default for VirtualDirectory {
    /// The tree without files or directories.
    fn default() -> (tree: VirtualDirectory)
        ensures
            tree.wf(),
            tree@ == TreeView::empty(),
    {
        VirtualDirectory::new()
    }
}

} // verus!
