//! Paths as `/`-separated text: components, file name, extension, joining
//! and the chain of enclosing directories.

use vstd::prelude::*;
use vstd::string::*;
use crate::text::{
    join, last_index_of, lemma_split_nonempty, lemma_split_pieces, lemma_texts_push, lowercase,
    same_text, split, split_text, texts, to_chars, to_lowercase, to_text,
};

verus! {

broadcast use vstd::string::group_string_axioms;

/// The text of the root directory.
pub open spec fn root() -> Seq<char> {
    seq!['/']
}

/// The text that names the current directory.
pub open spec fn cur_dir() -> Seq<char> {
    seq!['.']
}

/// The text that names the enclosing directory.
pub open spec fn parent_dir() -> Seq<char> {
    seq!['.', '.']
}

/// Whether `path` starts at the root.
pub open spec fn is_absolute(path: Seq<char>) -> bool {
    path.len() > 0 && path[0] == '/'
}

/// The pieces that name something: those that are neither empty nor `.`.
pub open spec fn named(pieces: Seq<Seq<char>>) -> Seq<Seq<char>>
    decreases pieces.len(),
{
    if pieces.len() == 0 {
        Seq::<Seq<char>>::empty()
    } else {
        let before = named(pieces.drop_last());
        let piece = pieces.last();
        if piece.len() == 0 || piece == cur_dir() {
            before
        } else {
            before.push(piece)
        }
    }
}

/// The components of `path`. An absolute path starts with the component
/// `/`; repeated and trailing separators are ignored; `.` is dropped
/// except at the start of a relative path; `..` is kept.
pub open spec fn components(path: Seq<char>) -> Seq<Seq<char>> {
    let pieces = split(path, '/');
    if is_absolute(path) {
        seq![root()] + named(pieces)
    } else if pieces[0] == cur_dir() {
        seq![cur_dir()] + named(pieces)
    } else {
        named(pieces)
    }
}

/// The number of components of `path`.
pub open spec fn depth(path: Seq<char>) -> nat {
    components(path).len()
}

/// The last component of `path`, unless that is `/`, `.` or `..`.
pub open spec fn file_name(path: Seq<char>) -> Option<Seq<char>> {
    let parts = components(path);
    if parts.len() == 0 {
        None
    } else if parts.last() == root() || parts.last() == cur_dir() || parts.last() == parent_dir() {
        None
    } else {
        Some(parts.last())
    }
}

/// What follows the last `.` of a file name, where the name has one that
/// is not its first character.
pub open spec fn name_extension(name: Seq<char>) -> Option<Seq<char>> {
    let dot = last_index_of(name, '.');
    if dot <= 0 {
        None
    } else {
        Some(name.skip(dot + 1))
    }
}

/// The extension of the file name of `path`.
pub open spec fn extension(path: Seq<char>) -> Option<Seq<char>> {
    match file_name(path) {
        Some(name) => name_extension(name),
        None => None,
    }
}

/// The extension of `path` in lower case; empty where it has none.
pub open spec fn lower_extension(path: Seq<char>) -> Seq<char> {
    match extension(path) {
        Some(ext) => lowercase(ext),
        None => Seq::<char>::empty(),
    }
}

/// `part` appended to `base`. An absolute `part` replaces `base`; a
/// separator is added unless `base` is empty or ends with one.
pub open spec fn join_path(base: Seq<char>, part: Seq<char>) -> Seq<char> {
    if is_absolute(part) || base.len() == 0 {
        part
    } else if base.last() == '/' {
        base + part
    } else {
        base.push('/') + part
    }
}

/// The path with the given components.
pub open spec fn from_components(parts: Seq<Seq<char>>) -> Seq<char> {
    if parts.len() > 0 && parts[0] == root() {
        root() + join(parts.skip(1), '/')
    } else {
        join(parts, '/')
    }
}

/// How many directories enclose `path`: one for each component but the
/// last, and the empty path for a relative one.
pub open spec fn ancestor_count(path: Seq<char>) -> nat {
    let n = components(path).len();
    if is_absolute(path) {
        (n - 1) as nat
    } else {
        n
    }
}

/// The directories that enclose `path`, the nearest first: the path without
/// its last component, then that path without its last, down to `/` for an
/// absolute path and to the empty path for a relative one.
pub open spec fn ancestors(path: Seq<char>) -> Seq<Seq<char>> {
    let parts = components(path);
    Seq::new(
        ancestor_count(path),
        |i: int| from_components(parts.take(parts.len() - 1 - i)),
    )
}

/// The directory that holds `path`, where it has one.
pub open spec fn parent(path: Seq<char>) -> Option<Seq<char>> {
    if ancestor_count(path) == 0 {
        None
    } else {
        Some(ancestors(path)[0])
    }
}

/// No named piece is empty or `.`.
pub proof fn lemma_named_pieces(pieces: Seq<Seq<char>>)
    ensures
        named(pieces).len() <= pieces.len(),
        forall|i: int|
            0 <= i < named(pieces).len() ==> (#[trigger] named(pieces)[i]).len() > 0 && named(
                pieces,
            )[i] != cur_dir(),
    decreases pieces.len(),
{
    if pieces.len() > 0 {
        lemma_named_pieces(pieces.drop_last());
    }
}

/// An absolute path has the root as its first component.
pub proof fn lemma_components_of_absolute(path: Seq<char>)
    ensures
        is_absolute(path) ==> components(path).len() >= 1 && components(path)[0] == root(),
        !is_absolute(path) ==> forall|i: int|
            0 <= i < components(path).len() ==> #[trigger] components(path)[i] != root(),
{
    lemma_split_nonempty(path, '/');
    lemma_split_pieces(path, '/');
    let pieces = split(path, '/');
    lemma_named_subset(pieces);
    if !is_absolute(path) {
        assert forall|i: int| 0 <= i < components(path).len() implies #[trigger] components(
            path,
        )[i] != root() by {
            let c = components(path)[i];
            if c == root() {
                assert(c[0] == '/');
                if pieces[0] == cur_dir() {
                    if i > 0 {
                        assert(c == named(pieces)[i - 1]);
                        assert(pieces.contains(c));
                    }
                } else {
                    assert(c == named(pieces)[i]);
                    assert(pieces.contains(c));
                }
            }
        }
    }
}

/// Every named piece is one of the pieces.
pub proof fn lemma_named_subset(pieces: Seq<Seq<char>>)
    ensures
        forall|i: int| 0 <= i < named(pieces).len() ==> pieces.contains(#[trigger] named(pieces)[i]),
    decreases pieces.len(),
{
    if pieces.len() > 0 {
        lemma_named_subset(pieces.drop_last());
        assert forall|i: int| 0 <= i < named(pieces).len() implies pieces.contains(
            #[trigger] named(pieces)[i],
        ) by {
            let x = named(pieces)[i];
            if i < named(pieces.drop_last()).len() {
                let k = choose|k: int|
                    0 <= k < pieces.drop_last().len() && pieces.drop_last()[k] == x;
                assert(pieces[k] == x);
            } else {
                assert(pieces[pieces.len() - 1] == x);
            }
        }
    }
}

/// Whether `name` can name a file: it is not empty, holds no separator
/// and is neither `.` nor `..`.
pub open spec fn is_plain_name(name: Seq<char>) -> bool {
    &&& name.len() > 0
    &&& forall|i: int| 0 <= i < name.len() ==> name[i] != '/'
    &&& name != cur_dir()
    &&& name != parent_dir()
}

/// Behind a separator, a text without separators is a piece of its own.
pub proof fn lemma_split_append(start: Seq<char>, name: Seq<char>, sep: char)
    requires
        start.len() > 0,
        start.last() == sep,
        forall|i: int| 0 <= i < name.len() ==> name[i] != sep,
    ensures
        split(start + name, sep) == split(start.drop_last(), sep).push(name),
    decreases name.len(),
{
    if name.len() == 0 {
        assert(start + name == start);
        assert(name == Seq::<char>::empty());
    } else {
        let shorter = name.drop_last();
        lemma_split_append(start, shorter, sep);
        assert((start + name).drop_last() == start + shorter);
        assert((start + name).last() == name.last());
        let before = split(start + shorter, sep);
        assert(before.drop_last() == split(start.drop_last(), sep));
        assert(shorter.push(name.last()) == name);
    }
}

/// A text without separators is its only piece.
pub proof fn lemma_split_plain(name: Seq<char>, sep: char)
    requires
        forall|i: int| 0 <= i < name.len() ==> name[i] != sep,
    ensures
        split(name, sep) == seq![name],
    decreases name.len(),
{
    if name.len() == 0 {
        assert(name == Seq::<char>::empty());
    } else {
        let shorter = name.drop_last();
        lemma_split_plain(shorter, sep);
        assert(shorter.push(name.last()) == name);
        assert(seq![shorter].last() == shorter);
        assert(seq![shorter].drop_last().push(name) =~= seq![name]);
    }
}

/// The file name of a path can name a file.
pub proof fn lemma_file_name_is_plain(path: Seq<char>)
    requires
        file_name(path) is Some,
    ensures
        is_plain_name(file_name(path)->0),
{
    let pieces = split(path, '/');
    let parts = components(path);
    let name = parts.last();
    lemma_split_nonempty(path, '/');
    lemma_split_pieces(path, '/');
    lemma_named_subset(pieces);
    lemma_named_pieces(pieces);
    assert(name != root() && name != cur_dir() && name != parent_dir());
    let kept = named(pieces);
    if is_absolute(path) || pieces[0] == cur_dir() {
        assert(parts.len() == kept.len() + 1);
        if kept.len() == 0 {
            assert(parts.last() == parts[0]);
        } else {
            assert(name == kept[kept.len() - 1]);
        }
    }
    assert(kept.len() > 0 && name == kept[kept.len() - 1]);
    assert(pieces.contains(name));
    let k = choose|k: int| 0 <= k < pieces.len() && pieces[k] == name;
    assert forall|i: int| 0 <= i < name.len() implies name[i] != '/' by {
        assert(split(path, '/')[k][i] != '/');
    }
}

/// A file that is put into a folder under a name has that name: the last
/// component of the joined path is the name.
pub proof fn lemma_joined_name(folder: Seq<char>, name: Seq<char>)
    requires
        is_plain_name(name),
    ensures
        components(join_path(folder, name)).len() > 0,
        components(join_path(folder, name)).last() == name,
        file_name(join_path(folder, name)) == Some(name),
{
    let joined = join_path(folder, name);
    assert(name[0] != '/');
    assert(name != root()) by {
        assert(root()[0] == '/');
    }
    if folder.len() == 0 {
        lemma_split_plain(name, '/');
        assert(named(seq![name]) == seq![name]) by {
            assert(seq![name].drop_last() == Seq::<Seq<char>>::empty());
            assert(named(Seq::<Seq<char>>::empty()) == Seq::<Seq<char>>::empty());
            assert(Seq::<Seq<char>>::empty().push(name) == seq![name]);
        }
        assert(seq![name][0] == name);
    } else {
        let start = if folder.last() == '/' {
            folder
        } else {
            folder.push('/')
        };
        assert(joined == start + name);
        lemma_split_append(start, name, '/');
        let before = split(start.drop_last(), '/');
        let pieces = before.push(name);
        assert(pieces.drop_last() == before);
        assert(named(pieces) == named(before).push(name));
        let parts = components(joined);
        assert(parts.last() == name) by {
            let kept = named(pieces);
            assert(kept[kept.len() - 1] == name);
            if is_absolute(joined) {
                assert(parts[parts.len() - 1] == kept[kept.len() - 1]);
            } else if pieces[0] == cur_dir() {
                assert(parts[parts.len() - 1] == kept[kept.len() - 1]);
            }
        }
    }
}

/// Joining one more piece appends it, after a separator unless it is the
/// first.
pub proof fn lemma_join_push(pieces: Seq<Seq<char>>, piece: Seq<char>, sep: char)
    ensures
        join(pieces.push(piece), sep) == if pieces.len() == 0 {
            piece
        } else {
            join(pieces, sep).push(sep) + piece
        },
{
    assert(pieces.push(piece).drop_last() == pieces);
}

/// The path of one more component: the component itself where it is the
/// first, appended directly behind the root, and behind a separator
/// otherwise.
pub proof fn lemma_from_components_push(parts: Seq<Seq<char>>, part: Seq<char>)
    ensures
        from_components(parts.push(part)) == if parts.len() == 0 {
            part
        } else if parts.len() == 1 && parts[0] == root() {
            root() + part
        } else {
            from_components(parts).push('/') + part
        },
{
    let more = parts.push(part);
    if parts.len() == 0 {
        assert(more.skip(1) == Seq::<Seq<char>>::empty());
        assert(join(more.skip(1), '/') == Seq::<char>::empty());
        assert(root() + Seq::<char>::empty() == root());
    } else if parts[0] == root() {
        assert(more.skip(1) == parts.skip(1).push(part));
        lemma_join_push(parts.skip(1), part, '/');
        if parts.len() > 1 {
            assert(root() + (join(parts.skip(1), '/').push('/') + part) == (root() + join(
                parts.skip(1),
                '/',
            )).push('/') + part);
        }
    } else {
        lemma_join_push(parts, part, '/');
    }
}

/// Whether `path` starts at the root.
pub fn is_absolute_path(path: &str) -> (r: bool)
    ensures
        r == is_absolute(path@),
{
    !path.is_empty() && path.get_char(0) == '/'
}

/// The components of `path`.
pub fn split_components(path: &str) -> (parts: Vec<String>)
    ensures
        texts(parts@) == components(path@),
{
    let pieces = split_text(path, '/');
    proof {
        lemma_split_nonempty(path@, '/');
        reveal_strlit("/");
        reveal_strlit(".");
    }
    let mut parts: Vec<String> = Vec::new();
    if is_absolute_path(path) {
        parts.push(String::from_str("/"));
    } else if same_text(pieces[0].as_str(), ".") {
        assert(texts(pieces@)[0] == pieces@[0]@);
        parts.push(String::from_str("."));
    } else {
        assert(texts(pieces@)[0] == pieces@[0]@);
    }
    let ghost head = texts(parts@);
    let mut i: usize = 0;
    assert(texts(pieces@).take(0) == Seq::<Seq<char>>::empty());
    assert(head + named(texts(pieces@).take(0)) == head);
    assert("."@ == cur_dir());
    assert("/"@ == root());
    assert(head + named(texts(pieces@)) == components(path@));
    while i < pieces.len()
        invariant
            i <= pieces.len(),
            "."@ == cur_dir(),
            head + named(texts(pieces@)) == components(path@),
            texts(parts@) == head + named(texts(pieces@).take(i as int)),
        decreases pieces.len() - i,
    {
        let piece = &pieces[i];
        proof {
            let now = texts(pieces@).take(i + 1);
            assert(now.drop_last() == texts(pieces@).take(i as int));
            assert(now.last() == piece@);
        }
        if !piece.as_str().is_empty() && !same_text(piece.as_str(), ".") {
            proof {
                lemma_texts_push(parts@, *piece);
                let before = named(texts(pieces@).take(i as int));
                assert(head + before.push(piece@) == (head + before).push(piece@));
            }
            parts.push(piece.clone());
        }
        i += 1;
    }
    assert(texts(pieces@).take(pieces.len() as int) == texts(pieces@));
    parts
}

/// The number of components of `path`.
pub fn depth_of(path: &str) -> (n: usize)
    ensures
        n == depth(path@),
{
    split_components(path).len()
}

/// The last component of `path`, unless that is `/`, `.` or `..`.
pub fn file_name_of(path: &str) -> (name: Option<String>)
    ensures
        match name {
            Some(n) => file_name(path@) == Some(n@),
            None => file_name(path@) is None,
        },
{
    let mut parts = split_components(path);
    proof {
        reveal_strlit("/");
        reveal_strlit(".");
        reveal_strlit("..");
    }
    assert("/"@ == root() && "."@ == cur_dir() && ".."@ == parent_dir());
    let ghost all = parts@;
    match parts.pop() {
        None => None,
        Some(last) => {
            assert(texts(all).last() == last@);
            if same_text(last.as_str(), "/") || same_text(last.as_str(), ".") || same_text(
                last.as_str(),
                "..",
            ) {
                None
            } else {
                Some(last)
            }
        },
    }
}

/// What follows the last `.` of `name`, where it has one that is not its
/// first character.
pub fn name_extension_of(name: &str) -> (ext: Option<String>)
    ensures
        match ext {
            Some(e) => name_extension(name@) == Some(e@),
            None => name_extension(name@) is None,
        },
{
    let chars = to_chars(name);
    let mut found: bool = false;
    let mut dot: usize = 0;
    let mut i: usize = 0;
    assert(chars@.take(0) == Seq::<char>::empty());
    while i < chars.len()
        invariant
            i <= chars.len(),
            found ==> dot < i && last_index_of(chars@.take(i as int), '.') == dot,
            !found ==> last_index_of(chars@.take(i as int), '.') == -1,
        decreases chars.len() - i,
    {
        assert(chars@.take(i + 1).drop_last() == chars@.take(i as int));
        if chars[i] == '.' {
            found = true;
            dot = i;
        }
        i += 1;
    }
    assert(chars@.take(chars.len() as int) == chars@);
    if found && dot > 0 {
        assert(chars@.subrange(dot + 1, chars.len() as int) == chars@.skip(dot + 1));
        Some(to_text(&chars, dot + 1, chars.len()))
    } else {
        None
    }
}

/// The extension of `path` in lower case; empty where it has none.
pub fn lower_extension_of(path: &str) -> (ext: String)
    ensures
        ext@ == lower_extension(path@),
{
    match file_name_of(path) {
        None => String::new(),
        Some(name) => match name_extension_of(name.as_str()) {
            None => String::new(),
            Some(ext) => to_lowercase(ext.as_str()),
        },
    }
}

/// `part` appended to `base`, as [`join_path`] gives it.
pub fn join_paths(base: &str, part: &str) -> (joined: String)
    ensures
        joined@ == join_path(base@, part@),
{
    if is_absolute_path(part) || base.is_empty() {
        return String::from_str(part);
    }
    let chars = to_chars(base);
    let mut joined = String::from_str(base);
    if chars[chars.len() - 1] != '/' {
        joined.push('/');
    }
    joined.append(part);
    joined
}

/// The path with the first `count` of the components `parts`.
pub fn assemble(parts: &Vec<String>, count: usize) -> (path: String)
    requires
        count <= parts.len(),
    ensures
        path@ == from_components(texts(parts@).take(count as int)),
{
    let mut path = String::new();
    let mut i: usize = 0;
    proof {
        reveal_strlit("/");
        assert(texts(parts@).take(0) == Seq::<Seq<char>>::empty());
    }
    while i < count
        invariant
            i <= count <= parts.len(),
            "/"@ == root(),
            path@ == from_components(texts(parts@).take(i as int)),
        decreases count - i,
    {
        let ghost before = texts(parts@).take(i as int);
        proof {
            assert(texts(parts@).take(i + 1) == before.push(parts@[i as int]@));
            lemma_from_components_push(before, parts@[i as int]@);
            if i == 1 {
                assert(before[0] == parts@[0]@);
            }
        }
        if i == 0 {
            path = parts[0].clone();
        } else if i == 1 && same_text(parts[0].as_str(), "/") {
            path.append(parts[i].as_str());
        } else {
            path.push('/');
            path.append(parts[i].as_str());
        }
        i += 1;
    }
    path
}

/// The directories that enclose `path`, the nearest first.
pub fn ancestors_of(path: &str) -> (dirs: Vec<String>)
    ensures
        texts(dirs@) == ancestors(path@),
{
    let parts = split_components(path);
    let lowest: usize = if is_absolute_path(path) {
        1
    } else {
        0
    };
    proof {
        lemma_components_of_absolute(path@);
    }
    let mut dirs: Vec<String> = Vec::new();
    let mut count: usize = parts.len();
    while count > lowest
        invariant
            lowest <= count <= parts.len() || (count == 0 && parts.len() == 0),
            texts(parts@) == components(path@),
            lowest == if is_absolute(path@) { 1int } else { 0int },
            dirs.len() == parts.len() - count,
            forall|i: int|
                0 <= i < dirs.len() ==> (#[trigger] dirs@[i])@ == from_components(
                    texts(parts@).take(parts.len() - 1 - i),
                ),
        decreases count,
    {
        count -= 1;
        let dir = assemble(&parts, count);
        dirs.push(dir);
    }
    assert(texts(dirs@) =~= ancestors(path@));
    dirs
}

/// The directory that holds `path`, where it has one.
pub fn parent_of(path: &str) -> (dir: Option<String>)
    ensures
        match dir {
            Some(found) => parent(path@) == Some(found@),
            None => parent(path@) is None,
        },
{
    let dirs = ancestors_of(path);
    assert(texts(dirs@).len() == ancestors(path@).len());
    if dirs.len() == 0 {
        None
    } else {
        assert(texts(dirs@)[0] == dirs@[0]@);
        Some(dirs[0].clone())
    }
}

} // verus!
