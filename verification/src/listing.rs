//! What a directory holds, printed as a tree.

use vstd::prelude::*;
use vstd::string::*;
use crate::virtual_directory::{deeper, entry_line};

verus! {

/// An entry of a directory: a file, or a directory with its own entries.
#[derive(Debug)]
pub struct Listing {
    pub name: String,
    /// The entries of a directory, in the order in which they are printed;
    /// nothing for a file.
    pub children: Option<Vec<Listing>>,
}

/// An entry over texts.
pub struct ListingView {
    pub name: Seq<char>,
    pub children: Option<Seq<ListingView>>,
}

/// The line of a file that is printed on its own.
pub open spec fn lone_line(prefix: Seq<char>, name: Seq<char>) -> Seq<char> {
    prefix + "── "@ + name + seq!['\n']
}

/// The lines of the first `count` of `entries`: for each its line, and
/// below a directory the lines of its own entries.
pub open spec fn entries_text(entries: Seq<ListingView>, prefix: Seq<char>, count: nat) -> Seq<char>
    decreases entries, count,
{
    if count == 0 || count > entries.len() {
        Seq::<char>::empty()
    } else {
        let entry = entries[count - 1];
        let last = count == entries.len();
        let below = match entry.children {
            Some(inner) => entries_text(inner, deeper(prefix, last), inner.len()),
            None => Seq::<char>::empty(),
        };
        entries_text(entries, prefix, (count - 1) as nat) + entry_line(prefix, entry.name, last)
            + below
    }
}

/// An entry as text: a directory by the lines of its entries, a file by a
/// line of its own.
pub open spec fn structure_text(entry: ListingView, prefix: Seq<char>) -> Seq<char> {
    match entry.children {
        Some(inner) => entries_text(inner, prefix, inner.len()),
        None => lone_line(prefix, entry.name),
    }
}

impl Listing {
    /// The entries of a directory over texts.
    pub closed spec fn children_view(&self) -> Option<Seq<ListingView>>
        decreases self, 0nat,
    {
        match self.children {
            Some(inner) => Some(
                Seq::new(
                    inner@.len(),
                    |i: int|
                        if 0 <= i < inner@.len() {
                            inner@[i].listing()
                        } else {
                            ListingView { name: Seq::empty(), children: None }
                        },
                ),
            ),
            None => None,
        }
    }

    /// The entry over texts.
    pub closed spec fn listing(&self) -> ListingView
        decreases self, 1nat,
    {
        ListingView { name: self.name@, children: self.children_view() }
    }
}

impl View for Listing {
    type V = ListingView;

    open spec fn view(&self) -> ListingView {
        self.listing()
    }
}

/// The lines of `entries` behind `prefix`.
fn print_entries(entries: &Vec<Listing>, prefix: &str) -> (text: String)
    ensures
        text@ == entries_text(
            Seq::new(entries@.len(), |i: int| entries@[i].listing()),
            prefix@,
            entries@.len(),
        ),
    decreases entries,
{
    let ghost list = Seq::new(entries@.len(), |i: int| entries@[i].listing());
    let mut text = String::new();
    let mut i: usize = 0;
    while i < entries.len()
        invariant
            i <= entries.len(),
            list == Seq::new(entries@.len(), |i: int| entries@[i].listing()),
            text@ == entries_text(list, prefix@, i as nat),
        decreases entries.len() - i,
    {
        let entry = &entries[i];
        let last = i + 1 == entries.len();
        let ghost before = text@;
        text.append(prefix);
        text.append(
            if last {
                "└── "
            } else {
                "├── "
            },
        );
        text.append(entry.name.as_str());
        text.push('\n');
        let ghost line = entry_line(prefix@, entry.name@, last);
        assert(text@ == before + line);
        assert(list[i as int] == entry.listing());
        match &entry.children {
            Some(inner) => {
                let mut below = String::from_str(prefix);
                below.append(
                    if last {
                        "    "
                    } else {
                        "│   "
                    },
                );
                let lines = print_entries(inner, below.as_str());
                text.append(lines.as_str());
                proof {
                    let views = Seq::new(inner@.len(), |i: int| inner@[i].listing());
                    assert(entry.listing().children == Some(views)) by {
                        assert(entry.children_view()->0 =~= views);
                    }
                    assert(text@ == before + line + lines@);
                }
            },
            None => {
                assert(entry.listing().children is None);
                assert(before + line + Seq::<char>::empty() == before + line);
            },
        }
        i += 1;
    }
    text
}

/// What `entry` holds, as text behind `prefix`: for a directory one line
/// for each entry, with what a directory among them holds below it; for
/// a file a line of its own.
pub fn print_current_structure(entry: &Listing, prefix: &str) -> (text: String)
    ensures
        text@ == structure_text(entry@, prefix@),
{
    match &entry.children {
        Some(inner) => {
            proof {
                let views = Seq::new(inner@.len(), |i: int| inner@[i].listing());
                assert(entry.children_view()->0 =~= views);
            }
            print_entries(inner, prefix)
        },
        None => {
            let mut text = String::from_str(prefix);
            text.append("── ");
            text.append(entry.name.as_str());
            text.push('\n');
            text
        },
    }
}

} // verus!
