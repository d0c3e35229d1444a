use plexisort::listing::{print_current_structure, Listing};

fn file(name: &str) -> Listing {
    Listing { name: name.to_string(), children: None }
}

fn dir(name: &str, children: Vec<Listing>) -> Listing {
    Listing { name: name.to_string(), children: Some(children) }
}

#[test]
fn a_file_is_printed_on_a_line_of_its_own() {
    assert_eq!(print_current_structure(&file("notes.txt"), ""), "── notes.txt\n");
    assert_eq!(print_current_structure(&file("notes.txt"), "  "), "  ── notes.txt\n");
}

#[test]
fn an_empty_directory_prints_nothing() {
    assert_eq!(print_current_structure(&dir("source", vec![]), ""), "");
}

#[test]
fn a_directory_is_printed_entry_by_entry() {
    let source = dir(
        "source",
        vec![
            file("a.zip"),
            dir("more", vec![file("b.txt"), dir("deep", vec![file("c.png")]), dir("empty", vec![])]),
            file("z.pdf"),
        ],
    );
    let expected = "\
├── a.zip
├── more
│   ├── b.txt
│   ├── deep
│   │   └── c.png
│   └── empty
└── z.pdf
";
    assert_eq!(print_current_structure(&source, ""), expected);
}

#[test]
fn what_stands_below_the_last_entry_has_no_guide() {
    let source = dir("source", vec![dir("only", vec![file("x"), file("y")])]);
    assert_eq!(print_current_structure(&source, "> "), "> └── only\n>     ├── x\n>     └── y\n");
}
