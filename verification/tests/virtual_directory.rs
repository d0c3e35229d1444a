use plexisort::processing_mode::{determine_processing_mode, ProcessingMode};
use plexisort::virtual_directory::VirtualDirectory;

#[test]
fn test_add_path_to_virtual_directory() {
    let mut virtual_dir = VirtualDirectory::default();
    let path_components = vec![
        "destination".to_string(),
        "Word_Documents".to_string(),
        "document.docx".to_string(),
    ];
    virtual_dir.add_path(&path_components);

    println!("{:#?}", virtual_dir);

    assert!(!virtual_dir.directory_names().is_empty(), "Directories should not be empty.");
    assert!(virtual_dir.contains_file(&path_components), "Path should exist in VirtualDirectory.");
}

#[test]
fn direct_virtual_directory_test() {
    let mut virtual_dir = VirtualDirectory::default();
    let path_components = vec![
        "destination".to_string(),
        "Word_Documents".to_string(),
        "document.docx".to_string(),
    ];
    virtual_dir.add_path(&path_components);

    assert!(
        virtual_dir.contains_file(&path_components),
        "VirtualDirectory does not contain the expected path after direct addition."
    );
}

#[test]
fn test_processing_mode_contains_file() {
    let mut virtual_dir = VirtualDirectory::default();
    let path_components = vec!["dest".to_string(), "sample.txt".to_string()];
    virtual_dir.add_path(&path_components);

    let processing_mode = ProcessingMode::DryRun(virtual_dir);

    let file_path = "sample.txt";
    let dest_path = "dest";

    assert!(processing_mode.contains_file(file_path, dest_path));
}

fn segments(items: &[&str]) -> Vec<String> {
    items.iter().map(|s| s.to_string()).collect()
}

#[test]
fn test_virtual_directory_contains_file() {
    let mut virtual_dir = VirtualDirectory::default();

    let dest_dir = "dest";
    let file_name = "sample.txt";

    let path_components = vec![dest_dir.to_string(), file_name.to_string()];
    virtual_dir.add_path(&path_components);

    assert!(virtual_dir.contains_file(&path_components));
}

#[test]
fn an_empty_tree_contains_nothing() {
    let tree = VirtualDirectory::default();
    assert!(!tree.contains_file(&segments(&["a"])));
    assert!(!tree.contains_file(&segments(&[])));
    assert_eq!(tree.print_tree(), "");
}

#[test]
fn adding_the_empty_path_changes_nothing() {
    let mut tree = VirtualDirectory::default();
    tree.add_path(&segments(&[]));
    assert_eq!(tree.print_tree(), "");
    assert!(tree.directory_names().is_empty());
}

#[test]
fn an_added_path_stays_when_others_are_added() {
    let mut tree = VirtualDirectory::default();
    let first = segments(&["out", "Documents", "a.txt"]);
    tree.add_path(&first);
    assert!(tree.contains_file(&first));
    for other in [
        segments(&["out", "Documents", "b.txt"]),
        segments(&["out", "a.txt"]),
        segments(&["Documents"]),
        segments(&["out", "Documents", "a.txt"]),
        segments(&["out", "Documents", "a.txt", "deeper"]),
        segments(&[]),
    ] {
        tree.add_path(&other);
        assert!(tree.contains_file(&first));
    }
}

#[test]
fn a_directory_is_no_file() {
    let mut tree = VirtualDirectory::default();
    tree.add_path(&segments(&["out", "Documents", "a.txt"]));
    assert!(!tree.contains_file(&segments(&["out", "Documents"])));
    assert!(!tree.contains_file(&segments(&["out"])));
    assert!(!tree.contains_file(&segments(&["out", "Documents", "a.txt", "x"])));
    assert!(!tree.contains_file(&segments(&["Documents", "a.txt"])));
}

#[test]
fn a_name_can_be_a_file_and_a_directory() {
    let mut tree = VirtualDirectory::default();
    tree.add_path(&segments(&["x"]));
    tree.add_path(&segments(&["x", "y"]));
    assert!(tree.contains_file(&segments(&["x"])));
    assert!(tree.contains_file(&segments(&["x", "y"])));
    assert_eq!(tree.print_tree(), "├── x\n│   └── y\n└── x\n");
}

#[test]
fn directory_names_come_in_order() {
    let mut tree = VirtualDirectory::default();
    tree.add_path(&segments(&["Videos", "v.mp4"]));
    tree.add_path(&segments(&["Documents", "d.txt"]));
    tree.add_path(&segments(&["Images", "i.png"]));
    tree.add_path(&segments(&["Documents", "e.txt"]));
    assert_eq!(tree.directory_names(), segments(&["Documents", "Images", "Videos"]));
}

#[test]
fn the_tree_is_printed_with_directories_first_and_in_order() {
    let mut tree = VirtualDirectory::default();
    tree.add_path(&segments(&["out", "Videos", "clip.mp4"]));
    tree.add_path(&segments(&["out", "readme.txt"]));
    tree.add_path(&segments(&["out", "Documents", "PDFs", "x.pdf"]));
    tree.add_path(&segments(&["out", "Documents", "Text_Files", "b.txt"]));
    tree.add_path(&segments(&["out", "Documents", "Text_Files", "a.txt"]));
    tree.add_path(&segments(&["out", "another.txt"]));
    let expected = "\
└── out
    ├── Documents
    │   ├── PDFs
    │   │   └── x.pdf
    │   └── Text_Files
    │       ├── b.txt
    │       └── a.txt
    ├── Videos
    │   └── clip.mp4
    ├── readme.txt
    └── another.txt
";
    assert_eq!(tree.print_tree(), expected);
}

#[test]
fn the_last_directory_gets_a_corner_only_without_files() {
    let mut tree = VirtualDirectory::default();
    tree.add_path(&segments(&["a", "x"]));
    tree.add_path(&segments(&["b", "y"]));
    assert_eq!(tree.print_tree(), "├── a\n│   └── x\n└── b\n    └── y\n");
    tree.add_path(&segments(&["f"]));
    assert_eq!(tree.print_tree(), "├── a\n│   └── x\n├── b\n│   └── y\n└── f\n");
}

#[test]
fn print_puts_the_prefix_before_every_line() {
    let mut tree = VirtualDirectory::default();
    tree.add_path(&segments(&["a", "x"]));
    tree.add_path(&segments(&["f"]));
    assert_eq!(tree.print("> "), "> ├── a\n> │   └── x\n> └── f\n");
}

#[test]
fn a_path_added_twice_is_held_once() {
    let mut tree = VirtualDirectory::default();
    tree.add_path(&segments(&["f"]));
    tree.add_path(&segments(&["d", "g"]));
    let before = tree.print_tree();
    tree.add_path(&segments(&["f"]));
    tree.add_path(&segments(&["d", "g"]));
    assert_eq!(tree.print_tree(), before);
    assert_eq!(tree.print_tree(), "├── d\n│   └── g\n└── f\n");
}

#[test]
fn a_live_run_contains_no_file() {
    let mode = ProcessingMode::Live;
    assert!(!mode.contains_file("sample.txt", "dest"));
}

#[test]
fn a_dry_run_looks_below_the_pieces_of_the_destination() {
    let mut tree = VirtualDirectory::default();
    tree.add_path(&segments(&["", "out", "sample.txt"]));
    let mode = ProcessingMode::DryRun(tree);
    assert!(mode.contains_file("/in/sample.txt", "/out"));
    assert!(!mode.contains_file("/in/other.txt", "/out"));
    assert!(!mode.contains_file("/in/sample.txt", "out"));
}

#[test]
fn the_mode_of_a_run_follows_the_switch() {
    assert!(matches!(determine_processing_mode(false), ProcessingMode::Live));
    match determine_processing_mode(true) {
        ProcessingMode::DryRun(tree) => assert_eq!(tree.print_tree(), ""),
        ProcessingMode::Live => panic!("a dry run was asked for"),
    }
}
