use plexisort::paths::{
    ancestors_of, depth_of, file_name_of, is_absolute_path, join_paths, lower_extension_of,
    name_extension_of, parent_of, split_components,
};
use plexisort::text::{
    first_word_of, is_blank_text, less_than, same_text, split_text, to_lowercase, trim_text,
};

fn strings(items: &[&str]) -> Vec<String> {
    items.iter().map(|s| s.to_string()).collect()
}

#[test]
fn components_of_an_absolute_path_start_with_the_root() {
    assert_eq!(split_components("/out/Documents/PDFs/x.pdf"), strings(&["/", "out", "Documents", "PDFs", "x.pdf"]));
}

#[test]
fn components_ignore_repeated_and_trailing_separators() {
    assert_eq!(split_components("a//b/"), strings(&["a", "b"]));
    assert_eq!(split_components("//a"), strings(&["/", "a"]));
    assert_eq!(split_components("/"), strings(&["/"]));
}

#[test]
fn components_drop_the_current_directory_except_at_the_start() {
    assert_eq!(split_components("a/./b"), strings(&["a", "b"]));
    assert_eq!(split_components("./a"), strings(&[".", "a"]));
    assert_eq!(split_components("."), strings(&["."]));
    assert_eq!(split_components("/./a"), strings(&["/", "a"]));
    assert_eq!(split_components("a/../b"), strings(&["a", "..", "b"]));
}

#[test]
fn the_empty_path_has_no_components() {
    assert_eq!(split_components(""), Vec::<String>::new());
    assert_eq!(depth_of(""), 0);
}

#[test]
fn depth_counts_components() {
    assert_eq!(depth_of("/out/Documents/PDFs"), 4);
    assert_eq!(depth_of("out/Documents"), 2);
    assert_eq!(depth_of("/"), 1);
}

#[test]
fn file_name_is_the_last_component() {
    assert_eq!(file_name_of("/in/report.docx"), Some("report.docx".to_string()));
    assert_eq!(file_name_of("a/b/"), Some("b".to_string()));
    assert_eq!(file_name_of("sample.txt"), Some("sample.txt".to_string()));
}

#[test]
fn some_paths_have_no_file_name() {
    assert_eq!(file_name_of(""), None);
    assert_eq!(file_name_of("/"), None);
    assert_eq!(file_name_of("."), None);
    assert_eq!(file_name_of("a/.."), None);
}

#[test]
fn extension_follows_the_last_dot() {
    assert_eq!(name_extension_of("archive.tar.gz"), Some("gz".to_string()));
    assert_eq!(name_extension_of("a."), Some("".to_string()));
    assert_eq!(name_extension_of("noext"), None);
    assert_eq!(name_extension_of(".bashrc"), None);
    assert_eq!(name_extension_of(".a.b"), Some("b".to_string()));
}

#[test]
fn extension_is_given_in_lower_case() {
    assert_eq!(lower_extension_of("/in/REPORT.DocX"), "docx");
    assert_eq!(lower_extension_of("/in/photo.PNG"), "png");
    assert_eq!(lower_extension_of("/in/noext"), "");
    assert_eq!(lower_extension_of("/in.d/noext"), "");
}

#[test]
fn join_adds_one_separator() {
    assert_eq!(join_paths("/out", "Videos"), "/out/Videos");
    assert_eq!(join_paths("/out/", "Videos"), "/out/Videos");
    assert_eq!(join_paths("", "Videos"), "Videos");
    assert_eq!(join_paths("out", ""), "out/");
}

#[test]
fn join_with_an_absolute_path_replaces_the_base() {
    assert_eq!(join_paths("/out", "/etc/passwd"), "/etc/passwd");
}

#[test]
fn absolute_paths_start_with_a_separator() {
    assert!(is_absolute_path("/a"));
    assert!(!is_absolute_path("a/b"));
    assert!(!is_absolute_path(""));
}

#[test]
fn ancestors_of_an_absolute_path_end_at_the_root() {
    assert_eq!(
        ancestors_of("/out/Images/2023/a.png"),
        strings(&["/out/Images/2023", "/out/Images", "/out", "/"])
    );
}

#[test]
fn ancestors_of_a_relative_path_end_at_the_empty_path() {
    assert_eq!(ancestors_of("out/x/f.txt"), strings(&["out/x", "out", ""]));
}

#[test]
fn ancestors_are_cleared_of_repeated_separators() {
    assert_eq!(ancestors_of("/a//b/./c/"), strings(&["/a/b", "/a", "/"]));
}

#[test]
fn the_root_and_the_empty_path_have_no_ancestors() {
    assert_eq!(ancestors_of("/"), Vec::<String>::new());
    assert_eq!(ancestors_of(""), Vec::<String>::new());
    assert_eq!(parent_of("/"), None);
    assert_eq!(parent_of(""), None);
}

#[test]
fn parent_is_the_nearest_ancestor() {
    assert_eq!(parent_of("/in/report.docx"), Some("/in".to_string()));
    assert_eq!(parent_of("/in"), Some("/".to_string()));
    assert_eq!(parent_of("report.docx"), Some("".to_string()));
}

#[test]
fn split_keeps_empty_pieces() {
    assert_eq!(split_text("a,b,,c", ','), strings(&["a", "b", "", "c"]));
    assert_eq!(split_text("", ','), strings(&[""]));
    assert_eq!(split_text(",", ','), strings(&["", ""]));
    assert_eq!(split_text("/out", '/'), strings(&["", "out"]));
}

#[test]
fn trim_removes_white_space_at_both_ends() {
    assert_eq!(trim_text("  a b \t\r\n"), "a b");
    assert_eq!(trim_text("\u{a0}x\u{3000}"), "x");
    assert_eq!(trim_text("   "), "");
    assert_eq!(trim_text(""), "");
}

#[test]
fn blank_texts_hold_white_space_only() {
    assert!(is_blank_text(""));
    assert!(is_blank_text(" \t\r"));
    assert!(!is_blank_text(" x "));
}

#[test]
fn first_word_ends_at_white_space() {
    assert_eq!(first_word_of("2023:11:05 10:00:00"), "2023:11:05");
    assert_eq!(first_word_of("  one\ttwo"), "one");
    assert_eq!(first_word_of("   "), "");
}

#[test]
fn texts_are_ordered_by_code_point() {
    assert!(less_than("Documents", "Images"));
    assert!(less_than("a", "ab"));
    assert!(less_than("", "a"));
    assert!(less_than("Z", "a"));
    assert!(!less_than("b", "a"));
    assert!(!less_than("a", "a"));
    assert!(less_than("z", "é"));
}

#[test]
fn the_order_of_texts_is_that_of_strings() {
    let words = ["", "a", "A", "ab", "b", "é", "z", "Z", "10", "9", "/", "."];
    for a in words.iter() {
        for b in words.iter() {
            assert_eq!(less_than(a, b), a < b);
        }
    }
}

#[test]
fn lower_case_changes_ascii_letters_only() {
    assert_eq!(to_lowercase("DocX"), "docx");
    assert_eq!(to_lowercase("7Z"), "7z");
    assert_eq!(to_lowercase("É"), "É");
}

#[test]
fn same_text_compares_every_character() {
    assert!(same_text("abc", "abc"));
    assert!(!same_text("abc", "abd"));
    assert!(!same_text("abc", "ab"));
    assert!(same_text("", ""));
}
