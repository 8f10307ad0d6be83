use swaypad::cleanup::{clean_error_content, strip_directories};

fn clean(content: &str, filename: &str) -> String {
    clean_error_content(content.to_string(), filename)
}

fn strip(content: &str, filename: &str) -> String {
    let s: Vec<char> = content.chars().collect();
    let name: Vec<char> = filename.chars().collect();
    strip_directories(&s, &name).into_iter().collect()
}

#[test]
fn an_absolute_staged_path_becomes_the_file_name() {
    assert_eq!(
        clean("/root/projects/0b5f/src/main.sw:3:5", "main.sw"),
        "main.sw:3:5"
    );
}

#[test]
fn a_relative_staged_path_becomes_the_file_name() {
    assert_eq!(clean("projects/0b5f/src/main.sw:1:1", "main.sw"), "main.sw:1:1");
}

#[test]
fn every_staged_path_is_replaced() {
    let raw = "error\n --> /srv/projects/77aa/src/main.sw:3:5\n  |\n3 | let x = ;\n  |\nnote: see /srv/projects/77aa/src/main.sw:9:1 too\n";
    let want = "error\n --> main.sw:3:5\n  |\n3 | let x = ;\n  |\nnote: see main.sw:9:1 too";
    assert_eq!(clean(raw, "main.sw"), want);
}

#[test]
fn the_project_identifier_does_not_show() {
    let first = clean("  --> projects/1111/src/main.sw:2:2 unexpected token", "main.sw");
    let second = clean("  --> projects/2222/src/main.sw:2:2 unexpected token", "main.sw");
    assert_eq!(first, "--> main.sw:2:2 unexpected token");
    assert_eq!(first, second);
}

#[test]
fn a_word_with_two_ends_is_cut_at_the_last() {
    assert_eq!(clean("a/main.sw/b/main.sw:1", "main.sw"), "main.sw:1");
}

#[test]
fn what_stands_before_the_path_in_its_word_goes_with_it() {
    assert_eq!(clean("\"/tmp/x/main.sw\"", "main.sw"), "main.sw\"");
    assert_eq!(clean("(see:/tmp/x/main.sw)", "main.sw"), "main.sw)");
}

#[test]
fn the_bare_marker_becomes_the_file_name() {
    assert_eq!(clean("/main.sw", "main.sw"), "main.sw");
    assert_eq!(clean("/main.sw:1:2: error", "main.sw"), "main.sw:1:2: error");
}

#[test]
fn text_without_a_staged_path_is_only_trimmed() {
    assert_eq!(clean("  hello world \n", "main.sw"), "hello world");
    assert_eq!(clean("main.sw:1:1", "main.sw"), "main.sw:1:1");
    assert_eq!(clean("/x/lib.sw:1 and /y/main.rs", "main.sw"), "/x/lib.sw:1 and /y/main.rs");
    assert_eq!(clean("a / main.sw", "main.sw"), "a / main.sw");
    assert_eq!(clean("{\"k\": [1, 2]}", "main.sw"), "{\"k\": [1, 2]}");
}

#[test]
fn empty_and_blank_text_is_cleaned_to_nothing() {
    assert_eq!(clean("", "main.sw"), "");
    assert_eq!(clean(" \n\t ", "main.sw"), "");
}

#[test]
fn whitespace_ends_a_path() {
    assert_eq!(
        clean("/home/my user/projects/x/src/main.sw", "main.sw"),
        "/home/my main.sw"
    );
    assert_eq!(clean("/a/b\n/main.sw", "main.sw"), "/a/b\nmain.sw");
    assert_eq!(clean("/a/b\u{A0}c/main.sw", "main.sw"), "/a/b\u{A0}main.sw");
}

#[test]
fn inner_whitespace_is_kept_as_it_is() {
    assert_eq!(
        clean("a \t\n  /p/main.sw \r\n b", "main.sw"),
        "a \t\n  main.sw \r\n b"
    );
}

#[test]
fn other_file_names_are_cleaned_on_request() {
    assert_eq!(clean("at /work/dir/lib.rs:7", "lib.rs"), "at lib.rs:7");
    assert_eq!(clean("at /work/dir/lib.rs:7", "main.sw"), "at /work/dir/lib.rs:7");
}

#[test]
fn non_ascii_text_is_handled_by_character() {
    assert_eq!(
        clean(" \u{4e2d}\u{6587}/\u{e9}t\u{e9}/main.sw:1 \u{1F600} ", "main.sw"),
        "main.sw:1 \u{1F600}"
    );
}

#[test]
fn an_empty_file_name_cuts_up_to_the_last_slash() {
    assert_eq!(clean("/a/b c/ d", ""), "b  d");
    assert_eq!(clean("x/", ""), "");
}

#[test]
fn a_file_name_with_whitespace_is_never_found() {
    assert_eq!(clean("/a/my file", "my file"), "/a/my file");
}

#[test]
fn strip_directories_keeps_outer_whitespace() {
    assert_eq!(strip("  /p/q/main.sw:1  ", "main.sw"), "  main.sw:1  ");
    assert_eq!(strip("", "main.sw"), "");
    assert_eq!(strip("\n", "main.sw"), "\n");
}

#[test]
fn cleaning_twice_changes_nothing_more() {
    let raw = "  warn: /a/b/main.sw:1:1\n  and x/main.sw/y/main.sw ";
    let once = clean(raw, "main.sw");
    assert_eq!(once, "warn: main.sw:1:1\n  and main.sw");
    assert_eq!(clean(&once, "main.sw"), once);
}

#[test]
fn no_staged_path_is_left_in_cleaned_text() {
    let samples = [
        "/a/main.sw",
        "x /a/b/main.sw:1:2 y",
        "a/main.sw/b/main.sw/c/main.sw",
        "/main.sw/main.sw",
        "//main.sw",
        "/main.sw//main.sw/",
        "m/main.sw\n/main.sw\t/q/main.sw ",
        "\u{4e2d}/main.sw\u{3000}/main.sw",
    ];
    for raw in samples {
        let cleaned = clean(raw, "main.sw");
        assert!(!cleaned.contains("/main.sw"), "{:?} became {:?}", raw, cleaned);
        assert_eq!(clean(&cleaned, "main.sw"), cleaned);
    }
}

#[test]
fn text_that_shows_something_is_not_cleaned_to_nothing() {
    for raw in ["x", " /a/main.sw ", "/main.sw", "\n.\n", "a/b/c/"] {
        assert!(!clean(raw, "main.sw").is_empty(), "{:?}", raw);
    }
}

#[test]
fn whitespace_parts_the_text() {
    let left = "see a/main.sw:1";
    let right = "/b/main.sw and /c/d";
    for gap in [' ', '\n', '\t', '\u{A0}'] {
        let whole = format!("{}{}{}", left, gap, right);
        let parts = format!("{}{}{}", strip(left, "main.sw"), gap, strip(right, "main.sw"));
        assert_eq!(strip(&whole, "main.sw"), parts);
        assert_eq!(parts, format!("see main.sw:1{}main.sw and /c/d", gap));
    }
}
