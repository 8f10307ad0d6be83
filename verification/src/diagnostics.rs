//! The part of a compiler's error stream that is worth showing.

use crate::chars::{from_chars, to_chars};
use crate::cleanup::{clean_error_content, clean_text, lemma_clean_keeps_visible, path_end};
use crate::response::FILE_NAME;
use crate::text::{
    find, first_occurrence, has_visible, is_first_occurrence, is_space,
    lemma_first_occurrence_is_first, lemma_first_occurrence_unique,
};
use vstd::prelude::*;

verus! {

/// What stands in a diagnostic where it first speaks of the main source file:
/// the end of the file's path and the colon before the line number.
pub const MAIN_FILE_MARKER: &'static str = "/main.sw:";

/// The part of `stderr` from the first marker on; all of it where there is no
/// marker.
pub open spec fn relevant_text(stderr: Seq<char>) -> Seq<char> {
    match first_occurrence(stderr, MAIN_FILE_MARKER@) {
        Some(i) => stderr.skip(i),
        None => stderr,
    }
}

/// The error message for a contract that did not compile: what the compiler
/// wrote from the first marker on, cleaned.
pub open spec fn error_message(stderr: Seq<char>) -> Seq<char> {
    clean_text(relevant_text(stderr), FILE_NAME@)
}

/// The marker is the end of the staged path of the main source file, and a
/// colon.
pub proof fn lemma_marker_ends_main_path()
    ensures
        MAIN_FILE_MARKER@ == path_end(FILE_NAME@).push(':'),
{
    reveal_strlit("/main.sw:");
    reveal_strlit("main.sw");
    assert(MAIN_FILE_MARKER@ =~= path_end(FILE_NAME@).push(':'));
}

/// What the compiler wrote before it first spoke of the main source file
/// does not show in the message: where the marker first stands right behind
/// `before`, the message for `before` and `rest` together is that for `rest`.
pub proof fn lemma_message_starts_at_marker(before: Seq<char>, rest: Seq<char>)
    requires
        is_first_occurrence(before + rest, MAIN_FILE_MARKER@, before.len() as int),
    ensures
        relevant_text(before + rest) == rest,
        relevant_text(rest) == rest,
        error_message(before + rest) == error_message(rest),
{
    let all = before + rest;
    let marker = MAIN_FILE_MARKER@;
    let n = before.len() as int;
    lemma_first_occurrence_unique(all, marker, n);
    assert(all.skip(n) =~= rest);
    assert(rest.subrange(0, marker.len() as int) =~= all.subrange(n, n + marker.len()));
    assert(is_first_occurrence(rest, marker, 0));
    lemma_first_occurrence_unique(rest, marker, 0);
    assert(rest.skip(0) =~= rest);
}

/// Where the compiler spoke of the main source file, or wrote anything but
/// whitespace, there is a message to show.
pub proof fn lemma_message_is_not_empty(stderr: Seq<char>)
    requires
        first_occurrence(stderr, MAIN_FILE_MARKER@) is Some || has_visible(stderr),
    ensures
        error_message(stderr).len() > 0,
{
    reveal_strlit("/main.sw:");
    reveal_strlit("main.sw");
    let marker = MAIN_FILE_MARKER@;
    let text = relevant_text(stderr);
    match first_occurrence(stderr, marker) {
        Some(i) => {
            lemma_first_occurrence_is_first(stderr, marker);
            assert(stderr.subrange(i, i + marker.len())[1] == marker[1]);
            assert(text[1] == 'm');
            assert(!is_space(text[1]));
        },
        None => {},
    }
    lemma_clean_keeps_visible(text, FILE_NAME@);
}

/// The error message for a contract that did not compile: what the compiler
/// wrote from the first marker on, cleaned.
pub fn error_text(stderr: &str) -> (message: String)
    ensures
        message@ == error_message(stderr@),
{
    let s = to_chars(stderr);
    let marker = to_chars(MAIN_FILE_MARKER);
    let start: usize = match find(&s, &marker) {
        Some(i) => i,
        None => 0,
    };
    let mut tail: Vec<char> = Vec::new();
    let mut i: usize = start;
    while i < s.len()
        invariant
            start <= i <= s.len(),
            tail@ == s@.subrange(start as int, i as int),
        decreases s.len() - i,
    {
        tail.push(s[i]);
        i += 1;
    }
    assert(tail@ == relevant_text(stderr@)) by {
        assert(s@.subrange(start as int, s@.len() as int) =~= s@.skip(start as int));
        assert(s@.skip(0) =~= s@);
    }
    clean_error_content(from_chars(&tail), FILE_NAME)
}

} // verus!
