use sad::text::{dec_string, join_lines, split_lines};
use sad::udiff::{apply_patch, diff_lines, render_patch};

fn lines(parts: &[&str]) -> Vec<String> {
    parts.iter().map(|p| String::from(*p)).collect()
}

#[test]
fn split_and_join_round_trip() {
    let texts = ["", "one line", "a\nb", "a\nb\n", "\n\n", "trailing\n"];
    for t in texts.iter() {
        let ls = split_lines(t);
        assert_eq!(join_lines(&ls), *t);
    }
}

#[test]
fn join_of_no_lines_is_empty() {
    assert_eq!(join_lines(&Vec::new()), "");
}

#[test]
fn split_keeps_empty_segments() {
    let ls = split_lines("a\n\nb\n");
    assert_eq!(ls, lines(&["a", "", "b", ""]));
}

#[test]
fn dec_renders_decimal() {
    assert_eq!(dec_string(0), "0");
    assert_eq!(dec_string(7), "7");
    assert_eq!(dec_string(1234), "1234");
    assert_eq!(dec_string(1000000), "1000000");
}

#[test]
fn diff_then_apply_reproduces_after() {
    let b = lines(&["keep", "old", "tail"]);
    let a = lines(&["keep", "new", "extra", "tail"]);
    let patch = diff_lines(&b, &a, 3);
    let patched = apply_patch(&patch, &b).expect("patch fits its own origin");
    assert_eq!(patched, a);
}

#[test]
fn diff_then_apply_with_zero_context() {
    let b = lines(&["a", "b", "c"]);
    let a = lines(&["a", "x", "c"]);
    let patch = diff_lines(&b, &a, 0);
    assert_eq!(patch.context_pre.len(), 0);
    assert_eq!(patch.context_post.len(), 0);
    let patched = apply_patch(&patch, &b).expect("patch fits its own origin");
    assert_eq!(patched, a);
}

#[test]
fn apply_rejects_foreign_origin() {
    let b = lines(&["a", "b", "c"]);
    let a = lines(&["a", "x", "c"]);
    let patch = diff_lines(&b, &a, 1);
    let other = lines(&["something", "else"]);
    assert!(apply_patch(&patch, &other).is_none());
}

#[test]
fn render_single_line_change() {
    let b = lines(&["foo bar foo"]);
    let a = lines(&["baz bar baz"]);
    let patch = diff_lines(&b, &a, 3);
    let text = render_patch(&patch, "a.txt");
    assert_eq!(
        text,
        "--- a.txt\n+++ a.txt\n@@ -1,1 +1,1 @@\n-foo bar foo\n+baz bar baz\n"
    );
}

#[test]
fn render_change_with_context() {
    let b = lines(&["one", "two", "three", "four", "five"]);
    let a = lines(&["one", "two", "CHANGED", "four", "five"]);
    let patch = diff_lines(&b, &a, 1);
    let text = render_patch(&patch, "f");
    assert_eq!(
        text,
        "--- f\n+++ f\n@@ -2,3 +2,3 @@\n two\n-three\n+CHANGED\n four\n"
    );
}

#[test]
fn diff_pure_insertion() {
    let b = lines(&["a", "c"]);
    let a = lines(&["a", "b", "c"]);
    let patch = diff_lines(&b, &a, 0);
    assert_eq!(patch.removed.len(), 0);
    assert_eq!(patch.added, lines(&["b"]));
    let patched = apply_patch(&patch, &b).expect("patch fits its own origin");
    assert_eq!(patched, a);
}
