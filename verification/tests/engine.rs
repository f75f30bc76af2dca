use sad::engine::Engine;

#[test]
fn literal_replaces_every_occurrence() {
    let e = Engine::Literal { pattern: String::from("foo"), replace: String::from("baz") };
    assert_eq!(e.replace("foo bar foo"), "baz bar baz");
}

#[test]
fn literal_no_match_leaves_text_unchanged() {
    let e = Engine::Literal { pattern: String::from("xyz"), replace: String::from("abc") };
    assert_eq!(e.replace("nothing to match"), "nothing to match");
}

#[test]
fn literal_empty_pattern_is_identity() {
    let e = Engine::Literal { pattern: String::new(), replace: String::from("abc") };
    assert_eq!(e.replace("anything"), "anything");
}

#[test]
fn literal_matches_do_not_overlap() {
    let e = Engine::Literal { pattern: String::from("aa"), replace: String::from("b") };
    assert_eq!(e.replace("aaaa"), "bb");
    assert_eq!(e.replace("aaa"), "ba");
}

#[test]
fn literal_on_empty_text() {
    let e = Engine::Literal { pattern: String::from("foo"), replace: String::from("baz") };
    assert_eq!(e.replace(""), "");
}

#[test]
fn literal_replacement_longer_than_pattern() {
    let e = Engine::Literal { pattern: String::from("a"), replace: String::from("xyz") };
    assert_eq!(e.replace("aba"), "xyzbxyz");
}

#[test]
fn regex_replaces_every_match() {
    let e = Engine::Regex { pattern: String::from("fo+"), replace: String::from("ba") };
    assert_eq!(e.replace("foo fo f"), "ba ba f");
}

#[test]
fn regex_no_match_leaves_text_unchanged() {
    let e = Engine::Regex { pattern: String::from("q+z"), replace: String::from("x") };
    assert_eq!(e.replace("nothing here"), "nothing here");
}
