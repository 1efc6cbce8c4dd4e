use deadline::{describe_condition, elapsed_message};

#[test]
fn describes_closure_without_its_introducer() {
    assert_eq!(describe_condition("move || x == y"), "x == y");
}

#[test]
fn collapses_whitespace_in_description() {
    assert_eq!(
        describe_condition("move || {\n    x.load(Ordering::Relaxed) == y\n}"),
        "{ x.load(Ordering::Relaxed) == y }"
    );
    assert_eq!(describe_condition("  a \t\n b  "), "a b");
    assert_eq!(describe_condition("move    ||   ready"), "ready");
}

#[test]
fn keeps_text_without_move_introducer() {
    assert_eq!(describe_condition("|| x == y"), "|| x == y");
    assert_eq!(describe_condition("move ||"), "move ||");
    assert_eq!(describe_condition("moved || x"), "moved || x");
}

#[test]
fn empty_or_blank_source_gives_empty_description() {
    assert_eq!(describe_condition(""), "");
    assert_eq!(describe_condition(" \u{a0}\u{3000} "), "");
}

#[test]
fn message_names_the_condition() {
    let d = describe_condition("move || x == y");
    let m = elapsed_message(Some(d.as_str()));
    assert_eq!(m, "the deadline has elapsed for condition: x == y");
    assert!(m.contains("x == y"));
}

#[test]
fn generic_message_without_description() {
    assert_eq!(elapsed_message(None), "the deadline has elapsed");
}
