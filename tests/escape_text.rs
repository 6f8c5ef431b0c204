use mdtex::escape::escape;

#[test]
fn escape_empty_is_empty() {
    assert_eq!(escape(""), "");
}

#[test]
fn escape_underscore() {
    assert_eq!(escape("a_b"), "a\\_b");
}

#[test]
fn escape_ampersand() {
    assert_eq!(escape("fish & chips"), "fish \\& chips");
}

#[test]
fn escape_leaves_backslash_alone() {
    assert_eq!(escape("a\\b"), "a\\b");
}

#[test]
fn escape_backslash_before_reserved() {
    assert_eq!(escape("\\_"), "\\\\_");
}

#[test]
fn escape_plain_text_unchanged() {
    assert_eq!(escape("Hello, world! ünïcode"), "Hello, world! ünïcode");
}

#[test]
fn escape_is_not_idempotent() {
    let once = escape("x_y&z");
    let twice = escape(&once);
    assert_eq!(once, "x\\_y\\&z");
    assert_ne!(twice, once);
}

#[test]
fn escape_twice_adds_a_backslash() {
    let once = escape("a_b");
    assert_eq!(once, r"a\_b");
    let twice = escape(&once);
    assert_eq!(twice, r"a\\_b");
    assert_ne!(twice, once);
}

#[test]
fn escape_puts_a_backslash_before_every_reserved() {
    let out: Vec<char> = escape("\\_a&&b__\\").chars().collect();
    for i in 0..out.len() {
        if out[i] == '_' || out[i] == '&' {
            assert!(i >= 1 && out[i - 1] == '\\');
        }
    }
}
