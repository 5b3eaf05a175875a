use fun8s_lite::text::{replace_str, trim_str};

#[test]
fn replace_every_occurrence() {
    assert_eq!(replace_str("NODE_N/NODE_N.crt", "NODE_N", "node"), "node/node.crt");
}

#[test]
fn replace_leftmost_without_overlap() {
    assert_eq!(replace_str("aaa", "aa", "b"), "ba");
    assert_eq!("aaa".replace("aa", "b"), "ba");
}

#[test]
fn replace_absent_pattern_leaves_text() {
    assert_eq!(replace_str("port: 4243", "port: 4242", "port: 0"), "port: 4243");
}

#[test]
fn replace_empty_pattern_like_std() {
    assert_eq!(replace_str("ab", "", "x"), "xaxbx");
    assert_eq!(replace_str("", "", "x"), "x");
    assert_eq!(replace_str("ab", "", "x"), "ab".replace("", "x"));
}

#[test]
fn replace_with_longer_text() {
    assert_eq!(replace_str("x21.21.21.21y", "21.21.21.21", "123.123.123.123"), "x123.123.123.123y");
}

#[test]
fn trim_ascii_and_unicode_white_space() {
    assert_eq!(trim_str("  a b\t\n"), "a b");
    assert_eq!(trim_str("\u{3000}\u{85}x\u{2028}"), "x");
    assert_eq!(trim_str("\u{3000}\u{85}x\u{2028}"), "\u{3000}\u{85}x\u{2028}".trim());
    assert_eq!(trim_str(" \n\t "), "");
    assert_eq!(trim_str(""), "");
}

#[test]
fn trim_is_idempotent_on_example() {
    let once = trim_str("\t kubeadm join x \r\n");
    assert_eq!(once, "kubeadm join x");
    assert_eq!(trim_str(&once), once);
}
