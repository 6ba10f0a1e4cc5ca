use buildk::text::{join, path_join, replace, rsplit_once, split};

#[test]
fn replace_kt_suffix() {
    assert_eq!(replace("Main.kt", ".kt", "Kt"), "MainKt");
}

#[test]
fn split_and_join_round_trip() {
    let parts = split("a:b:c", ":");
    assert_eq!(parts, vec!["a".to_string(), "b".to_string(), "c".to_string()]);
    assert_eq!(join(&parts, ":"), "a:b:c");
}

#[test]
fn path_join_like_std() {
    assert_eq!(path_join("a", "b"), "a/b");
    assert_eq!(path_join("a/", "b"), "a/b");
    assert_eq!(path_join("a", "/b"), "/b");
    assert_eq!(path_join("", "b"), "b");
}

#[test]
fn rsplit_once_like_std() {
    for (s, c) in [("org.lib.core", '.'), ("nodot", '.'), (".lead", '.'), ("trail.", '.'), ("", '.'), ("a/b/c", '/')] {
        let expected = s.rsplit_once(c).map(|(a, b)| (a.to_string(), b.to_string()));
        assert_eq!(rsplit_once(s, c), expected);
    }
}
