use herdr_labels::filesystem::{absolute_path, clone_bytes, join_path};

fn bytes(text: &str) -> Vec<u8> {
    text.as_bytes().to_vec()
}

#[test]
fn absolute_paths_are_required() {
    assert!(absolute_path(bytes("relative"), "test").is_err());
    assert_eq!(
        absolute_path(bytes("/absolute"), "test").unwrap(),
        bytes("/absolute")
    );
}

#[test]
fn rejected_paths_are_named() {
    assert_eq!(
        absolute_path(bytes("relative"), "test").unwrap_err(),
        "test must be an absolute path"
    );
    assert_eq!(
        absolute_path(Vec::new(), "test").unwrap_err(),
        "test must be an absolute path"
    );
}

#[test]
fn paths_are_joined_with_one_slash() {
    assert_eq!(join_path(&bytes("/base"), "child"), bytes("/base/child"));
    assert_eq!(join_path(&bytes("/base/"), "child"), bytes("/base/child"));
    assert_eq!(join_path(&Vec::new(), "child"), bytes("child"));
    assert_eq!(join_path(&bytes("/base"), "/child"), bytes("/child"));
    assert_eq!(join_path(&bytes("/base"), "caf\u{e9}"), bytes("/base/caf\u{e9}"));
    assert_eq!(clone_bytes(&vec![0, 255, 47]), vec![0, 255, 47]);
}
