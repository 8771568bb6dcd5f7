use ghcc::auth::{auth_paths, auth_paths_in, AuthError};
use ghcc::paths::{join_path, join_text_path};

#[test]
fn a_name_is_joined_to_a_directory() {
    assert_eq!(join_path(&b"/home/me".to_vec(), "x"), b"/home/me/x");
    assert_eq!(join_path(&b"/".to_vec(), "x"), b"/x");
    assert_eq!(join_path(&b"".to_vec(), "x"), b"x");
    assert_eq!(join_path(&b"\xff".to_vec(), "\u{e4}"), b"\xff/\xc3\xa4");
    assert_eq!(join_text_path(".git", "hooks"), ".git/hooks");
    assert_eq!(join_text_path("/", "hooks"), "/hooks");
    assert_eq!(join_text_path("", "hooks"), "hooks");
}

#[test]
fn joining_agrees_with_the_paths_of_the_system() {
    for dir in ["", "/", "a", "a/", "/a/b", "ä"] {
        let expected = std::path::Path::new(dir).join("x");
        assert_eq!(join_text_path(dir, "x"), expected.to_str().unwrap());
        let bytes = join_path(&dir.as_bytes().to_vec(), "x");
        assert_eq!(bytes, expected.to_str().unwrap().as_bytes());
    }
}

#[test]
fn credentials_are_kept_in_the_directory_for_local_data() {
    let p = auth_paths_in(Some(b"/home/me/.local/share".to_vec())).unwrap();
    assert_eq!(p.dir, b"/home/me/.local/share/ghcc");
    assert_eq!(p.file, b"/home/me/.local/share/ghcc/auth.json");
    assert_eq!(p.temp, b"/home/me/.local/share/ghcc/.auth.json.tmp");
}

#[test]
fn without_such_a_directory_there_is_an_error() {
    let e = auth_paths_in(None).unwrap_err();
    assert!(matches!(&e, AuthError::FileSystem(_)));
    assert_eq!(e.message(), "File system error: Could not determine data directory");
}

#[test]
fn the_directory_is_that_of_the_user() {
    let p = auth_paths().unwrap();
    let data = dirs::data_local_dir().unwrap();
    let expected = data.join("ghcc").join("auth.json");
    assert_eq!(String::from_utf8_lossy(&p.file), expected.to_string_lossy());
}
