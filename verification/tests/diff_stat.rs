use ghcc::git::derive_diff_stat;

#[test]
fn test_derive_diff_stat_single_file() {
    let diff = r#"diff --git a/README.md b/README.md
index 1234567..abcdefg 100644
--- a/README.md
+++ b/README.md
@@ -10,7 +10,7 @@ A CLI tool for generating commit messages.
 ## Installation
 
-cargo instal ghcc
+cargo install ghcc
 
 ## Usage"#;

    let stat = derive_diff_stat(diff);
    assert!(stat.contains("README.md"));
    assert!(stat.contains("1 file"));
    assert!(stat.contains("1 insertion"));
    assert!(stat.contains("1 deletion"));
}

#[test]
fn test_derive_diff_stat_multiple_files() {
    let diff = r#"diff --git a/src/main.rs b/src/main.rs
index 1234567..abcdefg 100644
--- a/src/main.rs
+++ b/src/main.rs
@@ -1,3 +1,5 @@
+use std::io;
+use std::fs;
 fn main() {
     println!("Hello");
 }
diff --git a/src/lib.rs b/src/lib.rs
index 1234567..abcdefg 100644
--- a/src/lib.rs
+++ b/src/lib.rs
@@ -1,5 +1,4 @@
-fn old_function() {
-    // removed
-}
+fn new_function() {}
"#;

    let stat = derive_diff_stat(diff);
    assert!(stat.contains("src/main.rs"));
    assert!(stat.contains("src/lib.rs"));
    assert!(stat.contains("2 files changed"));
}

#[test]
fn test_derive_diff_stat_empty_diff() {
    let stat = derive_diff_stat("");
    assert!(stat.is_empty());
}

#[test]
fn the_summary_is_aligned_and_counted() {
    let diff = "diff --git a/a.rs b/a.rs\n\
                --- a/a.rs\n\
                +++ b/a.rs\n\
                @@ -1 +1,2 @@\n\
                -x\n\
                +y\n\
                +z\n\
                diff --git a/long/name.rs b/long/name.rs\n\
                +w\n";
    assert_eq!(
        derive_diff_stat(diff),
        " a.rs         |    3 ++-\n long/name.rs |    1 +\n \
         2 files changed, 3 insertions(+), 1 deletion(-)"
    );
}

#[test]
fn the_bar_is_cut_off_and_insertions_come_first() {
    let mut diff = String::from("diff --git a/f b/f\n");
    for _ in 0..45 {
        diff.push_str("+a\n");
    }
    for _ in 0..20 {
        diff.push_str("-a\n");
    }
    assert_eq!(
        derive_diff_stat(&diff),
        format!(
            " f |   65 {}{}\n 1 file changed, 45 insertions(+), 20 deletions(-)",
            "+".repeat(45),
            "-".repeat(5)
        )
    );
    let many = format!("diff --git a/f b/f\n{}", "+a\n".repeat(60));
    assert_eq!(
        derive_diff_stat(&many),
        format!(" f |   60 {}\n 1 file changed, 60 insertions(+), 0 deletions(-)", "+".repeat(50))
    );
}

#[test]
fn diffs_of_different_files_are_counted_apart() {
    let first = "diff --git a/a b/a\n+1\n";
    let second = "diff --git a/b b/b\n-1\n-2\n";
    assert_eq!(
        derive_diff_stat(&format!("{}{}", first, second)),
        " a |    1 +\n b |    2 --\n 2 files changed, 1 insertion(+), 2 deletions(-)"
    );
}

#[test]
fn without_a_header_there_is_no_summary() {
    assert_eq!(derive_diff_stat("+a\n-b\nsome text\n"), "");
    assert_eq!(derive_diff_stat("diff --git a/only\n+a\n"), "");
}

#[test]
fn a_header_without_a_name_closes_the_file_before_it() {
    assert_eq!(
        derive_diff_stat("diff --git a/a b/a\n+1\ndiff --git strange\n+2\n+3\n"),
        " a |    1 +\n 1 file changed, 1 insertion(+), 0 deletions(-)"
    );
}

#[test]
fn the_name_ends_before_a_second_marker() {
    assert_eq!(
        derive_diff_stat("diff --git a/x b/y b/z\n"),
        " y |    0 \n 1 file changed, 0 insertions(+), 0 deletions(-)"
    );
}

#[test]
fn names_are_aligned_by_bytes_and_filled_by_characters() {
    assert_eq!(
        derive_diff_stat("diff --git a/ä b/ä\ndiff --git a/a b/a\n"),
        " ä  |    0 \n a  |    0 \n 2 files changed, 0 insertions(+), 0 deletions(-)"
    );
}
