use autocorrect::{get_file_extension, is_ignore_auto_correct};

#[test]
fn is_is_ignore_auto_correct() {
    assert_eq!(
        true,
        is_ignore_auto_correct("# autocorrect: false\nHello world")
    );
    assert_eq!(
        true,
        is_ignore_auto_correct("# autocorrect:false\nHello world")
    );
    assert_eq!(
        true,
        is_ignore_auto_correct("# autocorrect: 0\nHello world")
    );
    assert_eq!(
        false,
        is_ignore_auto_correct("# autocorrect: 1\nHello world")
    );
    assert_eq!(
        false,
        is_ignore_auto_correct("# autocorrect: true\nHello world")
    );
    assert_eq!(false, is_ignore_auto_correct("Hello world"));
}

#[test]
fn is_get_file_extension() {
    assert_eq!("rb", get_file_extension("/foo/bar/dar.rb"));
    assert_eq!("js", get_file_extension("/dar.js"));
    assert_eq!("", get_file_extension("/foo/bar/dar"));
}

#[test]
fn ignore_directive_forms() {
    assert!(is_ignore_auto_correct("autocorrect:0"));
    assert!(is_ignore_auto_correct("x autocorrect: \t false y"));
    assert!(is_ignore_auto_correct("<!-- autocorrect: false -->"));
    assert!(is_ignore_auto_correct("autocorrect: autocorrect:false"));
    assert!(!is_ignore_auto_correct(""));
    assert!(!is_ignore_auto_correct("autocorrect:"));
    assert!(!is_ignore_auto_correct("autocorrect:\nfalse"));
    assert!(!is_ignore_auto_correct("autocorrect: fals"));
    assert!(!is_ignore_auto_correct("auto correct: false"));
    assert!(!is_ignore_auto_correct("Autocorrect: False"));
}

#[test]
fn file_extensions() {
    assert_eq!("gz", get_file_extension("a.tar.gz"));
    assert_eq!("", get_file_extension(".bashrc"));
    assert_eq!("rc", get_file_extension(".bash.rc"));
    assert_eq!("", get_file_extension("a.b/c"));
    assert_eq!("", get_file_extension("a."));
    assert_eq!("", get_file_extension(""));
    assert_eq!("md", get_file_extension("中文/文档.md"));
    assert_eq!("md", get_file_extension("a.md/"));
    assert_eq!("md", get_file_extension("a/b.md//"));
    assert_eq!("", get_file_extension("/"));
    assert_eq!("", get_file_extension("a/.."));
    assert_eq!("", get_file_extension("a.b/c/"));
}
