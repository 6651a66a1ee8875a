use jrenamer::args::{get_files, get_scripts, path_exists, ScriptCandidate, UsageError};
use jrenamer::file_info::{NotFoundError, PathProbe, Stat};

fn probe(path: &str, exists: bool) -> PathProbe {
    PathProbe {
        path: path.to_string(),
        filename: Some(path.to_string()),
        absolute_path: None,
        stat: if exists {
            Some(Stat { accessed: None, created: None, modified: None, size: 1 })
        } else {
            None
        },
    }
}

fn candidate(path: &str, found: bool) -> ScriptCandidate {
    ScriptCandidate { path: path.to_string(), found }
}

#[test]
fn no_input_is_an_error() {
    assert_eq!(get_files(&Vec::new()).err(), Some(UsageError::NoInput));
    assert_eq!(UsageError::NoInput.message(), "You must supply at least one input item");
}

#[test]
fn one_file_for_each_input() {
    let files = get_files(&vec![probe("a.txt", true), probe("b.txt", false), probe("c", true)])
        .unwrap();
    assert_eq!(files.len(), 3);
    assert_eq!(files[0].path_provided, "a.txt");
    assert_eq!(files[1].path_provided, "b.txt");
    assert_eq!(files[2].path_provided, "c");
    assert!(files[0].file_exists());
    assert!(!files[1].file_exists());
    assert!(files[2].file_exists());
    assert!(files.iter().all(|file| file.fragments.entries().is_empty()));
}

#[test]
fn path_exists_hands_the_path_back() {
    assert_eq!(path_exists("s.py", true), Ok("s.py"));
    assert_eq!(path_exists("", true), Ok(""));
}

#[test]
fn path_that_does_not_exist() {
    assert_eq!(path_exists("s.py", false), Err(NotFoundError::Missing("s.py".to_string())));
}

#[test]
fn scripts_that_exist_are_kept_in_order() {
    let scripts = get_scripts(&vec![
        candidate("one.py", true),
        candidate("two.py", false),
        candidate("three.py", true),
        candidate("four.py", false),
    ]);
    assert_eq!(scripts.paths, vec!["one.py".to_string(), "three.py".to_string()]);
    assert_eq!(
        scripts.missing,
        vec![
            NotFoundError::Missing("two.py".to_string()),
            NotFoundError::Missing("four.py".to_string()),
        ]
    );
}

#[test]
fn no_scripts_named() {
    let scripts = get_scripts(&Vec::new());
    assert!(scripts.paths.is_empty());
    assert!(scripts.missing.is_empty());
}
