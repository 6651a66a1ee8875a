use jrenamer::file_info::{extension, FileInfo, NotFoundError, PathProbe, Stat, Timestamp};

fn probe(path: &str, filename: Option<&str>, stat: Option<Stat>) -> PathProbe {
    PathProbe {
        path: path.to_string(),
        filename: filename.map(|name| name.to_string()),
        absolute_path: None,
        stat,
    }
}

fn plain_stat(size: u64) -> Stat {
    Stat { accessed: None, created: None, modified: None, size }
}

#[test]
fn missing_file_is_not_found() {
    let outcome = FileInfo::from_path(&probe("no/such/file.txt", Some("file.txt"), None));
    assert_eq!(outcome, Err(NotFoundError::Unreadable("file.txt".to_string())));
}

#[test]
fn path_without_filename_is_not_found() {
    let outcome = FileInfo::from_path(&probe("..", None, Some(plain_stat(4096))));
    assert_eq!(outcome, Err(NotFoundError::NoFilename));
    let outcome = FileInfo::from_path(&probe("/", None, None));
    assert_eq!(outcome, Err(NotFoundError::NoFilename));
}

#[test]
fn existing_file_has_its_filename() {
    let info = FileInfo::from_path(&probe("dir/photo.jpeg", Some("photo.jpeg"), Some(plain_stat(9))))
        .unwrap();
    assert_eq!(info.filename, "photo.jpeg");
    assert_eq!(info.extension, Some("jpeg".to_string()));
    assert_eq!(info.path, "dir/photo.jpeg");
    assert_eq!(info.absolute_path, None);
    assert_eq!(info.accessed, None);
    assert_eq!(info.created, None);
    assert_eq!(info.modified, None);
    assert_eq!(info.filesize, 9);
}

#[test]
fn every_known_field_is_taken_over() {
    let info = FileInfo::from_path(&PathProbe {
        path: "notes.txt".to_string(),
        filename: Some("notes.txt".to_string()),
        absolute_path: Some("/home/u/notes.txt".to_string()),
        stat: Some(Stat {
            accessed: Some(Timestamp::SinceEpoch(1700000003)),
            created: Some(Timestamp::SinceEpoch(0)),
            modified: Some(Timestamp::SinceEpoch(1700000001)),
            size: u64::MAX,
        }),
    })
    .unwrap();
    assert_eq!(
        info,
        FileInfo {
            filename: "notes.txt".to_string(),
            extension: Some("txt".to_string()),
            path: "notes.txt".to_string(),
            absolute_path: Some("/home/u/notes.txt".to_string()),
            accessed: Some(1700000003),
            created: Some(0),
            modified: Some(1700000001),
            filesize: u64::MAX,
        }
    );
}

#[test]
fn time_before_the_epoch_is_absent() {
    let info = FileInfo::from_path(&PathProbe {
        path: "old".to_string(),
        filename: Some("old".to_string()),
        absolute_path: None,
        stat: Some(Stat {
            accessed: Some(Timestamp::BeforeEpoch),
            created: None,
            modified: Some(Timestamp::SinceEpoch(12)),
            size: 0,
        }),
    })
    .unwrap();
    assert_eq!(info.accessed, None);
    assert_eq!(info.created, None);
    assert_eq!(info.modified, Some(12));
    assert_eq!(Timestamp::seconds(Some(Timestamp::BeforeEpoch)), None);
    assert_eq!(Timestamp::seconds(Some(Timestamp::SinceEpoch(5))), Some(5));
    assert_eq!(Timestamp::seconds(None), None);
}

#[test]
fn extension_follows_the_last_dot() {
    assert_eq!(extension("a.txt"), Some("txt".to_string()));
    assert_eq!(extension("archive.tar.gz"), Some("gz".to_string()));
    assert_eq!(extension("noext"), None);
    assert_eq!(extension(""), None);
    assert_eq!(extension("trailing."), Some(String::new()));
    assert_eq!(extension(".bashrc"), Some("bashrc".to_string()));
    assert_eq!(extension("übung.tæxt"), Some("tæxt".to_string()));
}

#[test]
fn not_found_messages() {
    assert_eq!(NotFoundError::NoFilename.message(), "File has no filename");
    assert_eq!(
        NotFoundError::Unreadable("a.txt".to_string()).message(),
        "File \"a.txt\" probably doesn't exist"
    );
    assert_eq!(
        NotFoundError::Missing("scripts/x.py".to_string()).message(),
        "File scripts/x.py doesn't exist"
    );
}
