use jrenamer::file::{File, PipelineError, ScriptOutcome, Step};
use jrenamer::file_info::{NotFoundError, PathProbe, Stat, Timestamp};

fn existing() -> File {
    File::from_path(&PathProbe {
        path: "music/song.mp3".to_string(),
        filename: Some("song.mp3".to_string()),
        absolute_path: Some("/home/u/music/song.mp3".to_string()),
        stat: Some(Stat {
            accessed: Some(Timestamp::SinceEpoch(1700000003)),
            created: Some(Timestamp::BeforeEpoch),
            modified: Some(Timestamp::SinceEpoch(1700000001)),
            size: 4096,
        }),
    })
}

fn missing() -> File {
    File::from_path(&PathProbe {
        path: "gone.txt".to_string(),
        filename: Some("gone.txt".to_string()),
        absolute_path: None,
        stat: None,
    })
}

fn exited(success: bool, stdout: &[u8], stderr: &[u8]) -> ScriptOutcome {
    ScriptOutcome::Exited { success, stdout: stdout.to_vec(), stderr: stderr.to_vec() }
}

fn pairs(file: &File) -> Vec<(String, String)> {
    let mut pairs = file.fragments.entries().clone();
    pairs.sort();
    pairs
}

fn pair(name: &str, value: &str) -> (String, String) {
    (name.to_string(), value.to_string())
}

#[test]
fn from_path_keeps_the_path_and_starts_empty() {
    let file = existing();
    assert_eq!(file.path_provided, "music/song.mp3");
    assert!(file.file_exists());
    assert!(file.fragments.entries().is_empty());
    assert_eq!(file.file_info.as_ref().unwrap().filename, "song.mp3");
}

#[test]
fn file_that_does_not_exist() {
    let file = missing();
    assert!(!file.file_exists());
    assert_eq!(file.file_info, Err(NotFoundError::Unreadable("gone.txt".to_string())));
}

#[test]
fn file_info_becomes_fragments() {
    let mut file = existing();
    file.add_file_info_to_fragments();
    assert_eq!(
        pairs(&file),
        vec![
            pair("absolute_path", "/home/u/music/song.mp3"),
            pair("accessed", "1700000003"),
            pair("extension", "mp3"),
            pair("filename", "song.mp3"),
            pair("filesize", "4096"),
            pair("modified", "1700000001"),
            pair("path", "music/song.mp3"),
        ]
    );
}

#[test]
fn unknown_fields_give_no_fragment() {
    let mut file = File::from_path(&PathProbe {
        path: "README".to_string(),
        filename: Some("README".to_string()),
        absolute_path: None,
        stat: Some(Stat { accessed: None, created: None, modified: None, size: 0 }),
    });
    file.add_file_info_to_fragments();
    assert_eq!(
        pairs(&file),
        vec![pair("filename", "README"), pair("filesize", "0"), pair("path", "README")]
    );
}

#[test]
fn file_info_overwrites_fragments_of_its_names() {
    let mut file = existing();
    file.fragments.insert("filename".to_string(), "stale".to_string());
    file.fragments.insert("mine".to_string(), "kept".to_string());
    file.add_file_info_to_fragments();
    assert_eq!(file.fragments.get("filename"), Some(&"song.mp3".to_string()));
    assert_eq!(file.fragments.get("mine"), Some(&"kept".to_string()));
}

#[test]
fn missing_file_gets_no_fragments() {
    let mut file = missing();
    file.fragments.insert("mine".to_string(), "kept".to_string());
    file.add_file_info_to_fragments();
    assert_eq!(pairs(&file), vec![pair("mine", "kept")]);
}

#[test]
fn script_input_is_the_store_as_json() {
    let mut file = existing();
    assert_eq!(file.script_input(), "{}");
    file.fragments.insert("b".to_string(), "2".to_string());
    file.fragments.insert("a".to_string(), "1".to_string());
    assert_eq!(file.script_input(), "{\"a\":\"1\",\"b\":\"2\"}");
}

#[test]
fn script_input_escapes_what_json_must() {
    let mut file = existing();
    file.fragments.insert("q".to_string(), "say \"hi\"\\\n".to_string());
    assert_eq!(file.script_input(), "{\"q\":\"say \\\"hi\\\"\\\\\\n\"}");
}

#[test]
fn script_input_holds_earlier_answers() {
    let mut file = existing();
    file.add_file_info_to_fragments();
    file.run_script("one.py", exited(true, b"{\"artist\": \"x\"}", b"")).unwrap();
    let input = file.script_input();
    assert!(input.contains("\"artist\":\"x\""));
    assert!(input.contains("\"filename\":\"song.mp3\""));
}

#[test]
fn successful_run_merges_its_answer() {
    let mut file = existing();
    file.fragments.insert("keep".to_string(), "k".to_string());
    file.fragments.insert("title".to_string(), "old".to_string());
    let result = file.run_script(
        "tag.py",
        exited(true, b" {\"title\": \"new\", \"artist\": \"\\u00e9 \\\"x\\\"\"}\n", b"noise"),
    );
    assert_eq!(result, Ok(()));
    assert_eq!(
        pairs(&file),
        vec![pair("artist", "é \"x\""), pair("keep", "k"), pair("title", "new")]
    );
}

#[test]
fn answer_may_overwrite_file_info() {
    let mut file = existing();
    file.add_file_info_to_fragments();
    file.run_script("x", exited(true, b"{\"filename\":\"other\"}", b"")).unwrap();
    assert_eq!(file.fragments.get("filename"), Some(&"other".to_string()));
    assert_eq!(file.fragments.get("extension"), Some(&"mp3".to_string()));
}

#[test]
fn empty_answer_changes_nothing() {
    let mut file = existing();
    file.fragments.insert("a".to_string(), "1".to_string());
    assert_eq!(file.run_script("x", exited(true, b"{}", b"")), Ok(()));
    assert_eq!(pairs(&file), vec![pair("a", "1")]);
}

#[test]
fn repeated_name_in_an_answer_takes_the_last_value() {
    let mut file = existing();
    assert_eq!(file.run_script("x", exited(true, b"{\"x\":\"1\",\"x\":\"2\"}", b"")), Ok(()));
    assert_eq!(pairs(&file), vec![pair("x", "2")]);
}

#[test]
fn last_transformer_wins() {
    let mut file = existing();
    file.run_script("a.py", exited(true, b"{\"x\": \"1\", \"only_a\": \"a\"}", b"")).unwrap();
    file.run_script("b.py", exited(true, b"{\"x\": \"2\"}", b"")).unwrap();
    assert_eq!(file.fragments.get("x"), Some(&"2".to_string()));
    assert_eq!(file.fragments.get("only_a"), Some(&"a".to_string()));
}

#[test]
fn failed_run_leaves_the_store_alone() {
    let mut file = existing();
    file.add_file_info_to_fragments();
    let before = pairs(&file);
    let result = file.run_script("x", exited(false, b"{\"x\": \"1\"}", b"Traceback\n"));
    assert_eq!(result, Err(PipelineError::TransformerFailure(b"Traceback\n".to_vec())));
    assert_eq!(pairs(&file), before);
    assert_eq!(file.path_provided, "music/song.mp3");
    assert!(file.file_exists());
}

#[test]
fn failed_run_reports_any_bytes() {
    let mut file = existing();
    let result = file.run_script("x", exited(false, b"", &[0xff, 0x00, 0xfe]));
    assert_eq!(result, Err(PipelineError::TransformerFailure(vec![0xff, 0x00, 0xfe])));
}

#[test]
fn run_out_of_time_counts_as_failed() {
    let mut file = existing();
    file.fragments.insert("a".to_string(), "1".to_string());
    let result = file.run_script("slow.py", ScriptOutcome::TimedOut { stderr: b"working".to_vec() });
    assert_eq!(result, Err(PipelineError::TransformerFailure(b"working".to_vec())));
    assert_eq!(pairs(&file), vec![pair("a", "1")]);
}

#[test]
fn malformed_answers_are_dropped() {
    let answers: [&[u8]; 12] = [
        b"",
        b"not json",
        b"[]",
        b"\"text\"",
        b"null",
        b"{\"x\": 1}",
        b"{\"x\": null}",
        b"{\"x\": {\"y\": \"1\"}}",
        b"{\"x\": [\"1\"]}",
        b"{\"x\": \"1\"} trailing",
        b"{\"x\": \"1\"",
        b"{x: \"1\"}",
    ];
    for answer in answers {
        let mut file = existing();
        file.fragments.insert("a".to_string(), "1".to_string());
        let result = file.run_script("x", exited(true, answer, b""));
        assert_eq!(result, Err(PipelineError::MalformedResponse));
        assert_eq!(pairs(&file), vec![pair("a", "1")]);
    }
}

#[test]
fn answer_that_is_no_utf8_is_malformed() {
    let mut file = existing();
    file.fragments.insert("a".to_string(), "1".to_string());
    let result = file.run_script("x", exited(true, b"{\"x\": \"\xff\"}", b""));
    assert_eq!(result, Err(PipelineError::MalformedResponse));
    assert_eq!(pairs(&file), vec![pair("a", "1")]);
}

#[test]
fn answer_in_utf8_is_read_as_text() {
    let mut file = existing();
    let result = file.run_script("x", exited(true, "{\"ключ\": \"日本語\"}".as_bytes(), b""));
    assert_eq!(result, Ok(()));
    assert_eq!(pairs(&file), vec![pair("ключ", "日本語")]);
}

#[test]
fn transformer_that_did_not_start() {
    let mut file = existing();
    file.fragments.insert("a".to_string(), "1".to_string());
    let result = file.run_script("bin/tagger", ScriptOutcome::SpawnFailed);
    assert_eq!(result, Err(PipelineError::TransformerSpawn("bin/tagger".to_string())));
    assert_eq!(pairs(&file), vec![pair("a", "1")]);
}

#[test]
fn only_a_failed_start_ends_the_pipeline() {
    assert!(PipelineError::TransformerSpawn("x".to_string()).is_fatal());
    assert!(!PipelineError::MalformedResponse.is_fatal());
    assert!(!PipelineError::TransformerFailure(Vec::new()).is_fatal());
}

#[test]
fn add_to_frags_takes_json_text() {
    let mut file = existing();
    assert_eq!(file.add_to_frags("{\"n\": \"v\"}"), Ok(()));
    assert_eq!(file.add_to_frags("{\"n\": 1}"), Err(PipelineError::MalformedResponse));
    assert_eq!(pairs(&file), vec![pair("n", "v")]);
}

#[test]
fn apply_answer_writes_pairs_or_reports() {
    let mut file = existing();
    file.fragments.insert("a".to_string(), "1".to_string());
    assert_eq!(file.apply_answer(Some(vec![pair("a", "2"), pair("b", "3")])), Ok(()));
    assert_eq!(pairs(&file), vec![pair("a", "2"), pair("b", "3")]);
    assert_eq!(file.apply_answer(None), Err(PipelineError::MalformedResponse));
    assert_eq!(pairs(&file), vec![pair("a", "2"), pair("b", "3")]);
    assert_eq!(file.apply_answer(Some(Vec::new())), Ok(()));
    assert_eq!(pairs(&file), vec![pair("a", "2"), pair("b", "3")]);
}

#[test]
fn new_name_from_file_info_and_answers() {
    let mut file = existing();
    file.add_file_info_to_fragments();
    file.run_script("x", exited(true, b"{\"artist\": \"Someone\"}", b"")).unwrap();
    assert_eq!(
        file.parse_fstring("(#artist#|unknown) - (#album#|no album) ##(#filesize#|?).#extension#"),
        "Someone - no album #4096.mp3"
    );
}

#[test]
fn script_input_does_not_depend_on_the_order_of_writing() {
    let mut one = existing();
    one.fragments.insert("a".to_string(), "1".to_string());
    one.fragments.insert("b".to_string(), "2".to_string());
    let mut other = existing();
    other.fragments.insert("b".to_string(), "0".to_string());
    other.fragments.insert("a".to_string(), "1".to_string());
    other.fragments.insert("b".to_string(), "2".to_string());
    assert_eq!(one.script_input(), other.script_input());
}

#[test]
fn script_input_is_read_back_as_the_store() {
    let mut file = existing();
    file.add_file_info_to_fragments();
    file.fragments.insert("odd \"name\"".to_string(), "tab\tand é".to_string());
    let input = file.script_input();
    let mut copy = existing();
    copy.run_script("echo", exited(true, input.as_bytes(), b"")).unwrap();
    assert_eq!(pairs(&copy), pairs(&file));
}

#[test]
fn steps_of_a_file_that_exists() {
    let file = existing();
    assert_eq!(file.next_step(2, 0, &Ok(())), Step::Run(0));
    assert_eq!(file.next_step(2, 1, &Ok(())), Step::Run(1));
    assert_eq!(file.next_step(2, 2, &Ok(())), Step::Rename);
    assert_eq!(file.next_step(0, 0, &Ok(())), Step::Rename);
}

#[test]
fn failed_and_malformed_runs_do_not_stop_the_pipeline() {
    let file = existing();
    let failed = Err(PipelineError::TransformerFailure(b"x".to_vec()));
    let malformed = Err(PipelineError::MalformedResponse);
    assert_eq!(file.next_step(3, 1, &failed), Step::Run(1));
    assert_eq!(file.next_step(3, 2, &malformed), Step::Run(2));
    assert_eq!(file.next_step(3, 3, &failed), Step::Rename);
    assert_eq!(file.next_step(3, 3, &malformed), Step::Rename);
}

#[test]
fn transformer_that_did_not_start_stops_the_file() {
    let file = existing();
    let spawn = Err(PipelineError::TransformerSpawn("x".to_string()));
    assert_eq!(file.next_step(3, 1, &spawn), Step::Stop);
    assert_eq!(file.next_step(3, 3, &spawn), Step::Stop);
}

#[test]
fn file_that_does_not_exist_is_left_alone() {
    let file = missing();
    assert_eq!(file.next_step(2, 0, &Ok(())), Step::Stop);
    assert_eq!(file.next_step(0, 0, &Ok(())), Step::Stop);
}
