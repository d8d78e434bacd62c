use dupe_socket::command::{parse_index_str, parse_message, Command, CommandError, CompareDirs};

fn dirs_of(c: Command) -> Vec<Option<String>> {
    match c {
        Command::Search(d) => d.dirs,
        other => panic!("not a search: {:?}", other),
    }
}

#[test]
fn search_with_two_dirs() {
    let c = Command::parse("search:;dir1:/tmp/a;dir2:/tmp/b").unwrap();
    assert_eq!(dirs_of(c), vec![Some("/tmp/a".to_string()), Some("/tmp/b".to_string())]);
}

#[test]
fn search_with_blank_first_dir() {
    let c = Command::parse("search:;dir1:;dir2:/b").unwrap();
    assert_eq!(dirs_of(c), vec![None, Some("/b".to_string())]);
}

#[test]
fn search_with_single_part() {
    let c = Command::parse("search:;dir1:/only").unwrap();
    assert_eq!(dirs_of(c), vec![Some("/only".to_string()), None]);
    let c = Command::parse("search:").unwrap();
    assert_eq!(dirs_of(c), vec![None, None]);
}

#[test]
fn dirs_keep_text_after_first_colon() {
    let d = CompareDirs::parse("dir1:x:y;dir2:z;dir3:w");
    assert_eq!(d.dirs, vec![Some("x:y".to_string()), Some("z".to_string())]);
    let d = CompareDirs::parse("dir1:C:\\data;dir2:/b:c/d");
    assert_eq!(d.dirs, vec![Some("C:\\data".to_string()), Some("/b:c/d".to_string())]);
    let d = CompareDirs::parse("plain;");
    assert_eq!(d.dirs, vec![Some("plain".to_string()), None]);
    let d = CompareDirs::parse("dir1:;dir2:");
    assert_eq!(d.dirs, vec![None, None]);
}

#[test]
fn next_and_prev_read_the_side() {
    assert!(matches!(Command::parse("next:;1"), Ok(Command::Next(1))));
    assert!(matches!(Command::parse("prev:;0"), Ok(Command::Prev(0))));
    assert!(matches!(Command::parse("next:;+3"), Ok(Command::Next(3))));
}

#[test]
fn bad_index_is_an_error() {
    assert!(matches!(Command::parse("next:;x"), Err(CommandError::InvalidIndex)));
    assert!(matches!(Command::parse("prev:;-1"), Err(CommandError::InvalidIndex)));
    assert!(matches!(Command::parse("next:"), Err(CommandError::InvalidIndex)));
}

#[test]
fn unknown_verb_is_an_error() {
    assert!(matches!(Command::parse("frobnicate:;x"), Err(CommandError::UnknownVerb)));
    assert!(matches!(Command::parse(""), Err(CommandError::UnknownVerb)));
}

#[test]
fn message_marker_selects_commands() {
    assert!(matches!(parse_message("4next:;0"), Ok(Some(Command::Next(0)))));
    assert!(matches!(parse_message("2probe"), Ok(None)));
    assert!(matches!(parse_message(""), Ok(None)));
    assert!(matches!(parse_message("4frobnicate:;x"), Err(CommandError::UnknownVerb)));
}

#[test]
fn index_parsing_limits() {
    assert_eq!(parse_index_str("42"), Some(42));
    assert_eq!(parse_index_str("+7"), Some(7));
    assert_eq!(parse_index_str("007"), Some(7));
    assert_eq!(parse_index_str(""), None);
    assert_eq!(parse_index_str("+"), None);
    assert_eq!(parse_index_str("1 "), None);
    assert_eq!(parse_index_str(&usize::MAX.to_string()), Some(usize::MAX));
    assert_eq!(parse_index_str("18446744073709551616"), None);
    assert_eq!(parse_index_str("99999999999999999999x"), None);
}
