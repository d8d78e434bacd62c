use dupe_socket::command::CommandError;
use dupe_socket::frame::{OpCode, WebSocketFrame};
use dupe_socket::session::{
    handle_message, handle_text, reply_frame, start_session, CompareManager, CompareWindow, Duplicate,
    Reply, SessionError,
};

fn s(x: &str) -> String {
    x.to_string()
}

fn dup(name: &str, first: &str, seconds: &[&str]) -> Duplicate {
    Duplicate {
        file_name: s(name),
        first_dir_match: s(first),
        second_dir_match: seconds.iter().map(|p| s(p)).collect(),
    }
}

fn three_dups() -> Vec<Duplicate> {
    vec![
        dup("a.txt", "/one/a.txt", &["/two/a.txt", "/two/x/a.txt"]),
        dup("b.png", "/one/b.png", &["/two/b.png"]),
        dup("c.txt", "/one/c.txt", &["/two/c.txt", "/two/y/c.txt", "/two/z/c.txt"]),
    ]
}

fn manager(session: &Option<CompareManager>) -> &CompareManager {
    session.as_ref().unwrap()
}

#[test]
fn prev_at_start_stays_at_start() {
    let mut w = CompareWindow::new(vec![s("a"), s("b"), s("c")]);
    for _ in 0..5 {
        w.change_index(-1);
        assert_eq!(w.index, 0);
    }
}

#[test]
fn next_at_end_stays_at_end() {
    let mut w = CompareWindow::new(vec![s("a"), s("b"), s("c")]);
    w.change_index(1);
    w.change_index(1);
    assert_eq!(w.index, 2);
    w.to_update = false;
    for _ in 0..5 {
        w.change_index(1);
        assert_eq!(w.index, 2);
    }
    assert!(!w.to_update);
}

#[test]
fn window_marks_and_reports_moves() {
    let mut w = CompareWindow::new(vec![s("a"), s("b")]);
    assert_eq!(w.get_updated_file(), Some(s("a")));
    w.to_update = false;
    assert_eq!(w.get_updated_file(), None);
    w.change_index(1);
    assert_eq!(w.get_updated_file(), Some(s("b")));
    w.reset(vec![s("z")]);
    assert_eq!(w.index, 0);
    assert_eq!(w.get_updated_file(), Some(s("z")));
}

#[test]
fn empty_window_never_moves() {
    let mut w = CompareWindow::new(Vec::new());
    w.change_index(1);
    w.change_index(-1);
    assert_eq!(w.index, 0);
    assert_eq!(w.get_updated_file(), None);
}

#[test]
fn moving_first_cursor_resets_second() {
    let mut m = CompareManager::new(three_dups());
    m.change_file(1, 1);
    assert_eq!(m.second_window.index, 1);
    m.change_file(0, 1);
    assert_eq!(m.first_window.index, 1);
    assert_eq!(m.second_window.index, 0);
    assert_eq!(m.second_window.files, vec![s("/two/b.png")]);
    assert!(m.second_window.to_update);
    m.change_file(0, -1);
    assert_eq!(m.first_window.index, 0);
    assert_eq!(m.second_window.files, vec![s("/two/a.txt"), s("/two/x/a.txt")]);
    m.change_file(0, -1);
    assert!(!m.first_window.to_update);
    assert!(m.second_window.to_update);
}

#[test]
fn moving_second_cursor_keeps_first() {
    let mut m = CompareManager::new(three_dups());
    m.change_file(0, 1);
    m.change_file(0, 1);
    let files = m.first_window.files.clone();
    m.change_file(1, 1);
    m.change_file(1, 1);
    m.change_file(1, -1);
    assert_eq!(m.first_window.index, 2);
    assert_eq!(m.first_window.files, files);
    assert_eq!(m.second_window.index, 1);
    assert!(!m.first_window.to_update);
}

#[test]
fn new_session_sends_both_sides() {
    let mut m = CompareManager::new(three_dups());
    assert_eq!(m.first_window.files, vec![s("/one/a.txt"), s("/one/b.png"), s("/one/c.txt")]);
    assert_eq!(m.get_updated_files(), vec![Some(s("/one/a.txt")), Some(s("/two/a.txt"))]);
    assert_eq!(m.get_updated_files(), vec![None, None]);
}

#[test]
fn browsing_scenario_next_then_prev() {
    let mut session: Option<CompareManager> = None;
    assert!(start_session(&mut session, three_dups()).is_ok());
    {
        let m = session.as_mut().unwrap();
        assert_eq!(m.duplicates.len(), 3);
        m.get_updated_files();
    }
    let r = handle_text(&mut session, "4next:;0");
    assert!(matches!(r, Ok(Reply::Render)));
    assert_eq!(manager(&session).first_window.index, 1);
    assert_eq!(manager(&session).second_window.index, 0);
    assert_eq!(
        session.as_mut().unwrap().get_updated_files(),
        vec![Some(s("/one/b.png")), Some(s("/two/b.png"))]
    );
    let r = handle_text(&mut session, "4prev:;0");
    assert!(matches!(r, Ok(Reply::Render)));
    assert_eq!(manager(&session).first_window.index, 0);
    assert_eq!(manager(&session).second_window.index, 0);
    assert_eq!(
        session.as_mut().unwrap().get_updated_files(),
        vec![Some(s("/one/a.txt")), Some(s("/two/a.txt"))]
    );
}

#[test]
fn unknown_verb_leaves_session_alone() {
    let mut session: Option<CompareManager> = None;
    start_session(&mut session, three_dups()).unwrap();
    handle_text(&mut session, "4next:;0").unwrap();
    handle_text(&mut session, "4next:;1").unwrap();
    let before = (manager(&session).first_window.index, manager(&session).second_window.index);
    let r = handle_text(&mut session, "4frobnicate:;x");
    assert_eq!(r.err(), Some(SessionError::Command(CommandError::UnknownVerb)));
    let after = (manager(&session).first_window.index, manager(&session).second_window.index);
    assert_eq!(before, after);
    assert_eq!(after, (1, 0));
}

#[test]
fn steps_without_session_do_nothing() {
    let mut session: Option<CompareManager> = None;
    assert!(matches!(handle_text(&mut session, "4next:;0"), Ok(Reply::Nothing)));
    assert!(matches!(handle_text(&mut session, "4next:;5"), Ok(Reply::Nothing)));
    assert!(matches!(handle_text(&mut session, "4prev:;1"), Ok(Reply::Nothing)));
    assert!(session.is_none());
}

#[test]
fn step_on_third_side_is_an_error() {
    let mut session: Option<CompareManager> = None;
    start_session(&mut session, three_dups()).unwrap();
    assert_eq!(handle_text(&mut session, "4next:;2").err(), Some(SessionError::NoSuchWindow(2)));
    assert_eq!(manager(&session).first_window.index, 0);
}

#[test]
fn search_is_handed_out() {
    let mut session: Option<CompareManager> = None;
    match handle_text(&mut session, "4search:;dir1:/a;dir2:") {
        Ok(Reply::Search(d)) => assert_eq!(d.dirs, vec![Some(s("/a")), None]),
        other => panic!("unexpected {:?}", other),
    }
    assert!(session.is_none());
}

#[test]
fn empty_search_result_keeps_old_session() {
    let mut session: Option<CompareManager> = None;
    start_session(&mut session, three_dups()).unwrap();
    handle_text(&mut session, "4next:;0").unwrap();
    assert_eq!(start_session(&mut session, Vec::new()), Err(SessionError::NoDuplicates));
    assert_eq!(manager(&session).first_window.index, 1);
}

#[test]
fn masked_client_frame_drives_session() {
    let mut session: Option<CompareManager> = None;
    start_session(&mut session, three_dups()).unwrap();
    let text = b"4next:;0";
    let key = [3u8, 1, 4, 1];
    let mut data = vec![0x81, 0x80 | text.len() as u8];
    data.extend_from_slice(&key);
    data.extend(text.iter().enumerate().map(|(i, b)| b ^ key[i % 4]));
    assert!(matches!(handle_message(&mut session, &data), Ok(Reply::Render)));
    assert_eq!(manager(&session).first_window.index, 1);
}

#[test]
fn bad_frame_and_control_frames() {
    let mut session: Option<CompareManager> = None;
    assert!(matches!(handle_message(&mut session, &[0x83, 0x00]), Err(SessionError::Frame(_))));
    let ping = WebSocketFrame::new(true, OpCode::Ping, false, [0; 4], b"4next:;0".to_vec()).to_bytes();
    assert!(matches!(handle_message(&mut session, &ping), Ok(Reply::Nothing)));
}

#[test]
fn reply_frame_tags_images_and_text() {
    let bytes = reply_frame(0, "/one/b.png", vec![1, 2]);
    assert_eq!(bytes, vec![0x82, 6, b'i', b'm', b'g', b'1', 1, 2]);
    let bytes = reply_frame(1, "/two/notes.txt", b"hey".to_vec());
    assert_eq!(bytes, vec![0x82, 7, b't', b'x', b't', b'2', b'h', b'e', b'y']);
    let bytes = reply_frame(0, "pic.jpg", Vec::new());
    assert_eq!(&bytes[2..6], b"img1");
    let bytes = reply_frame(1, "pic.bmp.gz", Vec::new());
    assert_eq!(&bytes[2..6], b"txt2");
}

#[test]
fn search_path_with_colon_is_kept_whole() {
    let mut session: Option<CompareManager> = None;
    match handle_text(&mut session, "4search:;dir1:/data/a:b;dir2:/x") {
        Ok(Reply::Search(d)) => assert_eq!(d.dirs, vec![Some(s("/data/a:b")), Some(s("/x"))]),
        other => panic!("unexpected {:?}", other),
    }
}
