//! The compare session: two cursors over the duplicates that a search found,
//! and the handling of the client's messages.

use vstd::prelude::*;
use vstd::utf8::{decode_utf8, valid_utf8};

use crate::command::{
    before_first, chars_equal, parse_message, read_message, Command, CommandError, CommandModel,
    CompareDirs,
};
use crate::frame::{
    decode_frame, encode_frame, zero_key, FrameError, FrameModel, OpCode, WebSocketFrame,
};

verus! {

/// One name found in both trees: its path in the first tree and its paths in
/// the second.
pub struct Duplicate {
    pub file_name: String,
    pub first_dir_match: String,
    pub second_dir_match: Vec<String>,
}

/// A cursor into one side's list of candidate paths.
pub struct CompareWindow {
    pub files: Vec<String>,
    pub index: usize,
    /// Whether the file under the cursor still has to be sent.
    pub to_update: bool,
}

/// The index one step back (`direction < 0`) or forward (`direction > 0`),
/// saturating at both ends of a list of `len` items.
pub open spec fn step_index(index: usize, len: nat, direction: isize) -> usize {
    if direction < 0 && index > 0 {
        (index - 1) as usize
    } else if direction > 0 && index + 1 < len {
        (index + 1) as usize
    } else {
        index
    }
}

/// The index after `count` steps in one direction.
pub open spec fn steps(index: usize, len: nat, direction: isize, count: nat) -> usize
    decreases count,
{
    if count == 0 {
        index
    } else {
        steps(step_index(index, len, direction), len, direction, (count - 1) as nat)
    }
}

/// The path that a cursor has to send, if any.
pub open spec fn updated_file(w: CompareWindow) -> Option<String> {
    if w.to_update && w.index < w.files@.len() {
        Some(w.files@[w.index as int])
    } else {
        None
    }
}

fn clone_paths(v: &Vec<String>) -> (r: Vec<String>)
    ensures
        r@ == v@,
{
    let mut r: Vec<String> = Vec::new();
    let mut i: usize = 0;
    while i < v.len()
        invariant
            i <= v@.len(),
            r@ == v@.take(i as int),
        decreases v@.len() - i,
    {
        r.push(v[i].clone());
        assert(r@ =~= v@.take(i + 1));
        i += 1;
    }
    assert(v@.take(i as int) =~= v@);
    r
}

impl CompareWindow {
    /// The cursor points into its list, or at zero where the list is empty.
    pub open spec fn wf(&self) -> bool {
        self.index == 0 || self.index < self.files@.len()
    }

    pub fn new(files: Vec<String>) -> (r: Self)
        ensures
            r.files == files,
            r.index == 0,
            r.to_update,
            r.wf(),
    {
        CompareWindow { files, index: 0, to_update: true }
    }

    /// Steps the cursor back or forward, staying within the list; marks the
    /// cursor for sending where it moved.
    pub fn change_index(&mut self, direction: isize)
        requires
            old(self).wf(),
        ensures
            final(self).wf(),
            final(self).files == old(self).files,
            final(self).index == step_index(old(self).index, old(self).files@.len(), direction),
            final(self).to_update == (old(self).to_update || final(self).index != old(
                self,
            ).index),
    {
        if 0 < self.index && direction < 0 {
            self.index -= 1;
            self.to_update = true;
        } else if self.files.len() > 0 && self.index < self.files.len() - 1 && direction > 0 {
            self.index += 1;
            self.to_update = true;
        }
    }

    /// Points the cursor at the start of a new list and marks it for sending.
    pub fn reset(&mut self, files: Vec<String>)
        ensures
            final(self).files == files,
            final(self).index == 0,
            final(self).to_update,
            final(self).wf(),
    {
        self.files = files;
        self.index = 0;
        self.to_update = true;
    }

    /// The path under the cursor where it has to be sent.
    pub fn get_updated_file(&self) -> (r: Option<String>)
        ensures
            r == updated_file(*self),
    {
        if self.to_update && self.index < self.files.len() {
            Some(self.files[self.index].clone())
        } else {
            None
        }
    }
}

/// The first-tree path of each duplicate, in order.
pub open spec fn first_matches(dups: Seq<Duplicate>) -> Seq<String> {
    dups.map_values(|d: Duplicate| d.first_dir_match)
}

/// The duplicates of one search and a cursor on each side.
pub struct CompareManager {
    pub duplicates: Vec<Duplicate>,
    /// Over the first-tree path of every duplicate.
    pub first_window: CompareWindow,
    /// Over the second-tree paths of the duplicate under the first cursor.
    pub second_window: CompareWindow,
}

/// What `change_file` does: both marks are cleared, then the chosen cursor
/// steps; moving the first cursor resets the second onto the paths of the
/// newly chosen duplicate.
pub open spec fn change_file_post(
    old: CompareManager,
    new: CompareManager,
    window_idx: usize,
    direction: isize,
) -> bool {
    &&& new.duplicates == old.duplicates
    &&& new.first_window.files == old.first_window.files
    &&& if window_idx == 0 {
        &&& new.first_window.index == step_index(
            old.first_window.index,
            old.first_window.files@.len(),
            direction,
        )
        &&& new.first_window.to_update == (new.first_window.index != old.first_window.index)
        &&& new.second_window.files@ == old.duplicates@[new.first_window.index as int].second_dir_match@
        &&& new.second_window.index == 0
        &&& new.second_window.to_update
    } else {
        &&& new.first_window.index == old.first_window.index
        &&& !new.first_window.to_update
        &&& new.second_window.files == old.second_window.files
        &&& new.second_window.index == step_index(
            old.second_window.index,
            old.second_window.files@.len(),
            direction,
        )
        &&& new.second_window.to_update == (new.second_window.index
            != old.second_window.index)
    }
}

impl CompareManager {
    /// The first cursor ranges over every duplicate's first-tree path, and the
    /// second over the second-tree paths of the duplicate it points at.
    pub open spec fn wf(&self) -> bool {
        &&& self.duplicates@.len() > 0
        &&& self.first_window.files@ == first_matches(self.duplicates@)
        &&& self.first_window.index < self.duplicates@.len()
        &&& self.second_window.files@ == self.duplicates@[self.first_window.index as int].second_dir_match@
        &&& self.second_window.wf()
    }

    /// Opens a session on the first duplicate, both cursors marked for sending.
    pub fn new(dups: Vec<Duplicate>) -> (r: Self)
        requires
            dups@.len() > 0,
        ensures
            r.wf(),
            r.duplicates == dups,
            r.first_window.index == 0,
            r.first_window.to_update,
            r.second_window.index == 0,
            r.second_window.to_update,
    {
        let mut firsts: Vec<String> = Vec::new();
        let mut i: usize = 0;
        while i < dups.len()
            invariant
                i <= dups@.len(),
                firsts@ == first_matches(dups@).take(i as int),
            decreases dups@.len() - i,
        {
            firsts.push(dups[i].first_dir_match.clone());
            assert(firsts@ =~= first_matches(dups@).take(i + 1));
            i += 1;
        }
        assert(first_matches(dups@).take(i as int) =~= first_matches(dups@));
        let seconds = clone_paths(&dups[0].second_dir_match);
        let first_window = CompareWindow::new(firsts);
        let second_window = CompareWindow::new(seconds);
        CompareManager { duplicates: dups, first_window, second_window }
    }

    /// Steps the cursor of side `window_idx` (0 or 1) back or forward.
    pub fn change_file(&mut self, window_idx: usize, direction: isize)
        requires
            old(self).wf(),
            window_idx < 2,
        ensures
            final(self).wf(),
            change_file_post(*old(self), *final(self), window_idx, direction),
    {
        self.first_window.to_update = false;
        self.second_window.to_update = false;
        if window_idx == 0 {
            self.first_window.change_index(direction);
            let files = clone_paths(&self.duplicates[self.first_window.index].second_dir_match);
            self.second_window.reset(files);
        } else {
            self.second_window.change_index(direction);
        }
    }

    /// The path each cursor has to send, in side order; clears both marks.
    pub fn get_updated_files(&mut self) -> (r: Vec<Option<String>>)
        requires
            old(self).wf(),
        ensures
            final(self).wf(),
            r@ == seq![updated_file(old(self).first_window), updated_file(old(self).second_window)],
            final(self).duplicates == old(self).duplicates,
            final(self).first_window.files == old(self).first_window.files,
            final(self).first_window.index == old(self).first_window.index,
            final(self).second_window.files == old(self).second_window.files,
            final(self).second_window.index == old(self).second_window.index,
            !final(self).first_window.to_update,
            !final(self).second_window.to_update,
    {
        let mut r: Vec<Option<String>> = Vec::new();
        r.push(self.first_window.get_updated_file());
        r.push(self.second_window.get_updated_file());
        self.first_window.to_update = false;
        self.second_window.to_update = false;
        assert(r@ =~= seq![
            updated_file(old(self).first_window),
            updated_file(old(self).second_window),
        ]);
        r
    }
}

/// The text that a lossy UTF-8 decoder makes of a byte sequence.
pub uninterp spec fn utf8_lossy(b: Seq<u8>) -> Seq<char>;

/// Relies on `String::from_utf8_lossy`: the text of the bytes, each invalid
/// sequence replaced by U+FFFD; valid UTF-8 comes out decoded as it is.
#[verifier::external_body]
fn lossy_text(b: &[u8]) -> (r: String)
    ensures
        r@ == utf8_lossy(b@),
        valid_utf8(b@) ==> r@ == decode_utf8(b@),
{
    String::from_utf8_lossy(b).into_owned()
}

/// The text that a frame's payload carries: the decoded text of valid UTF-8,
/// else its lossy decoding.
pub open spec fn payload_text(payload: Seq<u8>) -> Seq<char> {
    if valid_utf8(payload) {
        decode_utf8(payload)
    } else {
        utf8_lossy(payload)
    }
}

/// What the connection has to do after a message.
#[derive(Debug)]
pub enum Reply {
    /// Nothing that the client has to see changed.
    Nothing,
    /// Run the duplicate search on these directories and hand its result to
    /// `start_session`.
    Search(CompareDirs),
    /// Send the files that `CompareManager::get_updated_files` names.
    Render,
}

/// Why a message was dropped. None of these closes the connection.
#[derive(Clone, Copy, Debug, PartialEq, Eq, Structural)]
pub enum SessionError {
    Frame(FrameError),
    Command(CommandError),
    /// A cursor command named a side other than 0 and 1.
    NoSuchWindow(usize),
    /// A search found no duplicate to browse.
    NoDuplicates,
}

/// An absent session, or a well-formed one.
pub open spec fn session_wf(s: Option<CompareManager>) -> bool {
    s matches Some(m) ==> m.wf()
}

/// What a cursor command does to the session, and the reply: nothing
/// without a session; with one, a step of side 0 or 1.
pub open spec fn cursor_effect(
    old: Option<CompareManager>,
    new: Option<CompareManager>,
    window_idx: usize,
    direction: isize,
    r: Result<Reply, SessionError>,
) -> bool {
    match old {
        None => new is None && (r matches Ok(Reply::Nothing)),
        Some(m) => if window_idx >= 2 {
            new == old && r == Err::<Reply, SessionError>(SessionError::NoSuchWindow(window_idx))
        } else {
            (new matches Some(m2) && change_file_post(m, m2, window_idx, direction)) && (
            r matches Ok(Reply::Render))
        },
    }
}

/// What a command does to the session, and the reply: a search is handed
/// out, a step moves a cursor of an open session.
pub open spec fn command_effect(
    old: Option<CompareManager>,
    new: Option<CompareManager>,
    c: CommandModel,
    r: Result<Reply, SessionError>,
) -> bool {
    match c {
        CommandModel::Search(dirs) => (r matches Ok(Reply::Search(d)) && d@ == dirs) && new == old,
        CommandModel::Next(i) => cursor_effect(old, new, i, 1isize, r),
        CommandModel::Prev(i) => cursor_effect(old, new, i, -1isize, r),
    }
}

/// What a message text does to the session, and the reply. A text that is
/// no valid command leaves the session as it was.
pub open spec fn text_effect(
    old: Option<CompareManager>,
    new: Option<CompareManager>,
    text: Seq<char>,
    r: Result<Reply, SessionError>,
) -> bool {
    match read_message(text) {
        Err(e) => new == old && r == Err::<Reply, SessionError>(SessionError::Command(e)),
        Ok(None) => new == old && (r matches Ok(Reply::Nothing)),
        Ok(Some(c)) => command_effect(old, new, c, r),
    }
}

/// What a frame's bytes do to the session, and the reply. Only text and
/// binary frames carry commands.
pub open spec fn message_effect(
    old: Option<CompareManager>,
    new: Option<CompareManager>,
    data: Seq<u8>,
    r: Result<Reply, SessionError>,
) -> bool {
    match decode_frame(data) {
        Err(e) => new == old && r == Err::<Reply, SessionError>(SessionError::Frame(e)),
        Ok(f) => if f.opcode == OpCode::Text || f.opcode == OpCode::Binary {
            text_effect(old, new, payload_text(f.payload), r)
        } else {
            new == old && (r matches Ok(Reply::Nothing))
        },
    }
}

/// Applies one command to the session.
pub fn handle_command(session: &mut Option<CompareManager>, command: Command) -> (r: Result<
    Reply,
    SessionError,
>)
    requires
        session_wf(*old(session)),
    ensures
        session_wf(*final(session)),
        command_effect(*old(session), *final(session), command@, r),
{
    let (window_idx, direction): (usize, isize) = match command {
        Command::Search(dirs) => {
            return Ok(Reply::Search(dirs));
        },
        Command::Next(i) => (i, 1),
        Command::Prev(i) => (i, -1),
    };
    match session {
        Some(m) => {
            if window_idx >= 2 {
                return Err(SessionError::NoSuchWindow(window_idx));
            }
            m.change_file(window_idx, direction);
            Ok(Reply::Render)
        },
        None => Ok(Reply::Nothing),
    }
}

/// Applies one message text to the session.
pub fn handle_text(session: &mut Option<CompareManager>, text: &str) -> (r: Result<
    Reply,
    SessionError,
>)
    requires
        session_wf(*old(session)),
    ensures
        session_wf(*final(session)),
        text_effect(*old(session), *final(session), text@, r),
{
    match parse_message(text) {
        Err(e) => Err(SessionError::Command(e)),
        Ok(None) => Ok(Reply::Nothing),
        Ok(Some(c)) => handle_command(session, c),
    }
}

/// Applies the frame at the start of `frame_data` to the session.
pub fn handle_message(session: &mut Option<CompareManager>, frame_data: &[u8]) -> (r: Result<
    Reply,
    SessionError,
>)
    requires
        session_wf(*old(session)),
    ensures
        session_wf(*final(session)),
        message_effect(*old(session), *final(session), frame_data@, r),
{
    let frame = match WebSocketFrame::from_bytes(frame_data) {
        Ok(f) => f,
        Err(e) => return Err(SessionError::Frame(e)),
    };
    match frame.op_code {
        OpCode::Text | OpCode::Binary => {
            let text = lossy_text(frame.payload_data.as_slice());
            handle_text(session, text.as_str())
        },
        _ => Ok(Reply::Nothing),
    }
}

/// Opens a new session on what a search found, replacing any earlier one;
/// an empty result leaves the session as it was.
pub fn start_session(session: &mut Option<CompareManager>, dups: Vec<Duplicate>) -> (r: Result<
    (),
    SessionError,
>)
    requires
        session_wf(*old(session)),
    ensures
        session_wf(*final(session)),
        dups@.len() == 0 ==> (r == Err::<(), SessionError>(SessionError::NoDuplicates)
            && *final(session) == *old(session)),
        dups@.len() > 0 ==> r is Ok && (*final(session) matches Some(m) && m.duplicates == dups
            && m.first_window.index == 0 && m.first_window.to_update && m.second_window.index == 0
            && m.second_window.to_update),
{
    if dups.len() == 0 {
        return Err(SessionError::NoDuplicates);
    }
    *session = Some(CompareManager::new(dups));
    Ok(())
}

/// Whether `s` ends with `suffix`.
pub open spec fn ends_with(s: Seq<char>, suffix: Seq<char>) -> bool {
    s.len() >= suffix.len() && s.skip(s.len() - suffix.len()) == suffix
}

/// Paths that the client shows as images.
pub open spec fn is_image_path(path: Seq<char>) -> bool {
    ends_with(path, ".png"@) || ends_with(path, ".jpg"@) || ends_with(path, ".bmp"@)
}

/// The rendering tag of a path: `img` for images, else `txt`.
pub open spec fn file_tag(path: Seq<char>) -> Seq<u8> {
    if is_image_path(path) {
        seq![0x69u8, 0x6du8, 0x67u8]
    } else {
        seq![0x74u8, 0x78u8, 0x74u8]
    }
}

/// The frame that sends a file to the client: the tag, the side counted
/// from one, then the file's bytes.
pub open spec fn reply_model(window_idx: nat, path: Seq<char>, content: Seq<u8>) -> FrameModel {
    FrameModel {
        fin: true,
        opcode: OpCode::Binary,
        masked: false,
        masking_key: zero_key(),
        payload: file_tag(path) + seq![(0x31 + window_idx) as u8] + content,
    }
}

fn str_ends_with(s: &str, suffix: &str) -> (r: bool)
    ensures
        r == ends_with(s@, suffix@),
{
    let n = s.unicode_len();
    let k = suffix.unicode_len();
    if n < k {
        return false;
    }
    let tail = s.substring_char(n - k, n);
    assert(tail@ =~= s@.skip(n - k));
    chars_equal(tail, suffix)
}

/// The bytes of the frame that sends the file at `path`, read as `content`,
/// for side `window_idx`.
pub fn reply_frame(window_idx: usize, path: &str, content: Vec<u8>) -> (r: Vec<u8>)
    requires
        window_idx < 2,
        content@.len() + 4 <= usize::MAX,
    ensures
        r@ == encode_frame(reply_model(window_idx as nat, path@, content@)),
{
    let mut payload: Vec<u8> = Vec::new();
    if str_ends_with(path, ".png") || str_ends_with(path, ".jpg") || str_ends_with(path, ".bmp") {
        payload.push(0x69);
        payload.push(0x6d);
        payload.push(0x67);
        assert(payload@ =~= file_tag(path@));
    } else {
        payload.push(0x74);
        payload.push(0x78);
        payload.push(0x74);
        assert(payload@ =~= file_tag(path@));
    }
    payload.push(0x31 + window_idx as u8);
    let ghost body = content@;
    let mut content = content;
    payload.append(&mut content);
    assert(payload@ =~= file_tag(path@) + seq![(0x31 + window_idx) as u8] + body);
    let frame = WebSocketFrame::new(true, OpCode::Binary, false, [0u8; 4], payload);
    assert(frame.masking_key@ =~= zero_key());
    frame.to_bytes()
}

/// Stepping back from the first position, or forward from the last, any
/// number of times leaves a cursor where it is.
pub proof fn lemma_cursor_saturates(len: nat, count: nat)
    requires
        0 < len <= usize::MAX,
    ensures
        steps(0, len, -1isize, count) == 0,
        steps((len - 1) as usize, len, 1isize, count) == len - 1,
    decreases count,
{
    if count > 0 {
        lemma_cursor_saturates(len, (count - 1) as nat);
    }
}

/// Moving the first cursor puts the second at the start of the second-tree
/// paths of the newly chosen duplicate; moving the second leaves the first
/// cursor's position and list as they were.
pub proof fn lemma_cursor_coupling(
    old: CompareManager,
    new: CompareManager,
    window_idx: usize,
    direction: isize,
)
    requires
        old.wf(),
        window_idx < 2,
        change_file_post(old, new, window_idx, direction),
    ensures
        window_idx == 0 ==> new.second_window.index == 0 && new.second_window.files@
            == new.duplicates@[new.first_window.index as int].second_dir_match@,
        window_idx == 1 ==> new.first_window.index == old.first_window.index
            && new.first_window.files == old.first_window.files,
{
}

/// A message whose verb is none of `search`, `next` and `prev` is rejected as
/// an unknown verb, and the session stays as it was.
pub proof fn lemma_unknown_verb(
    old: Option<CompareManager>,
    new: Option<CompareManager>,
    text: Seq<char>,
    r: Result<Reply, SessionError>,
)
    requires
        text.len() > 0,
        text[0] == '4',
        before_first(before_first(text.drop_first(), ';'), ':') != "search"@,
        before_first(before_first(text.drop_first(), ';'), ':') != "next"@,
        before_first(before_first(text.drop_first(), ';'), ':') != "prev"@,
        text_effect(old, new, text, r),
    ensures
        r == Err::<Reply, SessionError>(SessionError::Command(CommandError::UnknownVerb)),
        new == old,
{
}

} // verus!
