//! The text commands that a client sends: start a search, or step a cursor.

use vstd::prelude::*;

verus! {

/// The two directories of a search; either may be absent.
#[derive(Debug)]
pub struct CompareDirs {
    pub dirs: Vec<Option<String>>,
}

/// A command of the client.
#[derive(Debug)]
pub enum Command {
    /// Compare two directory trees.
    Search(CompareDirs),
    /// Step the cursor of the given side back.
    Prev(usize),
    /// Step the cursor of the given side forward.
    Next(usize),
}

/// Why a command line could not be read.
#[derive(Clone, Copy, Debug, PartialEq, Eq, Structural)]
pub enum CommandError {
    /// The verb is none of `search`, `next` and `prev`.
    UnknownVerb,
    /// The side of a `next` or `prev` is no unsigned integer.
    InvalidIndex,
}

/// What a command means.
pub enum CommandModel {
    Search(Seq<Option<Seq<char>>>),
    Prev(usize),
    Next(usize),
}

impl View for CompareDirs {
    type V = Seq<Option<Seq<char>>>;

    open spec fn view(&self) -> Seq<Option<Seq<char>>> {
        self.dirs.deep_view()
    }
}

impl View for Command {
    type V = CommandModel;

    open spec fn view(&self) -> CommandModel {
        match self {
            Command::Search(d) => CommandModel::Search(d@),
            Command::Prev(i) => CommandModel::Prev(*i),
            Command::Next(i) => CommandModel::Next(*i),
        }
    }
}

/// The position of the first `c` in `s`, or the length of `s` where there is
/// none.
pub open spec fn first_index(s: Seq<char>, c: char) -> nat
    decreases s.len(),
{
    if s.len() == 0 {
        0
    } else if s[0] == c {
        0
    } else {
        1 + first_index(s.drop_first(), c)
    }
}

/// What precedes the first `c`, or all of `s`.
pub open spec fn before_first(s: Seq<char>, c: char) -> Seq<char> {
    s.take(first_index(s, c) as int)
}

/// What follows the first `c`, if there is one.
pub open spec fn after_first(s: Seq<char>, c: char) -> Option<Seq<char>> {
    if first_index(s, c) < s.len() {
        Some(s.skip(first_index(s, c) + 1int))
    } else {
        None
    }
}

/// The directory that a `key:path` part names: all that follows the first
/// `:`, or the whole part where it has none; an empty path names none.
pub open spec fn dir_of(part: Seq<char>) -> Option<Seq<char>> {
    let p = match after_first(part, ':') {
        Some(rest) => rest,
        None => part,
    };
    if p.len() == 0 {
        None
    } else {
        Some(p)
    }
}

/// The two directories of `dir1:<path>;dir2:<path>`, by the first two
/// `;`-separated parts.
pub open spec fn parse_dirs(text: Seq<char>) -> Seq<Option<Seq<char>>> {
    seq![
        dir_of(before_first(text, ';')),
        match after_first(text, ';') {
            Some(r) => dir_of(before_first(r, ';')),
            None => None,
        },
    ]
}

pub open spec fn is_digit(c: char) -> bool {
    '0' <= c && c <= '9'
}

/// The number that a run of decimal digits spells.
pub open spec fn digits_value(s: Seq<char>) -> nat
    decreases s.len(),
{
    if s.len() == 0 {
        0
    } else {
        (digits_value(s.drop_last()) * 10 + (s.last() as u32 - '0' as u32)) as nat
    }
}

/// The digits of an unsigned integer, after an optional `+`.
pub open spec fn unsigned_digits(s: Seq<char>) -> Seq<char> {
    if s.len() > 0 && s[0] == '+' {
        s.drop_first()
    } else {
        s
    }
}

/// The `usize` that `s` writes in decimal, if it writes one.
pub open spec fn parse_index(s: Seq<char>) -> Option<usize> {
    let d = unsigned_digits(s);
    if d.len() > 0 && (forall|i: int| 0 <= i < d.len() ==> is_digit(#[trigger] d[i]))
        && digits_value(d) <= usize::MAX {
        Some(digits_value(d) as usize)
    } else {
        None
    }
}

/// What a command line `verb:value;argument` means.
pub open spec fn parse_command(text: Seq<char>) -> Result<CommandModel, CommandError> {
    let verb = before_first(before_first(text, ';'), ':');
    let rest = match after_first(text, ';') {
        Some(r) => r,
        None => Seq::empty(),
    };
    if verb == "search"@ {
        Ok(CommandModel::Search(parse_dirs(rest)))
    } else if verb == "next"@ || verb == "prev"@ {
        match parse_index(rest) {
            Some(i) => Ok(
                if verb == "next"@ {
                    CommandModel::Next(i)
                } else {
                    CommandModel::Prev(i)
                },
            ),
            None => Err(CommandError::InvalidIndex),
        }
    } else {
        Err(CommandError::UnknownVerb)
    }
}

/// What a message text means: a command where it starts with the message
/// marker `4`, else nothing.
pub open spec fn read_message(text: Seq<char>) -> Result<Option<CommandModel>, CommandError> {
    if text.len() > 0 && text[0] == '4' {
        match parse_command(text.drop_first()) {
            Ok(c) => Ok(Some(c)),
            Err(e) => Err(e),
        }
    } else {
        Ok(None)
    }
}

/// A prefix of a run of digits spells no more than the whole run.
proof fn lemma_digits_prefix(s: Seq<char>, j: int)
    requires
        0 <= j <= s.len(),
        forall|i: int| 0 <= i < s.len() ==> is_digit(#[trigger] s[i]),
    ensures
        digits_value(s.take(j)) <= digits_value(s),
    decreases s.len(),
{
    if j == s.len() {
        assert(s.take(j) =~= s);
    } else {
        assert(s.take(j) =~= s.drop_last().take(j));
        lemma_digits_prefix(s.drop_last(), j);
    }
}

fn find_char(s: &str, c: char) -> (r: usize)
    ensures
        r == first_index(s@, c),
        r <= s@.len(),
{
    let n = s.unicode_len();
    let mut i: usize = 0;
    assert(s@.skip(0) =~= s@);
    while i < n
        invariant
            n == s@.len(),
            i <= n,
            first_index(s@, c) == i + first_index(s@.skip(i as int), c),
        decreases n - i,
    {
        assert(s@.skip(i as int)[0] == s@[i as int]);
        if s.get_char(i) == c {
            return i;
        }
        assert(s@.skip(i as int).drop_first() =~= s@.skip(i + 1));
        i += 1;
    }
    assert(s@.skip(i as int).len() == 0);
    i
}

pub(crate) fn chars_equal(a: &str, b: &str) -> (r: bool)
    ensures
        r == (a@ == b@),
{
    let n = a.unicode_len();
    if n != b.unicode_len() {
        return false;
    }
    let mut i: usize = 0;
    while i < n
        invariant
            n == a@.len(),
            n == b@.len(),
            i <= n,
            forall|j: int| 0 <= j < i ==> a@[j] == b@[j],
        decreases n - i,
    {
        if a.get_char(i) != b.get_char(i) {
            return false;
        }
        i += 1;
    }
    assert(a@ =~= b@);
    true
}

/// Reads an unsigned decimal integer, with an optional leading `+`.
pub fn parse_index_str(s: &str) -> (r: Option<usize>)
    ensures
        r == parse_index(s@),
{
    let n = s.unicode_len();
    let mut start: usize = 0;
    if n > 0 && s.get_char(0) == '+' {
        start = 1;
    }
    let ghost d = s@.skip(start as int);
    assert(d =~= unsigned_digits(s@));
    if start == n {
        return None;
    }
    let mut i: usize = start;
    while i < n
        invariant
            n == s@.len(),
            start <= i <= n,
            d == s@.skip(start as int),
            d == unsigned_digits(s@),
            forall|j: int| start <= j < i ==> is_digit(#[trigger] s@[j]),
        decreases n - i,
    {
        let ch = s.get_char(i);
        if !('0' <= ch && ch <= '9') {
            assert(d[i - start] == ch);
            assert(!is_digit(d[i - start]));
            return None;
        }
        i += 1;
    }
    assert(forall|j: int| 0 <= j < d.len() ==> is_digit(#[trigger] d[j])) by {
        assert(forall|j: int| 0 <= j < d.len() ==> d[j] == s@[start + j]);
    }
    let mut v: usize = 0;
    i = start;
    assert(s@.subrange(start as int, start as int) =~= Seq::<char>::empty());
    while i < n
        invariant
            n == s@.len(),
            start <= i <= n,
            d == s@.skip(start as int),
            d == unsigned_digits(s@),
            forall|j: int| 0 <= j < d.len() ==> is_digit(#[trigger] d[j]),
            v == digits_value(s@.subrange(start as int, i as int)),
        decreases n - i,
    {
        let ch = s.get_char(i);
        assert(is_digit(d[i - start]));
        let digit = (ch as u32 - '0' as u32) as usize;
        let ghost next = s@.subrange(start as int, i + 1);
        assert(next.drop_last() =~= s@.subrange(start as int, i as int));
        assert(next =~= d.take(i + 1 - start));
        assert(next.last() == ch);
        assert(digits_value(next) == v * 10 + digit);
        proof {
            lemma_digits_prefix(d, i + 1 - start);
        }
        match v.checked_mul(10) {
            None => {
                return None;
            },
            Some(m) => match m.checked_add(digit) {
                None => {
                    return None;
                },
                Some(x) => {
                    v = x;
                },
            },
        }
        i += 1;
    }
    assert(s@.subrange(start as int, n as int) =~= d);
    Some(v)
}

fn dir_from_part(part: &str) -> (r: Option<String>)
    ensures
        r.deep_view() == dir_of(part@),
{
    let n = part.unicode_len();
    let k = find_char(part, ':');
    let p = if k < n {
        part.substring_char(k + 1, n)
    } else {
        part
    };
    assert(p@ =~= match after_first(part@, ':') {
        Some(rest) => rest,
        None => part@,
    });
    if p.is_empty() {
        None
    } else {
        Some(String::from_str(p))
    }
}

impl CompareDirs {
    /// Reads `dir1:<path>;dir2:<path>`.
    pub fn parse(text: &str) -> (r: CompareDirs)
        ensures
            r@ == parse_dirs(text@),
    {
        let n = text.unicode_len();
        let k = find_char(text, ';');
        let first = dir_from_part(text.substring_char(0, k));
        let second = if k < n {
            let rest = text.substring_char(k + 1, n);
            let k2 = find_char(rest, ';');
            dir_from_part(rest.substring_char(0, k2))
        } else {
            None
        };
        let mut dirs: Vec<Option<String>> = Vec::new();
        dirs.push(first);
        dirs.push(second);
        let r = CompareDirs { dirs };
        assert(r@ =~= parse_dirs(text@));
        r
    }
}

impl Command {
    /// Reads a command line `verb:value;argument`.
    pub fn parse(content: &str) -> (r: Result<Command, CommandError>)
        ensures
            match r {
                Ok(c) => parse_command(content@) == Ok::<CommandModel, CommandError>(c@),
                Err(e) => parse_command(content@) == Err::<CommandModel, CommandError>(e),
            },
    {
        let n = content.unicode_len();
        let k = find_char(content, ';');
        let head = content.substring_char(0, k);
        let verb = head.substring_char(0, find_char(head, ':'));
        let rest = if k < n {
            content.substring_char(k + 1, n)
        } else {
            content.substring_char(n, n)
        };
        assert(rest@ =~= match after_first(content@, ';') {
            Some(r) => r,
            None => Seq::empty(),
        });
        if chars_equal(verb, "search") {
            Ok(Command::Search(CompareDirs::parse(rest)))
        } else if chars_equal(verb, "next") {
            match parse_index_str(rest) {
                Some(i) => Ok(Command::Next(i)),
                None => Err(CommandError::InvalidIndex),
            }
        } else if chars_equal(verb, "prev") {
            match parse_index_str(rest) {
                Some(i) => Ok(Command::Prev(i)),
                None => Err(CommandError::InvalidIndex),
            }
        } else {
            Err(CommandError::UnknownVerb)
        }
    }
}

/// Reads a message text: a command after the message marker `4`, nothing
/// after any other marker.
pub fn parse_message(text: &str) -> (r: Result<Option<Command>, CommandError>)
    ensures
        match r {
            Ok(Some(c)) => read_message(text@) == Ok::<Option<CommandModel>, CommandError>(
                Some(c@),
            ),
            Ok(None) => read_message(text@) == Ok::<Option<CommandModel>, CommandError>(None),
            Err(e) => read_message(text@) == Err::<Option<CommandModel>, CommandError>(e),
        },
{
    let n = text.unicode_len();
    if n > 0 && text.get_char(0) == '4' {
        let body = text.substring_char(1, n);
        assert(body@ =~= text@.drop_first());
        match Command::parse(body) {
            Ok(c) => Ok(Some(c)),
            Err(e) => Err(e),
        }
    } else {
        Ok(None)
    }
}

} // verus!
