//! The log: the lines that are kept, and the file they go to.

use std::collections::VecDeque;

use vstd::prelude::*;

use crate::text::{lemma_texts_push, str_texts, texts};

verus! {

/// The most lines that are kept.
pub const MAX_LOG_LINES: usize = 800;

/// The size in bytes from which on a log file is put aside.
pub const MAX_LOG_BYTES: u64 = 10_485_760;

/// The last lines, as many as are kept.
pub open spec fn newest(lines: Seq<Seq<char>>) -> Seq<Seq<char>> {
    if lines.len() > MAX_LOG_LINES {
        lines.skip(lines.len() - MAX_LOG_LINES)
    } else {
        lines
    }
}

/// A line of the log: the time in brackets and the message.
pub open spec fn line_text(stamp: Seq<char>, message: Seq<char>) -> Seq<char> {
    "["@ + stamp + "] "@ + message
}

/// The lines of the log, the newest one last.
#[derive(Debug)]
pub struct LogBuffer {
    pub lines: VecDeque<String>,
}

impl View for LogBuffer {
    type V = Seq<Seq<char>>;

    open spec fn view(&self) -> Seq<Seq<char>> {
        texts(self.lines@)
    }
}

impl LogBuffer {
    pub fn new() -> (log: Self)
        ensures
            log@ == Seq::<Seq<char>>::empty(),
    {
        let log: LogBuffer = LogBuffer { lines: VecDeque::new() };
        assert(log@ =~= Seq::<Seq<char>>::empty());
        log
    }

    /// Adds a line; the oldest lines are dropped where there are too many. The line is also what
    /// goes to the file.
    pub fn push_log(&mut self, stamp: &str, message: &str) -> (line: String)
        ensures
            line@ == line_text(stamp@, message@),
            final(self)@ == newest(old(self)@.push(line_text(stamp@, message@))),
            old(self)@.len() <= MAX_LOG_LINES ==> final(self)@.len() <= MAX_LOG_LINES,
    {
        let mut line: String = "[".to_owned();
        line.append(stamp);
        line.append("] ");
        line.append(message);
        let kept: String = line.clone();
        proof {
            lemma_texts_push(self.lines@, kept);
        }
        self.lines.push_back(kept);
        let ghost all = self@;
        assert(all.skip(0) =~= all);
        while self.lines.len() > MAX_LOG_LINES
            invariant
                self@.len() <= all.len(),
                self@ == all.skip(all.len() - self@.len()),
                all.len() <= MAX_LOG_LINES ==> self@.len() == all.len(),
                all.len() > MAX_LOG_LINES ==> self@.len() >= MAX_LOG_LINES,
            decreases self@.len(),
        {
            let ghost held = self.lines@;
            let ghost shown = self@;
            self.lines.pop_front();
            assert(self.lines@ =~= held.drop_first());
            assert(self@ =~= shown.drop_first());
            assert(shown.drop_first() =~= all.skip(all.len() - (shown.len() - 1)));
        }
        assert(all.len() <= MAX_LOG_LINES ==> self@ =~= all);
        line
    }

    pub fn clear(&mut self)
        ensures
            final(self)@ == Seq::<Seq<char>>::empty(),
    {
        self.lines.clear();
        assert(self@ =~= Seq::<Seq<char>>::empty());
    }
}

// ---------------------------------------------------------------------
// The log file
// ---------------------------------------------------------------------

/// Where the log file stands, seen from the directory of the application.
pub open spec fn log_path() -> Seq<Seq<char>> {
    seq!["logs"@, "net-combiner.log"@]
}

pub fn log_path_parts() -> (parts: Vec<&'static str>)
    ensures
        str_texts(parts@) == log_path(),
{
    let mut parts: Vec<&'static str> = Vec::new();
    parts.push("logs");
    parts.push("net-combiner.log");
    assert(str_texts(parts@) =~= log_path());
    parts
}

/// The extension of a log file that was put aside.
pub fn rotated_extension() -> (extension: &'static str)
    ensures
        extension@ == "log.1"@,
{
    "log.1"
}

/// Whether the log file is put aside; `len` is its size, if it exists.
pub fn rotate_log_if_large(len: Option<u64>) -> (rotate: bool)
    ensures
        rotate == (len is Some && len->0 > MAX_LOG_BYTES),
{
    match len {
        Some(bytes) => bytes > MAX_LOG_BYTES,
        None => false,
    }
}

/// The bytes that mark a file as UTF-8.
pub open spec fn byte_order_mark() -> Seq<u8> {
    seq![0xefu8, 0xbbu8, 0xbfu8]
}

/// Whether the bytes start with the mark.
pub open spec fn marked(bytes: Seq<u8>) -> bool {
    bytes.len() >= 3 && bytes.take(3) == byte_order_mark()
}

/// What the log file is to hold before lines are added: the mark and what it held. Nothing is to
/// be written where it starts with the mark.
pub fn ensure_utf8_bom(existing: Option<&[u8]>) -> (contents: Option<Vec<u8>>)
    ensures
        contents is None <==> existing is Some && marked(existing->0@),
        contents matches Some(bytes) ==> bytes@ == byte_order_mark() + (match existing {
            Some(held) => held@,
            None => Seq::empty(),
        }),
{
    let mut contents: Vec<u8> = Vec::new();
    contents.push(0xef);
    contents.push(0xbb);
    contents.push(0xbf);
    assert(contents@ =~= byte_order_mark());
    match existing {
        None => {
            assert(byte_order_mark() + Seq::empty() =~= byte_order_mark());
            Some(contents)
        },
        Some(held) => {
            if held.len() >= 3 && held[0] == 0xef && held[1] == 0xbb && held[2] == 0xbf {
                assert(held@.take(3) =~= byte_order_mark());
                return None;
            }
            proof {
                if marked(held@) {
                    let head = held@.take(3);
                    assert(head[0] == held@[0] && head[1] == held@[1] && head[2] == held@[2]);
                }
            }
            let mut i: usize = 0;
            assert(contents@ =~= byte_order_mark() + held@.take(0));
            while i < held.len()
                invariant
                    i <= held@.len(),
                    contents@ == byte_order_mark() + held@.take(i as int),
                decreases held@.len() - i,
            {
                contents.push(held[i]);
                i += 1;
                assert(contents@ =~= byte_order_mark() + held@.take(i as int));
            }
            assert(held@.take(i as int) =~= held@);
            Some(contents)
        },
    }
}

/// The line on the log file: where it is, or why it could not be opened.
pub fn log_file_message(path: &str, error: Option<&str>) -> (message: String)
    ensures
        message@ == (match error {
            Some(error) => "failed to open log file "@ + path@ + ": "@ + error@,
            None => "logging to "@ + path@,
        }),
{
    match error {
        Some(error) => {
            let mut message: String = "failed to open log file ".to_owned();
            message.append(path);
            message.append(": ");
            message.append(error);
            message
        },
        None => {
            let mut message: String = "logging to ".to_owned();
            message.append(path);
            message
        },
    }
}

/// What is written into a log file carries the mark, so that it is not marked twice.
pub proof fn law_marked_once(held: Seq<u8>)
    ensures
        marked(byte_order_mark() + held),
        marked(byte_order_mark()),
{
    assert((byte_order_mark() + held).take(3) =~= byte_order_mark());
    assert(byte_order_mark().take(3) =~= byte_order_mark());
}

/// The lines that are kept are the newest ones: the last line is always among them.
pub proof fn law_last_line_is_kept(lines: Seq<Seq<char>>, line: Seq<char>)
    ensures
        newest(lines.push(line)).len() > 0,
        newest(lines.push(line)).last() == line,
        newest(lines.push(line)).len() <= MAX_LOG_LINES,
{
}

/// Up to 800 lines are kept, and they are the newest ones in their order.
pub proof fn law_newest_lines_are_kept(lines: Seq<Seq<char>>, i: int)
    ensures
        lines.len() <= 800 ==> newest(lines) == lines,
        lines.len() > 800 ==> newest(lines).len() == 800,
        lines.len() > 800 && 0 <= i < 800 ==> newest(lines)[i] == lines[lines.len() - 800 + i],
{
}

/// A line is the time in brackets, a space and the message.
pub proof fn law_line_of_the_log(stamp: Seq<char>, message: Seq<char>)
    ensures
        line_text(stamp, message).len() == stamp.len() + message.len() + 3,
        line_text(stamp, message)[0] == '[',
        line_text(stamp, message).subrange(1, 1 + stamp.len() as int) == stamp,
        line_text(stamp, message)[1 + stamp.len() as int] == ']',
        line_text(stamp, message)[2 + stamp.len() as int] == ' ',
        line_text(stamp, message).skip(3 + stamp.len() as int) == message,
{
    reveal_strlit("[");
    reveal_strlit("] ");
    assert(line_text(stamp, message).subrange(1, 1 + stamp.len() as int) =~= stamp);
    assert(line_text(stamp, message).skip(3 + stamp.len() as int) =~= message);
}

/// The mark is the three bytes EF BB BF, and a file is marked where it starts with them.
pub proof fn law_mark_of_the_log(bytes: Seq<u8>)
    ensures
        byte_order_mark() == seq![239u8, 187u8, 191u8],
        bytes.len() < 3 ==> !marked(bytes),
        bytes.len() >= 3 ==> (marked(bytes) <==> bytes[0] == 239 && bytes[1] == 187 && bytes[2]
            == 191),
        MAX_LOG_BYTES == 10 * 1024 * 1024,
        log_path() == seq!["logs"@, "net-combiner.log"@],
{
    if bytes.len() >= 3 {
        let head = bytes.take(3);
        assert(head[0] == bytes[0] && head[1] == bytes[1] && head[2] == bytes[2]);
        if bytes[0] == 239 && bytes[1] == 187 && bytes[2] == 191 {
            assert(head =~= byte_order_mark());
        }
    }
}

} // verus!
