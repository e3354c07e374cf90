//! On-device diagnostics: the lines of a log file that stays within a size,
//! and a page that shows the tail of that file, so that the log is readable on
//! the device itself.
use vstd::prelude::*;
use vstd::utf8::*;

use crate::text;

verus! {

/// The log file is capped so that a chatty page cannot fill the device
/// storage; when the cap is hit the file restarts.
pub const MAX_LOG_FILE_BYTES: u64 = 8 * 1024 * 1024;

/// How many trailing bytes of the log the page serves.
pub const TAIL_BYTES: usize = 160 * 1024;

/// The severity of a log record.
#[derive(Clone, Copy, Debug, Eq, PartialEq, Structural)]
pub enum Level {
    Error,
    Warn,
    Info,
    Debug,
    Trace,
}

/// The least severe level that a filter lets through.
#[derive(Clone, Copy, Debug, Eq, PartialEq, Structural)]
pub enum LevelFilter {
    Off,
    Error,
    Warn,
    Info,
    Debug,
    Trace,
}

/// How far down a level is.
pub open spec fn verbosity(level: Level) -> int {
    match level {
        Level::Error => 1,
        Level::Warn => 2,
        Level::Info => 3,
        Level::Debug => 4,
        Level::Trace => 5,
    }
}

/// How far down a filter goes.
pub open spec fn reach(filter: LevelFilter) -> int {
    match filter {
        LevelFilter::Off => 0,
        LevelFilter::Error => 1,
        LevelFilter::Warn => 2,
        LevelFilter::Info => 3,
        LevelFilter::Debug => 4,
        LevelFilter::Trace => 5,
    }
}

/// Whether a filter lets a level through.
fn within(level: Level, filter: LevelFilter) -> (result: bool)
    ensures
        result == (verbosity(level) <= reach(filter)),
{
    let level: u8 = match level {
        Level::Error => 1,
        Level::Warn => 2,
        Level::Info => 3,
        Level::Debug => 4,
        Level::Trace => 5,
    };
    let filter: u8 = match filter {
        LevelFilter::Off => 0,
        LevelFilter::Error => 1,
        LevelFilter::Warn => 2,
        LevelFilter::Info => 3,
        LevelFilter::Debug => 4,
        LevelFilter::Trace => 5,
    };
    level <= filter
}

/// One filter lets a record through: its prefix begins the record's target, and
/// the record is severe enough.
pub open spec fn lets_through(
    filter: (String, LevelFilter),
    target: Seq<char>,
    level: Level,
) -> bool {
    text::begins_with(target, filter.0@) && verbosity(level) <= reach(filter.1)
}

/// A filter of the list lets a record through.
pub open spec fn is_allowed(
    filters: Seq<(String, LevelFilter)>,
    target: Seq<char>,
    level: Level,
) -> bool {
    exists|i: int| 0 <= i < filters.len() && #[trigger] lets_through(filters[i], target, level)
}

/// Whether one of the `(target prefix, max level)` pairs lets a record through.
pub fn allowed(filters: &[(String, LevelFilter)], target: &str, level: Level) -> (result: bool)
    ensures
        result == exists|i: int|
            0 <= i < filters@.len() && #[trigger] lets_through(filters@[i], target@, level),
        result == is_allowed(filters@, target@, level),
{
    let mut i: usize = 0;
    while i < filters.len()
        invariant
            i <= filters@.len(),
            forall|j: int| 0 <= j < i ==> !#[trigger] lets_through(filters@[j], target@, level),
        decreases filters@.len() - i,
    {
        if text::has_prefix(target, filters[i].0.as_str()) && within(level, filters[i].1) {
            assert(lets_through(filters@[i as int], target@, level));
            return true;
        }
        assert(!lets_through(filters@[i as int], target@, level));
        i += 1;
    }
    false
}

/// The name of a level, five characters wide.
pub open spec fn level_name(level: Level) -> Seq<char> {
    match level {
        Level::Error => "ERROR"@,
        Level::Warn => "WARN "@,
        Level::Info => "INFO "@,
        Level::Debug => "DEBUG"@,
        Level::Trace => "TRACE"@,
    }
}

/// The line of a log record.
pub open spec fn record_line(
    elapsed: Seq<char>,
    level: Level,
    target: Seq<char>,
    message: Seq<char>,
) -> Seq<char> {
    "["@ + elapsed + "] "@ + level_name(level) + " ["@ + target + "] "@ + message + "\n"@
}

/// Writes the line of a log record. `elapsed` is the number of seconds since
/// the start.
pub fn log_line(elapsed: &str, level: Level, target: &str, message: &str) -> (line: String)
    ensures
        line@ == record_line(elapsed@, level, target@, message@),
{
    let mut line = String::new();
    line.push_str("[");
    line.push_str(elapsed);
    line.push_str("] ");
    line.push_str(
        match level {
            Level::Error => "ERROR",
            Level::Warn => "WARN ",
            Level::Info => "INFO ",
            Level::Debug => "DEBUG",
            Level::Trace => "TRACE",
        },
    );
    line.push_str(" [");
    line.push_str(target);
    line.push_str("] ");
    line.push_str(message);
    line.push_str("\n");
    assert(line@ =~= record_line(elapsed@, level, target@, message@));
    line
}

/// The line that a restarted log file begins with.
pub open spec fn restart_line(elapsed: Seq<char>) -> Seq<char> {
    "["@ + elapsed + "] LOG ROTATED\n"@
}

/// Writes the line that a restarted log file begins with.
pub fn rotated_line(elapsed: &str) -> (line: String)
    ensures
        line@ == restart_line(elapsed@),
{
    let mut line = String::new();
    line.push_str("[");
    line.push_str(elapsed);
    line.push_str("] LOG ROTATED\n");
    assert(line@ =~= restart_line(elapsed@));
    line
}

/// What the log file holds once a line was written. A line that would take it
/// past [`MAX_LOG_FILE_BYTES`] restarts it: then it holds the notice of that and
/// the line, and nothing else.
pub open spec fn file_after(file: Seq<u8>, line: Seq<char>, notice: Seq<char>) -> Seq<u8> {
    if file.len() + encode_utf8(line).len() > MAX_LOG_FILE_BYTES {
        encode_utf8(notice) + encode_utf8(line)
    } else {
        file + encode_utf8(line)
    }
}

/// The log file never holds more than [`MAX_LOG_FILE_BYTES`], as long as a line
/// with a notice fits, and always ends with the line that was written last.
pub proof fn law_log_file_is_capped(file: Seq<u8>, line: Seq<char>, notice: Seq<char>)
    requires
        file.len() <= MAX_LOG_FILE_BYTES,
        encode_utf8(notice).len() + encode_utf8(line).len() <= MAX_LOG_FILE_BYTES,
    ensures
        file_after(file, line, notice).len() <= MAX_LOG_FILE_BYTES,
        encode_utf8(line).is_suffix_of(file_after(file, line, notice)),
{
}

/// How much was written to the log file since it was started.
pub struct LogSize {
    pub size: u64,
}

impl LogSize {
    /// Nothing was written yet.
    pub fn new() -> (state: Self)
        ensures
            state.size == 0,
    {
        LogSize { size: 0 }
    }

    /// Counts a line that comes next. Tells whether the log file has to be
    /// restarted for it, which is so where the line would take the file past
    /// [`MAX_LOG_FILE_BYTES`]; a file that is restarted begins with `notice`.
    pub fn count_line(&mut self, line: &str, notice: &str) -> (restart: bool)
        requires
            encode_utf8(notice@).len() + encode_utf8(line@).len() <= u64::MAX,
        ensures
            restart == (old(self).size + encode_utf8(line@).len() > MAX_LOG_FILE_BYTES),
            final(self).size == if restart {
                (encode_utf8(notice@).len() + encode_utf8(line@).len()) as int
            } else {
                old(self).size + encode_utf8(line@).len()
            },
            encode_utf8(notice@).len() + encode_utf8(line@).len() <= MAX_LOG_FILE_BYTES
                ==> final(self).size <= MAX_LOG_FILE_BYTES,
            forall|file: Seq<u8>|
                file.len() == old(self).size ==> final(self).size == (#[trigger] file_after(
                    file,
                    line@,
                    notice@,
                )).len(),
    {
        let length = line.as_bytes().len() as u64;
        if self.size <= MAX_LOG_FILE_BYTES && length <= MAX_LOG_FILE_BYTES - self.size {
            self.size = self.size + length;
            false
        } else {
            self.size = notice.as_bytes().len() as u64 + length;
            true
        }
    }

    /// Takes back a line or a notice that was counted and could not be written.
    pub fn take_back(&mut self, line: &str)
        requires
            encode_utf8(line@).len() <= old(self).size,
        ensures
            final(self).size == old(self).size - encode_utf8(line@).len(),
    {
        self.size = self.size - line.as_bytes().len() as u64;
    }
}

/// How a character is written in HTML text.
pub open spec fn escaped_char(c: char) -> Seq<char> {
    if c == '&' {
        "&amp;"@
    } else if c == '<' {
        "&lt;"@
    } else if c == '>' {
        "&gt;"@
    } else {
        seq![c]
    }
}

/// How a text is written in HTML.
pub open spec fn escaped(plain: Seq<char>) -> Seq<char>
    decreases plain.len(),
{
    if plain.len() == 0 {
        Seq::empty()
    } else {
        escaped(plain.drop_last()) + escaped_char(plain.last())
    }
}

/// Writes a text as HTML.
pub fn escape(plain: &str) -> (html: String)
    ensures
        html@ == escaped(plain@),
{
    let chars = text::characters(plain);
    let mut html = String::new();
    let mut i: usize = 0;
    while i < chars.len()
        invariant
            i <= chars@.len(),
            html@ == escaped(chars@.take(i as int)),
        decreases chars@.len() - i,
    {
        let ghost front = chars@.take(i + 1);
        assert(front.drop_last() =~= chars@.take(i as int));
        let c = chars[i];
        if c == '&' {
            html.push_str("&amp;");
        } else if c == '<' {
            html.push_str("&lt;");
        } else if c == '>' {
            html.push_str("&gt;");
        } else {
            html.push(c);
        }
        assert(html@ =~= escaped(front));
        i += 1;
    }
    assert(chars@.take(i as int) =~= chars@);
    html
}

/// Text that was escaped holds no markup.
pub proof fn law_escaped_text_has_no_markup(plain: Seq<char>)
    ensures
        forall|i: int|
            0 <= i < escaped(plain).len() ==> escaped(plain)[i] != '<' && escaped(plain)[i] != '>',
    decreases plain.len(),
{
    reveal_strlit("&amp;");
    reveal_strlit("&lt;");
    reveal_strlit("&gt;");
    if plain.len() > 0 {
        law_escaped_text_has_no_markup(plain.drop_last());
        let front = escaped(plain.drop_last());
        let end = escaped_char(plain.last());
        assert(forall|i: int| 0 <= i < end.len() ==> end[i] != '<' && end[i] != '>');
        assert forall|i: int| 0 <= i < escaped(plain).len() implies escaped(plain)[i] != '<'
            && escaped(plain)[i] != '>' by {
            if i < front.len() {
                assert(escaped(plain)[i] == front[i]);
            } else {
                assert(escaped(plain)[i] == end[i - front.len()]);
            }
        }
    }
}

/// The page that says why there is no log.
pub open spec fn fallback_page(message: Seq<char>) -> Seq<char> {
    "<!doctype html><html><head><meta charset=\"utf-8\"><meta name=\"viewport\" content=\"width=device-width, initial-scale=1\"><title>servo log</title></head><body style=\"background:#111;color:#ddd;font-family:monospace;font-size:14px;margin:12px\">"@
        + escaped(message) + "</body></html>"@
}

/// Writes the page that says why there is no log.
pub fn fallback(message: &str) -> (page: String)
    ensures
        page@ == fallback_page(message@),
{
    let mut page = String::new();
    page.push_str(
        "<!doctype html><html><head><meta charset=\"utf-8\"><meta name=\"viewport\" content=\"width=device-width, initial-scale=1\"><title>servo log</title></head><body style=\"background:#111;color:#ddd;font-family:monospace;font-size:14px;margin:12px\">",
    );
    page.push_str(escape(message).as_str());
    page.push_str("</body></html>");
    assert(page@ =~= fallback_page(message@));
    page
}

/// What came of looking for the log.
pub enum LogSource {
    /// It is not known where the log file is.
    NoPath,
    /// The file of that path cannot be read.
    Unreadable(String),
    /// The bytes of the file.
    Contents(Vec<u8>),
}

/// The last bytes of the log.
pub open spec fn tail(bytes: Seq<u8>) -> Seq<u8> {
    if bytes.len() > TAIL_BYTES {
        bytes.skip(bytes.len() - TAIL_BYTES)
    } else {
        bytes
    }
}

/// The lines in HTML, the last one first.
pub open spec fn newest_first(lines: Seq<Seq<char>>) -> Seq<char>
    decreases lines.len(),
{
    if lines.len() == 0 {
        Seq::empty()
    } else {
        escaped(lines.last()) + "\n"@ + newest_first(lines.drop_last())
    }
}

/// The page that shows a log.
pub open spec fn log_page(log: Seq<char>) -> Seq<char> {
    "<!doctype html><html><head><meta charset=\"utf-8\"><meta name=\"viewport\" content=\"width=device-width, initial-scale=1\"><meta http-equiv=\"refresh\" content=\"3\"><title>servo log</title></head><body style=\"background:#111;color:#ddd;font-family:monospace;font-size:12px;white-space:pre-wrap;word-break:break-all;margin:8px\">"@
        + newest_first(text::lines(log)) + "</body></html>"@
}

/// Writes the page that shows a log, newest line first, so that the most recent
/// output is always at the top of the viewport. The page refreshes itself.
pub fn page_of_log(log: &str) -> (page: String)
    ensures
        page@ == log_page(log@),
{
    let lines = text::text_lines(log);
    let ghost all = text::lines(log@);
    let mut page = String::new();
    page.push_str(
        "<!doctype html><html><head><meta charset=\"utf-8\"><meta name=\"viewport\" content=\"width=device-width, initial-scale=1\"><meta http-equiv=\"refresh\" content=\"3\"><title>servo log</title></head><body style=\"background:#111;color:#ddd;font-family:monospace;font-size:12px;white-space:pre-wrap;word-break:break-all;margin:8px\">",
    );
    let ghost head = page@;
    let mut i: usize = lines.len();
    assert(text::texts(lines@).len() == lines@.len());
    assert(all.take(i as int) =~= all);
    while i > 0
        invariant
            i <= lines@.len(),
            all == text::texts(lines@),
            page@ + newest_first(all.take(i as int)) == head + newest_first(all),
        decreases i,
    {
        let ghost front = all.take(i as int);
        let ghost so_far = page@;
        i -= 1;
        assert(front.drop_last() =~= all.take(i as int));
        assert(front.last() == lines@[i as int]@);
        page.push_str(escape(lines[i].as_str()).as_str());
        page.push_str("\n");
        assert(page@ + newest_first(all.take(i as int)) =~= so_far + newest_first(front));
    }
    assert(page@ =~= head + newest_first(all));
    page.push_str("</body></html>");
    assert(page@ =~= log_page(log@));
    page
}

/// The page for what came of looking for the log.
pub open spec fn page_for(source: LogSource) -> Seq<char> {
    match source {
        LogSource::Contents(bytes) => log_page(text::decoded_text(tail(bytes@))),
        LogSource::Unreadable(path) => fallback_page("Could not read "@ + path@ + "."@),
        LogSource::NoPath => fallback_page("The log file path was not initialized."@),
    }
}

/// Serves the tail of the log file.
pub fn page_html(source: &LogSource) -> (page: String)
    ensures
        page@ == match source {
            LogSource::NoPath => fallback_page("The log file path was not initialized."@),
            LogSource::Unreadable(path) => fallback_page("Could not read "@ + path@ + "."@),
            LogSource::Contents(bytes) => log_page(text::decoded_text(tail(bytes@))),
        },
        page@ == page_for(*source),
{
    match source {
        LogSource::NoPath => fallback("The log file path was not initialized."),
        LogSource::Unreadable(path) => {
            let mut message = String::new();
            message.push_str("Could not read ");
            message.push_str(path.as_str());
            message.push_str(".");
            assert(message@ =~= "Could not read "@ + path@ + "."@);
            fallback(message.as_str())
        },
        LogSource::Contents(bytes) => {
            let start: usize = if bytes.len() > TAIL_BYTES {
                bytes.len() - TAIL_BYTES
            } else {
                0
            };
            assert(bytes@.subrange(start as int, bytes@.len() as int) =~= tail(bytes@));
            let log = text::decode_text(&bytes.as_slice()[start..bytes.len()]);
            page_of_log(log.as_str())
        },
    }
}

} // verus!
