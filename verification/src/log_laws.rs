//! What holds of the log: which records are written, how they look, and how the
//! log page shows them.
use vstd::prelude::*;
use vstd::utf8::*;

use crate::servolog;
use crate::servolog::Level;
use crate::servolog::LevelFilter;
use crate::servolog::LogSource;
use crate::text;
use crate::text_laws;

verus! {

/// A filter lets a record through where its prefix begins the target of the
/// record, and the record is no less severe than the filter; one that is off lets
/// nothing through.
pub proof fn law_filters(filter: (String, LevelFilter), target: Seq<char>, level: Level)
    ensures
        servolog::lets_through(filter, target, level) <==> text::begins_with(target, filter.0@)
            && match filter.1 {
            LevelFilter::Off => false,
            LevelFilter::Error => level is Error,
            LevelFilter::Warn => level is Error || level is Warn,
            LevelFilter::Info => level is Error || level is Warn || level is Info,
            LevelFilter::Debug => !(level is Trace),
            LevelFilter::Trace => true,
        },
{
}

/// One more filter lets through what it lets through itself, and forbids nothing;
/// without filters nothing is let through.
pub proof fn law_filters_add_up(
    filters: Seq<(String, LevelFilter)>,
    filter: (String, LevelFilter),
    target: Seq<char>,
    level: Level,
)
    ensures
        servolog::is_allowed(filters.push(filter), target, level) <==> servolog::is_allowed(
            filters,
            target,
            level,
        ) || servolog::lets_through(filter, target, level),
        !servolog::is_allowed(Seq::empty(), target, level),
{
    let more = filters.push(filter);
    if servolog::is_allowed(filters, target, level) {
        let i = choose|i: int|
            0 <= i < filters.len() && #[trigger] servolog::lets_through(filters[i], target, level);
        assert(more[i] == filters[i]);
    }
    assert(more[filters.len() as int] == filter);
    if servolog::is_allowed(more, target, level) {
        let i = choose|i: int|
            0 <= i < more.len() && #[trigger] servolog::lets_through(more[i], target, level);
        if i < filters.len() {
            assert(more[i] == filters[i]);
        }
    }
}

/// The line of a record has the time, the level, the target and the message, and
/// ends with a line feed.
pub proof fn law_record_line(
    elapsed: Seq<char>,
    level: Level,
    target: Seq<char>,
    message: Seq<char>,
)
    ensures
        servolog::record_line(elapsed, level, target, message) == "["@ + elapsed + "] "@
            + servolog::level_name(level) + " ["@ + target + "] "@ + message + "\n"@,
        servolog::level_name(level).len() == 5,
        servolog::level_name(level) == "ERROR"@ <==> level is Error,
        servolog::level_name(level) == "WARN "@ <==> level is Warn,
        servolog::level_name(level) == "INFO "@ <==> level is Info,
        servolog::level_name(level) == "DEBUG"@ <==> level is Debug,
        servolog::level_name(level) == "TRACE"@ <==> level is Trace,
        servolog::restart_line(elapsed) == "["@ + elapsed + "] LOG ROTATED\n"@,
{
    reveal_strlit("ERROR");
    reveal_strlit("WARN ");
    reveal_strlit("INFO ");
    reveal_strlit("DEBUG");
    reveal_strlit("TRACE");
    assert("ERROR"@[0] == 'E' && "WARN "@[0] == 'W' && "INFO "@[0] == 'I' && "DEBUG"@[0] == 'D');
    assert("TRACE"@[0] == 'T');
    assert("ERROR"@.len() == 5 && "WARN "@.len() == 5 && "INFO "@.len() == 5);
    assert("DEBUG"@.len() == 5 && "TRACE"@.len() == 5);
}

/// A line that fits comes behind what the file holds. One that does not restarts
/// the file, which then holds the notice and the line.
pub proof fn law_log_file_grows_or_restarts(file: Seq<u8>, line: Seq<char>, notice: Seq<char>)
    ensures
        file.len() + encode_utf8(line).len() <= 8388608 ==> {
            &&& file.is_prefix_of(servolog::file_after(file, line, notice))
            &&& servolog::file_after(file, line, notice).skip(file.len() as int) == encode_utf8(
                line,
            )
        },
        file.len() + encode_utf8(line).len() > 8388608 ==> {
            &&& encode_utf8(notice).is_prefix_of(servolog::file_after(file, line, notice))
            &&& servolog::file_after(file, line, notice).skip(encode_utf8(notice).len() as int)
                == encode_utf8(line)
        },
{
    let after = servolog::file_after(file, line, notice);
    if file.len() + encode_utf8(line).len() <= 8388608 {
        assert(after.skip(file.len() as int) =~= encode_utf8(line));
        assert(file =~= after.subrange(0, file.len() as int));
    } else {
        assert(after.skip(encode_utf8(notice).len() as int) =~= encode_utf8(line));
        assert(encode_utf8(notice) =~= after.subrange(0, encode_utf8(notice).len() as int));
    }
}

/// Text is escaped character by character: ampersands and angle brackets by their
/// entities, and all else as it is.
pub proof fn law_text_is_escaped(a: Seq<char>, b: Seq<char>, c: char)
    ensures
        servolog::escaped(a + b) == servolog::escaped(a) + servolog::escaped(b),
        servolog::escaped(seq![c]) == if c == '&' {
            "&amp;"@
        } else if c == '<' {
            "&lt;"@
        } else if c == '>' {
            "&gt;"@
        } else {
            seq![c]
        },
        servolog::escaped(Seq::empty()).len() == 0,
    decreases b.len(),
{
    let single = seq![c];
    assert(single.drop_last() =~= Seq::empty());
    assert(Seq::<char>::empty() + servolog::escaped_char(c) =~= servolog::escaped_char(c));
    assert(servolog::escaped(single.drop_last()) =~= Seq::empty());
    if b.len() == 0 {
        assert(a + b =~= a);
        assert(servolog::escaped(a) + Seq::<char>::empty() =~= servolog::escaped(a));
    } else {
        assert((a + b).drop_last() =~= a + b.drop_last());
        law_text_is_escaped(a, b.drop_last(), c);
        assert(servolog::escaped(a + b) =~= servolog::escaped(a) + servolog::escaped(b));
    }
}

/// The page serves the end of the log: no more than 160 kibibytes, and all of it
/// where it is no longer.
pub proof fn law_end_of_the_log_is_served(bytes: Seq<u8>)
    ensures
        servolog::tail(bytes).is_suffix_of(bytes),
        bytes.len() <= 163840 ==> servolog::tail(bytes) == bytes,
        bytes.len() > 163840 ==> servolog::tail(bytes).len() == 163840,
{
    let end = servolog::tail(bytes);
    assert(end =~= bytes.subrange(bytes.len() - end.len(), bytes.len() as int));
}

/// The page shows every line, escaped and on a line of its own, the last one
/// first.
pub proof fn law_newest_line_comes_first(lines: Seq<Seq<char>>, line: Seq<char>)
    ensures
        servolog::newest_first(lines.push(line)) == servolog::escaped(line) + "\n"@
            + servolog::newest_first(lines),
        servolog::newest_first(Seq::empty()).len() == 0,
{
    assert(lines.push(line).drop_last() =~= lines);
}

/// A log of no more than 160 kibibytes is shown as it was written; where there is
/// none the page says why.
pub proof fn law_page_shows_the_log(source: LogSource, log: Seq<char>)
    ensures
        match source {
            LogSource::Contents(bytes) => bytes@ == encode_utf8(log) && bytes@.len() <= 163840
                ==> servolog::page_for(source) == servolog::log_page(log),
            LogSource::Unreadable(path) => servolog::page_for(source) == servolog::fallback_page(
                "Could not read "@ + path@ + "."@,
            ),
            LogSource::NoPath => servolog::page_for(source) == servolog::fallback_page(
                "The log file path was not initialized."@,
            ),
        },
{
    text_laws::law_text_can_be_had_back(log);
}

/// The page of a log has its lines between a head that refreshes the page and an
/// end; the page without a log has the escaped message there.
pub proof fn law_log_pages(log: Seq<char>, message: Seq<char>)
    ensures
        servolog::log_page(log)
            == "<!doctype html><html><head><meta charset=\"utf-8\"><meta name=\"viewport\" content=\"width=device-width, initial-scale=1\"><meta http-equiv=\"refresh\" content=\"3\"><title>servo log</title></head><body style=\"background:#111;color:#ddd;font-family:monospace;font-size:12px;white-space:pre-wrap;word-break:break-all;margin:8px\">"@
            + servolog::newest_first(text::lines(log)) + "</body></html>"@,
        servolog::fallback_page(message)
            == "<!doctype html><html><head><meta charset=\"utf-8\"><meta name=\"viewport\" content=\"width=device-width, initial-scale=1\"><title>servo log</title></head><body style=\"background:#111;color:#ddd;font-family:monospace;font-size:14px;margin:12px\">"@
            + servolog::escaped(message) + "</body></html>"@,
{
}

} // verus!
