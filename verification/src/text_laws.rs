//! What holds of texts: where they are found, cut, and joined, and how numbers are
//! written in them.
use vstd::prelude::*;
use vstd::utf8::*;

use crate::discovery;
use crate::discovery::ListenAddress;
use crate::navigatorinfo;
use crate::navigatorinfo::OperatingSystem;
use crate::text;

verus! {

/// A pattern stands in a text at an index, character by character.
pub open spec fn stands_at(whole: Seq<char>, pattern: Seq<char>, at: int) -> bool {
    &&& 0 <= at
    &&& at + pattern.len() <= whole.len()
    &&& forall|j: int| 0 <= j < pattern.len() ==> whole[at + j] == #[trigger] pattern[j]
}

proof fn lemma_stands_at(whole: Seq<char>, pattern: Seq<char>, at: int)
    ensures
        stands_at(whole, pattern, at) == text::occurs_at(whole, pattern, at),
{
    if text::occurs_at(whole, pattern, at) {
        assert forall|j: int| 0 <= j < pattern.len() implies whole[at + j]
            == #[trigger] pattern[j] by {
            assert(whole.subrange(at, at + pattern.len())[j] == pattern[j]);
        }
    }
    if stands_at(whole, pattern, at) {
        assert(whole.subrange(at, at + pattern.len()) =~= pattern);
    }
}

/// A pattern is found where it stands first.
pub proof fn law_first_place_is_found(whole: Seq<char>, pattern: Seq<char>, from: int)
    requires
        0 <= from,
    ensures
        match text::find_from(whole, pattern, from) {
            Some(at) => {
                &&& from <= at
                &&& stands_at(whole, pattern, at)
                &&& forall|p: int| from <= p < at ==> !#[trigger] stands_at(whole, pattern, p)
            },
            None => forall|p: int| from <= p ==> !#[trigger] stands_at(whole, pattern, p),
        },
    decreases whole.len() + 1 - from,
{
    lemma_stands_at(whole, pattern, from);
    if from + pattern.len() <= whole.len() && !text::occurs_at(whole, pattern, from) {
        law_first_place_is_found(whole, pattern, from + 1);
    }
}

/// A text begins with a prefix, or holds a pattern, where that stands in it.
pub proof fn law_prefixes_and_patterns(whole: Seq<char>, pattern: Seq<char>)
    ensures
        text::begins_with(whole, pattern) <==> stands_at(whole, pattern, 0),
        text::contains_text(whole, pattern) <==> exists|at: int| #[trigger]
            stands_at(whole, pattern, at),
{
    lemma_stands_at(whole, pattern, 0);
    if text::contains_text(whole, pattern) {
        let at = choose|at: int| text::occurs_at(whole, pattern, at);
        lemma_stands_at(whole, pattern, at);
    }
    if exists|at: int| #[trigger] stands_at(whole, pattern, at) {
        let at = choose|at: int| #[trigger] stands_at(whole, pattern, at);
        lemma_stands_at(whole, pattern, at);
    }
}

/// White space is the tab, the line breaks, the space, and the other characters
/// that Unicode counts as such.
pub proof fn law_white_space(c: char)
    ensures
        c as u32 <= 0x7F ==> (text::is_space(c) <==> c == ' ' || c == '\t' || c == '\n' || c
            == '\r' || c as u32 == 0x0B || c as u32 == 0x0C),
        0x7F < c as u32 <= 0xFF ==> (text::is_space(c) <==> c as u32 == 0x85 || c as u32 == 0xA0),
        c as u32 > 0xFF ==> (text::is_space(c) <==> c as u32 == 0x1680 || 0x2000 <= c as u32
            <= 0x200A || c as u32 == 0x2028 || c as u32 == 0x2029 || c as u32 == 0x202F || c as u32
            == 0x205F || c as u32 == 0x3000),
{
}

/// A word stands in a text from one index to another: it has no white space, and
/// white space or the end of the text follows.
pub open spec fn is_word_at(whole: Seq<char>, from: int, to: int) -> bool {
    &&& 0 <= from <= to <= whole.len()
    &&& forall|i: int| from <= i < to ==> !text::is_space(#[trigger] whole[i])
    &&& to < whole.len() ==> text::is_space(whole[to])
}

/// There is nothing but white space between two indices.
pub open spec fn is_blank(whole: Seq<char>, from: int, to: int) -> bool {
    &&& 0 <= from <= to <= whole.len()
    &&& forall|i: int| from <= i < to ==> text::is_space(#[trigger] whole[i])
}

/// The first word of a text is all that stands in front of the first white
/// space.
pub proof fn law_first_word(whole: Seq<char>)
    ensures
        ({
            let word = text::first_word(whole);
            &&& word.len() <= whole.len()
            &&& word == whole.take(word.len() as int)
            &&& is_word_at(whole, 0, word.len() as int)
        }),
    decreases whole.len(),
{
    if whole.len() > 0 && !text::is_space(whole[0]) {
        let rest = whole.skip(1);
        law_first_word(rest);
        let n = text::first_word(rest).len() as int;
        assert(text::first_word(whole) =~= whole.take(n + 1));
        assert forall|i: int| 0 <= i < n + 1 implies !text::is_space(#[trigger] whole[i]) by {
            if i > 0 {
                assert(rest[i - 1] == whole[i]);
            }
        }
        if n + 1 < whole.len() {
            assert(rest[n] == whole[n + 1]);
        }
    }
}

proof fn lemma_trim_start(whole: Seq<char>)
    ensures
        ({
            let cut = whole.len() - text::trim_start(whole).len();
            &&& 0 <= cut <= whole.len()
            &&& text::trim_start(whole) == whole.skip(cut)
            &&& is_blank(whole, 0, cut)
            &&& cut < whole.len() ==> !text::is_space(whole[cut])
        }),
    decreases whole.len(),
{
    if whole.len() > 0 && text::is_space(whole[0]) {
        let rest = whole.skip(1);
        lemma_trim_start(rest);
        let cut = rest.len() - text::trim_start(rest).len();
        assert(rest.skip(cut) =~= whole.skip(cut + 1));
        assert forall|i: int| 0 <= i < cut + 1 implies text::is_space(#[trigger] whole[i]) by {
            if i > 0 {
                assert(rest[i - 1] == whole[i]);
            }
        }
        if cut + 1 < whole.len() {
            assert(rest[cut] == whole[cut + 1]);
        }
    } else {
        assert(whole.skip(0) =~= whole);
    }
}

/// A word is the second in a text, where the first stands from `a` to `b` and the
/// second from `c` to `d`.
pub open spec fn is_second_word(
    word: Seq<char>,
    whole: Seq<char>,
    a: int,
    b: int,
    c: int,
    d: int,
) -> bool {
    &&& is_blank(whole, 0, a)
    &&& is_word_at(whole, a, b)
    &&& is_blank(whole, b, c)
    &&& is_word_at(whole, c, d)
    &&& word == whole.subrange(c, d)
    &&& a < whole.len() ==> a < b
    &&& c < whole.len() ==> c < d
}

/// The second word of a text stands behind the white space behind the first.
pub proof fn law_second_word(whole: Seq<char>)
    ensures
        exists|a: int, b: int, c: int, d: int| #[trigger]
            is_second_word(text::second_word(whole), whole, a, b, c, d),
{
    lemma_trim_start(whole);
    let start = text::trim_start(whole);
    let a = whole.len() - start.len();
    law_first_word(start);
    let b = a + text::first_word(start).len();
    let rest = start.skip(b - a);
    assert(rest =~= whole.skip(b));
    lemma_trim_start(rest);
    let last = text::trim_start(rest);
    let c = whole.len() - last.len();
    law_first_word(last);
    let word = text::second_word(whole);
    let d = c + word.len();
    assert(last =~= whole.skip(c));
    assert(word =~= whole.subrange(c, d));
    assert forall|i: int| a <= i < b implies !text::is_space(#[trigger] whole[i]) by {
        assert(start[i - a] == whole[i]);
    }
    assert forall|i: int| b <= i < c implies text::is_space(#[trigger] whole[i]) by {
        assert(rest[i - b] == whole[i]);
    }
    assert forall|i: int| c <= i < d implies !text::is_space(#[trigger] whole[i]) by {
        assert(last[i - c] == whole[i]);
    }
    if b < whole.len() {
        assert(start[b - a] == whole[b]);
    }
    if d < whole.len() {
        assert(last[d - c] == whole[d]);
    }
    assert(is_second_word(word, whole, a, b, c, d));
}

/// White space is cut from both ends of a text, and nothing else is.
pub proof fn law_trimming(whole: Seq<char>)
    ensures
        exists|from: int, to: int| #[trigger] is_trimmed(text::trim(whole), whole, from, to),
{
    lemma_trim_start(whole);
    let start = text::trim_start(whole);
    let from = whole.len() - start.len();
    lemma_trim_end(start);
    let word = text::trim(whole);
    let to = from + word.len();
    assert(word =~= whole.subrange(from, to));
    assert forall|i: int| to <= i < whole.len() implies text::is_space(#[trigger] whole[i]) by {
        assert(start[i - from] == whole[i]);
    }
    if word.len() > 0 {
        assert(word[0] == start[0]);
    }
    assert(is_trimmed(word, whole, from, to));
}

/// A word is what is left of a text without the white space around it.
pub open spec fn is_trimmed(word: Seq<char>, whole: Seq<char>, from: int, to: int) -> bool {
    &&& is_blank(whole, 0, from)
    &&& is_blank(whole, to, whole.len() as int)
    &&& from <= to
    &&& word == whole.subrange(from, to)
    &&& word.len() > 0 ==> !text::is_space(word[0]) && !text::is_space(word.last())
}

proof fn lemma_trim_end(whole: Seq<char>)
    ensures
        ({
            let n = text::trim_end(whole).len() as int;
            &&& n <= whole.len()
            &&& text::trim_end(whole) == whole.take(n)
            &&& is_blank(whole, n, whole.len() as int)
            &&& n > 0 ==> !text::is_space(whole[n - 1])
        }),
    decreases whole.len(),
{
    if whole.len() > 0 && text::is_space(whole.last()) {
        let front = whole.drop_last();
        lemma_trim_end(front);
        let n = text::trim_end(whole).len() as int;
        assert(front.take(n) =~= whole.take(n));
        assert forall|i: int| n <= i < whole.len() implies text::is_space(#[trigger] whole[i]) by {
            if i < whole.len() - 1 {
                assert(front[i] == whole[i]);
            }
        }
    } else {
        assert(whole.take(whole.len() as int) =~= whole);
    }
}

/// A line ends with a line feed, with or without a carriage return in front of
/// it, and the other lines follow; what is left at the end is a line where it is
/// not empty.
pub proof fn law_lines(line: Seq<char>, rest: Seq<char>)
    requires
        forall|i: int| 0 <= i < line.len() ==> line[i] != '\n',
    ensures
        text::lines(line + seq!['\r', '\n'] + rest) == seq![line] + text::lines(rest),
        line.len() == 0 || line.last() != '\r' ==> text::lines(line + seq!['\n'] + rest)
            == seq![line] + text::lines(rest),
        line.len() > 0 ==> text::lines(line) == seq![line],
        text::lines(Seq::empty()) == Seq::<Seq<char>>::empty(),
{
    lemma_line(line, rest);
    let longer = line.push('\r');
    lemma_line(longer, rest);
    assert(longer + seq!['\n'] + rest =~= line + seq!['\r', '\n'] + rest);
    assert(longer.drop_last() =~= line);
    if line.len() > 0 {
        text::lemma_position(line, '\n');
    }
}

proof fn lemma_line(line: Seq<char>, rest: Seq<char>)
    requires
        forall|i: int| 0 <= i < line.len() ==> line[i] != '\n',
    ensures
        text::lines(line + seq!['\n'] + rest) == seq![text::chomp(line)] + text::lines(rest),
{
    let whole = line + seq!['\n'] + rest;
    text::lemma_position(whole, '\n');
    let end = text::position(whole, '\n');
    assert(whole[line.len() as int] == '\n');
    if end < line.len() {
        assert(whole[end] == line[end]);
    }
    assert(end == line.len());
    assert(whole.take(end) =~= line);
    assert(whole.skip(end + 1) =~= rest);
}

/// The number that decimal digits stand for: one more digit makes it ten times as
/// large, and adds the digit.
pub proof fn law_number_of_digits(digits: Seq<char>, c: char)
    requires
        '0' <= c <= '9',
    ensures
        discovery::number(digits.push(c)) == discovery::number(digits) * 10 + (c as int
            - '0' as int),
        discovery::number(Seq::empty()) == 0,
{
    assert(digits.push(c).drop_last() =~= digits);
}

/// A number can be had back from its decimal notation, which has digits only and
/// no zero in front.
pub proof fn law_decimal_can_be_read(n: nat)
    ensures
        discovery::number(text::decimal(n)) == n,
        discovery::all_digits(text::decimal(n)),
        text::decimal(n).len() > 0,
        n > 0 ==> text::decimal(n)[0] != '0',
        n == 0 ==> text::decimal(n) == seq!['0'],
    decreases n,
{
    let t = text::decimal(n);
    let last = text::digit(n % 10);
    assert('0' <= last <= '9');
    assert(last as int - '0' as int == n % 10);
    if n < 10 {
        assert(t.drop_last() =~= Seq::empty());
        assert(discovery::number(t.drop_last()) == 0);
    } else {
        law_decimal_can_be_read(n / 10);
        assert(t.drop_last() =~= text::decimal(n / 10));
        assert(t[0] == text::decimal(n / 10)[0]);
        assert forall|i: int| 0 <= i < t.len() implies '0' <= #[trigger] t[i] <= '9' by {
            if i < t.len() - 1 {
                assert(t[i] == text::decimal(n / 10)[i]);
            }
        }
    }
}

/// Every port can be written in decimal notation, with or without a plus sign. A
/// text gives a port only where it has digits behind at most one plus sign, and
/// then the number that they stand for.
pub proof fn law_ports_are_read(port: u16, word: Seq<char>)
    ensures
        discovery::port_in(text::decimal(port as nat)) == Some(port),
        discovery::port_in(seq!['+'] + text::decimal(port as nat)) == Some(port),
        discovery::all_digits(word) && word.len() > 0 ==> (discovery::port_in(word) == Some(port)
            <==> discovery::number(word) == port),
        discovery::all_digits(word) && discovery::number(word) > 65535 ==> discovery::port_in(word)
            is None,
        word.len() == 0 || word == seq!['+'] ==> discovery::port_in(word) is None,
        word.len() > 0 && word[0] != '+' && !discovery::all_digits(word)
            ==> discovery::port_in(word) is None,
{
    law_decimal_can_be_read(port as nat);
    let t = text::decimal(port as nat);
    assert('0' <= t[0] <= '9');
    let signed = seq!['+'] + t;
    assert(signed.skip(1) =~= t);
    if word.len() > 0 && discovery::all_digits(word) {
        assert('0' <= word[0] <= '9');
    }
}

/// The server listens where it is told: at an address with a port as it is given,
/// and at a port alone on the local host. Without either it listens on the local
/// host at the port 9222.
pub proof fn law_listen_address(preference: Seq<char>, port: u16)
    ensures
        preference.len() > 0 ==> discovery::listen_choice(preference, true) is AsGiven,
        discovery::listen_choice(text::decimal(port as nat), false) == ListenAddress::Local(port),
        discovery::listen_choice(Seq::empty(), false) == ListenAddress::Local(9222),
        discovery::listen_choice(Seq::empty(), true) == ListenAddress::Local(9222),
        preference.len() > 0 && preference[0] != '+' && !discovery::all_digits(preference)
            ==> discovery::listen_choice(preference, false) == ListenAddress::Local(9222),
        discovery::all_digits(preference) && discovery::number(preference) > 65535
            ==> discovery::listen_choice(preference, false) == ListenAddress::Local(9222),
{
    law_ports_are_read(port, preference);
    law_ports_are_read(port, Seq::empty());
}

/// A version stands in a user agent, behind the first `Chrome/`: from `from` to
/// `to` there is no dot, no white space and no other `Chrome/`, and one of these,
/// or the end, follows.
pub open spec fn is_version_at(
    version: Seq<char>,
    user_agent: Seq<char>,
    at: int,
    to: int,
) -> bool {
    let token = "Chrome/"@;
    let from = at + token.len();
    &&& stands_at(user_agent, token, at)
    &&& forall|p: int| 0 <= p < at ==> !#[trigger] stands_at(user_agent, token, p)
    &&& from <= to <= user_agent.len()
    &&& version == user_agent.subrange(from, to)
    &&& forall|i: int|
        from <= i < to ==> #[trigger] user_agent[i] != '.' && !text::is_space(user_agent[i])
    &&& forall|p: int| from <= p < to ==> !#[trigger] stands_at(user_agent, token, p)
    &&& to < user_agent.len() ==> user_agent[to] == '.' || text::is_space(user_agent[to])
        || stands_at(user_agent, token, to)
}

/// The version that a user agent reports stands behind its first `Chrome/`;
/// where there is none it is zero.
pub proof fn law_version_stands_behind_chrome(user_agent: Seq<char>)
    ensures
        (forall|p: int| 0 <= p ==> !#[trigger] stands_at(user_agent, "Chrome/"@, p))
            ==> discovery::chrome_version(user_agent) == "0"@,
        (exists|p: int| 0 <= p && #[trigger] stands_at(user_agent, "Chrome/"@, p)) ==> exists|
            at: int,
            to: int,
        | #[trigger]
            is_version_at(discovery::chrome_version(user_agent), user_agent, at, to),
{
    let token = "Chrome/"@;
    law_first_place_is_found(user_agent, token, 0);
    if let Some(at) = text::find_from(user_agent, token, 0) {
        let from = at + token.len();
        let rest = user_agent.skip(from);
        law_first_place_is_found(rest, token, 0);
        let piece = discovery::before_token(rest);
        let major = text::before(piece, '.');
        text::lemma_position(piece, '.');
        law_first_word(major);
        let version = text::first_word(major);
        let to = from + version.len();
        assert(piece =~= rest.take(piece.len() as int));
        assert(major =~= rest.take(major.len() as int));
        assert(version =~= user_agent.subrange(from, to));
        assert forall|i: int| from <= i < to implies #[trigger] user_agent[i] != '.'
            && !text::is_space(user_agent[i]) by {
            assert(major[i - from] == user_agent[i]);
            assert(piece[i - from] == user_agent[i]);
        }
        assert forall|p: int| from <= p < to implies !#[trigger] stands_at(
            user_agent,
            token,
            p,
        ) by {
            lemma_stands_behind(user_agent, token, from, p);
            assert(!stands_at(rest, token, p - from));
        }
        if to < user_agent.len() {
            let n = version.len() as int;
            if n < major.len() {
                assert(major[n] == user_agent[to]);
            } else if n < piece.len() {
                assert(piece[n] == user_agent[to]);
            } else {
                assert(stands_at(rest, token, n));
                lemma_stands_behind(user_agent, token, from, to);
            }
        }
        assert(version == discovery::chrome_version(user_agent));
        assert(is_version_at(discovery::chrome_version(user_agent), user_agent, at, to));
    }
}

proof fn lemma_stands_behind(whole: Seq<char>, pattern: Seq<char>, from: int, p: int)
    requires
        0 <= from <= p <= whole.len(),
    ensures
        stands_at(whole, pattern, p) == stands_at(whole.skip(from), pattern, p - from),
{
    let rest = whole.skip(from);
    if stands_at(whole, pattern, p) {
        assert forall|j: int| 0 <= j < pattern.len() implies rest[p - from + j]
            == #[trigger] pattern[j] by {
            assert(whole[p + j] == pattern[j]);
        }
    }
    if stands_at(rest, pattern, p - from) {
        assert forall|j: int| 0 <= j < pattern.len() implies whole[p + j]
            == #[trigger] pattern[j] by {
            assert(rest[p - from + j] == pattern[j]);
        }
    }
}

/// The URL under which a debugger reaches the browser has the address and the id
/// of the browser, in that order.
pub proof fn law_debugger_url(address: Seq<char>, browser_id: Seq<char>)
    ensures
        ({
            let url = discovery::debugger_url(address, browser_id);
            let middle = "/devtools/browser/"@;
            &&& url.len() == 5 + address.len() + middle.len() + browser_id.len()
            &&& stands_at(url, "ws://"@, 0)
            &&& stands_at(url, address, 5)
            &&& stands_at(url, middle, (5 + address.len()) as int)
            &&& stands_at(url, browser_id, (5 + address.len() + middle.len()) as int)
        }),
{
    reveal_strlit("ws://");
    assert("ws://"@.len() == 5);
}

/// A text can be had back from its UTF-8.
pub proof fn law_text_can_be_had_back(plain: Seq<char>)
    ensures
        text::decoded_text(encode_utf8(plain)) == plain,
{
    encode_utf8_decode_utf8(plain);
    encode_utf8_valid_utf8(plain);
}

/// The platforms of the desktop and of the phones are told apart, but for Linux
/// and FreeBSD, which report the same.
pub proof fn law_platforms(os: OperatingSystem)
    ensures
        navigatorinfo::platform_of(os) == "Win32"@ <==> os is Windows,
        navigatorinfo::platform_of(os) == "Linux armv8l"@ <==> os is Android,
        navigatorinfo::platform_of(os) == "Linux x86_64"@ <==> os is Linux || os is FreeBsd,
        navigatorinfo::platform_of(os) == "MacIntel"@ <==> os is MacOs,
        navigatorinfo::platform_of(os) == "iPhone"@ <==> os is Ios,
{
    reveal_strlit("Win32");
    reveal_strlit("Linux armv8l");
    reveal_strlit("Linux x86_64");
    reveal_strlit("MacIntel");
    reveal_strlit("iPhone");
    assert("Win32"@.len() == 5 && "Linux armv8l"@.len() == 12 && "Linux x86_64"@.len() == 12);
    assert("MacIntel"@.len() == 8 && "iPhone"@.len() == 6);
    assert("Linux armv8l"@[6] == 'a' && "Linux x86_64"@[6] == 'x');
}

} // verus!
